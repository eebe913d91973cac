//! A flat, name-sorted view of everything in the registry plus the tools
//! folder, shaped for a front-end's lists.

use vstd::prelude::*;

use crate::domain::{defines, find_tool, ModelDef, ProviderDef, Registry, Specialist};
use crate::sort::{lemma_sorted_of, sort_strings, sorted_of};
use crate::text::{owned, push_str, str_eq, views};

verus! {

#[derive(Debug)]
pub struct RegistrySnapshot {
    pub providers: Vec<String>,
    pub models: Vec<String>,
    pub specialists: Vec<String>,
    pub tools: Vec<String>,
    pub registry_path: String,
}

/// The snapshot of `registry`, the tool names `tool_names` and the registry
/// file's path: each list sorted.
pub fn load_snapshot(registry: &Registry, tool_names: Vec<String>, registry_path: String) -> (r:
    RegistrySnapshot)
    ensures
        views(r.providers@) == sorted_of(registry.providers.names()),
        views(r.models@) == sorted_of(registry.models.names()),
        views(r.specialists@) == sorted_of(registry.specialists.names()),
        views(r.tools@) == sorted_of(views(tool_names@)),
        r.registry_path == registry_path,
{
    let providers = registry.providers.sorted_keys();
    let models = registry.models.sorted_keys();
    let specialists = registry.specialists.sorted_keys();
    let ghost given = tool_names@;
    let tools = sort_strings(tool_names);
    proof {
        lemma_sorted_of(registry.providers.names(), views(providers@));
        lemma_sorted_of(registry.models.names(), views(models@));
        lemma_sorted_of(registry.specialists.names(), views(specialists@));
        crate::names::lemma_views_multiset(tools@, given);
        lemma_sorted_of(views(given), views(tools@));
    }
    RegistrySnapshot { providers, models, specialists, tools, registry_path }
}

/// One entity's definition, as a front end shows it: a registry entry, or a
/// tool, which lives in the tools folder under its name.
#[derive(Debug)]
pub enum Shown<'a> {
    Provider(&'a ProviderDef),
    Model(&'a ModelDef),
    Specialist(&'a Specialist),
    Tool(String),
}

/// `no such <kind> <name>`.
pub open spec fn no_such(kind: Seq<char>, name: Seq<char>) -> Seq<char> {
    "no such "@ + kind + " "@ + name
}

fn no_such_message(kind: &str, name: &str) -> (r: String)
    ensures
        r@ == no_such(kind@, name@),
{
    let mut e = owned("no such ");
    push_str(&mut e, kind);
    push_str(&mut e, " ");
    push_str(&mut e, name);
    e
}

/// One entity's definition by kind (`provider`, `model`, `specialist` or
/// `tool`) and name, given the registry and the names of the tools in the
/// tools folder. An entity that is not there is `no such <kind> <name>`; any
/// other kind is `unknown entity kind: <kind>`.
pub fn show_entity<'a>(registry: &'a Registry, tools: &Vec<String>, kind: &str, name: &str) -> (r:
    Result<Shown<'a>, String>)
    ensures
        if kind@ == "provider"@ {
            match registry.providers.lookup(name@) {
                Some(d) => r matches Ok(Shown::Provider(p)) && *p == d,
                None => r matches Err(e) && e@ == no_such(kind@, name@),
            }
        } else if kind@ == "model"@ {
            match registry.models.lookup(name@) {
                Some(d) => r matches Ok(Shown::Model(m)) && *m == d,
                None => r matches Err(e) && e@ == no_such(kind@, name@),
            }
        } else if kind@ == "specialist"@ {
            match registry.specialists.lookup(name@) {
                Some(d) => r matches Ok(Shown::Specialist(s)) && *s == d,
                None => r matches Err(e) && e@ == no_such(kind@, name@),
            }
        } else if kind@ == "tool"@ {
            if defines(tools@, name@) {
                r matches Ok(Shown::Tool(t)) && t@ == name@
            } else {
                r matches Err(e) && e@ == no_such(kind@, name@)
            }
        } else {
            r matches Err(e) && e@ == "unknown entity kind: "@ + kind@
        },
{
    if str_eq(kind, "provider") {
        match registry.providers.get(name) {
            Some(d) => Ok(Shown::Provider(d)),
            None => Err(no_such_message(kind, name)),
        }
    } else if str_eq(kind, "model") {
        match registry.models.get(name) {
            Some(d) => Ok(Shown::Model(d)),
            None => Err(no_such_message(kind, name)),
        }
    } else if str_eq(kind, "specialist") {
        match registry.specialists.get(name) {
            Some(d) => Ok(Shown::Specialist(d)),
            None => Err(no_such_message(kind, name)),
        }
    } else if str_eq(kind, "tool") {
        match find_tool(tools, name) {
            Some(_) => Ok(Shown::Tool(owned(name))),
            None => Err(no_such_message(kind, name)),
        }
    } else {
        let mut e = owned("unknown entity kind: ");
        push_str(&mut e, kind);
        Err(e)
    }
}

} // verus!
