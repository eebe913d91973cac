//! The definition layer: providers, models and specialists as plain data, the
//! registry that holds them, and the checks and lookups over it.
//!
//! A model names its provider and inherits that provider's protocol and
//! endpoint; a specialist names a provider, a model and the tools it may call.
//! Tools live as scripts in a folder, so checks that need them take the list
//! of tool names that folder holds.

use vstd::prelude::*;

use crate::ai::{Api, CompleteOptions, Model, Reasoning};
use crate::names::{inserted_in, lemma_views_multiset, removed_in, NameMap};
use crate::sort::{sort_strings, sorted_seqs};
use crate::text::{owned, push_str, str_eq, views};

verus! {

broadcast use vstd::seq_lib::group_to_multiset_ensures;

/// `core::slice::from_ref`: a one-element slice borrowing `s`.
pub assume_specification<T>[ core::slice::from_ref::<T> ](s: &T) -> (r: &[T])
    ensures
        r@ == seq![*s],
;

/// Which kind of registry entity a reference points at.
#[derive(Clone, Copy, Debug, PartialEq, Eq, Structural)]
pub enum EntityKind {
    Provider,
    Model,
    Tool,
    Specialist,
}

impl EntityKind {
    /// The kind's lowercase noun.
    pub open spec fn noun(self) -> Seq<char> {
        match self {
            EntityKind::Provider => "provider"@,
            EntityKind::Model => "model"@,
            EntityKind::Tool => "tool"@,
            EntityKind::Specialist => "specialist"@,
        }
    }

    /// The kind's lowercase noun, as messages name it.
    pub fn to_string(&self) -> (r: String)
        ensures
            r@ == self.noun(),
    {
        match self {
            EntityKind::Provider => owned("provider"),
            EntityKind::Model => owned("model"),
            EntityKind::Tool => owned("tool"),
            EntityKind::Specialist => owned("specialist"),
        }
    }
}

/// A reference, on a definition, to an entity the registry doesn't hold.
#[derive(Debug, PartialEq, Eq)]
pub struct MissingRef {
    pub kind: EntityKind,
    pub name: String,
}

/// An entity that references some target.
#[derive(Debug, PartialEq, Eq)]
pub struct Referrer {
    pub kind: EntityKind,
    pub name: String,
}

/// A defined provider: a name bound to a protocol, an endpoint and the
/// environment variable holding its API key.
#[derive(Debug, PartialEq, Eq)]
pub struct ProviderDef {
    pub name: String,
    pub api: Api,
    pub base_url: String,
    /// Environment variable holding the API key, if one is needed.
    pub api_key_env: Option<String>,
    /// Whether the endpoint supports grammar-constrained decoding.
    pub constrained_decoding: bool,
}

impl Clone for ProviderDef {
    fn clone(&self) -> (r: ProviderDef)
        ensures
            r == *self,
    {
        ProviderDef {
            name: self.name.clone(),
            api: self.api,
            base_url: self.base_url.clone(),
            api_key_env: match &self.api_key_env {
                Some(e) => Some(e.clone()),
                None => None,
            },
            constrained_decoding: self.constrained_decoding,
        }
    }
}

/// A defined model: it names its provider and carries only model limits.
#[derive(Debug, PartialEq, Eq)]
pub struct ModelDef {
    pub id: String,
    pub name: String,
    pub provider: String,
    pub max_tokens: u32,
    pub context_window: u32,
}

impl Clone for ModelDef {
    fn clone(&self) -> (r: ModelDef)
        ensures
            r == *self,
    {
        ModelDef {
            id: self.id.clone(),
            name: self.name.clone(),
            provider: self.provider.clone(),
            max_tokens: self.max_tokens,
            context_window: self.context_window,
        }
    }
}

/// The runtime model a definition lowers to under its provider.
pub open spec fn resolves_to(m: ModelDef, p: ProviderDef, r: Model) -> bool {
    &&& r.id@ == m.id@
    &&& r.name@ == m.name@
    &&& r.api == p.api
    &&& r.provider@ == p.name@
    &&& r.base_url@ == p.base_url@
    &&& r.max_tokens == m.max_tokens
    &&& r.context_window == m.context_window
}

impl ModelDef {
    /// Lower into a runtime [`Model`], taking protocol and endpoint from the
    /// provider.
    pub fn resolve(&self, provider: &ProviderDef) -> (r: Model)
        ensures
            resolves_to(*self, *provider, r),
    {
        Model {
            id: self.id.clone(),
            name: self.name.clone(),
            api: provider.api,
            provider: provider.name.clone(),
            base_url: provider.base_url.clone(),
            max_tokens: self.max_tokens,
            context_window: self.context_window,
        }
    }
}

/// A defined specialist: provider, model, system prompt, and either a set of
/// tools or one forced tool.
#[derive(Debug, PartialEq, Eq)]
pub struct Specialist {
    pub name: String,
    /// A provider, by name.
    pub provider: String,
    /// A model, by id.
    pub model: String,
    pub system_prompt: String,
    /// Tools, by name.
    pub tools: Vec<String>,
    /// A tool the model is forced to call.
    pub constraint: Option<String>,
    pub reasoning: Reasoning,
    /// Stream the response incrementally.
    pub stream: bool,
}

pub open spec fn opt_string_view(o: Option<String>) -> Option<Seq<char>> {
    match o {
        Some(s) => Some(s@),
        None => None,
    }
}

pub fn clone_opt_string(o: &Option<String>) -> (r: Option<String>)
    ensures
        r == *o,
{
    match o {
        Some(s) => Some(s.clone()),
        None => None,
    }
}

pub fn clone_strings(v: &Vec<String>) -> (r: Vec<String>)
    ensures
        r@ == v@,
{
    let mut out: Vec<String> = Vec::new();
    let mut i: usize = 0;
    while i < v.len()
        invariant
            i <= v@.len(),
            out@ == v@.subrange(0, i as int),
        decreases v.len() - i,
    {
        out.push(v[i].clone());
        i += 1;
        assert(out@ =~= v@.subrange(0, i as int));
    }
    assert(v@.subrange(0, i as int) =~= v@);
    out
}

/// `a` and `b` hold the same definition.
pub open spec fn same_specialist(a: Specialist, b: Specialist) -> bool {
    &&& a.name == b.name
    &&& a.provider == b.provider
    &&& a.model == b.model
    &&& a.system_prompt == b.system_prompt
    &&& a.tools@ == b.tools@
    &&& a.constraint == b.constraint
    &&& a.reasoning == b.reasoning
    &&& a.stream == b.stream
}

impl Clone for Specialist {
    fn clone(&self) -> (r: Specialist)
        ensures
            same_specialist(r, *self),
    {
        Specialist {
            name: self.name.clone(),
            provider: self.provider.clone(),
            model: self.model.clone(),
            system_prompt: self.system_prompt.clone(),
            tools: clone_strings(&self.tools),
            constraint: clone_opt_string(&self.constraint),
            reasoning: self.reasoning,
            stream: self.stream,
        }
    }
}

pub open spec fn both_error(name: Seq<char>) -> Seq<char> {
    "specialist '"@ + name + "' sets both tools and a constraint; use one or the other"@
}

pub open spec fn reasoning_error(name: Seq<char>) -> Seq<char> {
    "specialist '"@ + name
        + "' forces a tool call with reasoning enabled; a forced tool call is incompatible with reasoning, so set --reasoning off"@
}

impl Specialist {
    /// The tools exposed to the model: the forced one alone when a
    /// constraint is set, otherwise the freely callable ones.
    pub open spec fn spec_tool_names(self) -> Seq<String> {
        match self.constraint {
            Some(c) => seq![c],
            None => self.tools@,
        }
    }

    /// Whether the specialist names tool `t` among [`Self::spec_tool_names`].
    pub open spec fn uses_tool(self, t: Seq<char>) -> bool {
        exists|i: int| 0 <= i < self.spec_tool_names().len() && #[trigger] self.spec_tool_names()[i]@ == t
    }

    /// The per-request options the specialist implies: its reasoning level
    /// and, from its constraint, a forced tool choice. Everything else is left
    /// at its default.
    pub fn complete_options(&self) -> (r: CompleteOptions)
        ensures
            r.reasoning == self.reasoning,
            opt_string_view(r.tool_choice) == opt_string_view(self.constraint),
            r.max_tokens is None,
            !r.constrained_decoding,
            r.api_key is None,
    {
        CompleteOptions {
            max_tokens: None,
            reasoning: self.reasoning,
            tool_choice: clone_opt_string(&self.constraint),
            constrained_decoding: false,
            api_key: None,
        }
    }

    /// A specialist has either tools or a constraint, never both, and a
    /// constraint rules out reasoning.
    pub fn validate(&self) -> (r: Result<(), String>)
        ensures
            self.constraint is Some && self.tools@.len() > 0 ==> (r matches Err(e) && e@
                == both_error(self.name@)),
            self.constraint is Some && self.tools@.len() == 0 && self.reasoning != Reasoning::Off
                ==> (r matches Err(e) && e@ == reasoning_error(self.name@)),
            r is Ok <==> (self.constraint is None || (self.tools@.len() == 0 && self.reasoning
                == Reasoning::Off)),
    {
        if self.constraint.is_some() && self.tools.len() != 0 {
            let mut e = owned("specialist '");
            push_str(&mut e, self.name.as_str());
            push_str(&mut e, "' sets both tools and a constraint; use one or the other");
            return Err(e);
        }
        if self.constraint.is_some() && self.reasoning != Reasoning::Off {
            let mut e = owned("specialist '");
            push_str(&mut e, self.name.as_str());
            push_str(
                &mut e,
                "' forces a tool call with reasoning enabled; a forced tool call is incompatible with reasoning, so set --reasoning off",
            );
            return Err(e);
        }
        Ok(())
    }

    /// The tools to expose to the model.
    pub fn tool_names(&self) -> (r: &[String])
        ensures
            r@ == self.spec_tool_names(),
    {
        match &self.constraint {
            Some(c) => core::slice::from_ref(c),
            None => self.tools.as_slice(),
        }
    }
}

/// The registry: providers by name, models by id, specialists by name.
#[derive(Debug, PartialEq, Eq)]
pub struct Registry {
    pub providers: NameMap<ProviderDef>,
    pub models: NameMap<ModelDef>,
    pub specialists: NameMap<Specialist>,
}

impl Default for Registry {
    fn default() -> (r: Registry)
        ensures
            r.providers@.len() == 0,
            r.models@.len() == 0,
            r.specialists@.len() == 0,
    {
        Registry { providers: NameMap::new(), models: NameMap::new(), specialists: NameMap::new() }
    }
}

/// Whether specialist `s` refers to the `target` named `name`.
pub open spec fn refers(s: Specialist, target: EntityKind, name: Seq<char>) -> bool {
    match target {
        EntityKind::Provider => s.provider@ == name,
        EntityKind::Model => s.model@ == name,
        EntityKind::Tool => s.uses_tool(name),
        EntityKind::Specialist => false,
    }
}

pub open spec fn referrer_names(r: Seq<Referrer>) -> Seq<Seq<char>> {
    r.map_values(|x: Referrer| x.name@)
}

/// The names of the specialists among `vals` that refer to `target` `name`,
/// in order.
pub open spec fn referring_names(vals: Seq<Specialist>, target: EntityKind, name: Seq<char>) -> Seq<
    Seq<char>,
>
    decreases vals.len(),
{
    if vals.len() == 0 {
        Seq::empty()
    } else {
        let r = referring_names(vals.drop_last(), target, name);
        if refers(vals.last(), target, name) {
            r.push(vals.last().name@)
        } else {
            r
        }
    }
}

/// The ids of the models among `vals` defined under provider `name`, in order.
pub open spec fn model_ids_under(vals: Seq<ModelDef>, name: Seq<char>) -> Seq<Seq<char>>
    decreases vals.len(),
{
    if vals.len() == 0 {
        Seq::empty()
    } else {
        let r = model_ids_under(vals.drop_last(), name);
        if vals.last().provider@ == name {
            r.push(vals.last().id@)
        } else {
            r
        }
    }
}

/// The names of the registry's specialists referring to `target` `name`.
pub open spec fn specialist_referrers(reg: Registry, target: EntityKind, name: Seq<char>) -> Seq<
    Seq<char>,
> {
    referring_names(reg.specialists.values(), target, name)
}

/// The ids of the models defined under provider `name` (none unless the target
/// is a provider).
pub open spec fn model_referrers(reg: Registry, target: EntityKind, name: Seq<char>) -> Seq<Seq<char>> {
    if target == EntityKind::Provider {
        model_ids_under(reg.models.values(), name)
    } else {
        Seq::empty()
    }
}

/// `r` lists the entities of `reg` that reference `target` `name`: the
/// referring specialists, sorted by name, then (for a provider) the models
/// defined under it, sorted by id.
pub open spec fn referrer_list(reg: Registry, target: EntityKind, name: Seq<char>, r: Seq<Referrer>) -> bool {
    let sp = specialist_referrers(reg, target, name);
    let md = model_referrers(reg, target, name);
    &&& r.len() == sp.len() + md.len()
    &&& forall|i: int| 0 <= i < sp.len() ==> (#[trigger] r[i]).kind == EntityKind::Specialist
    &&& forall|i: int| sp.len() <= i < r.len() ==> (#[trigger] r[i]).kind == EntityKind::Model
    &&& sorted_seqs(referrer_names(r).subrange(0, sp.len() as int))
    &&& sorted_seqs(referrer_names(r).subrange(sp.len() as int, r.len() as int))
    &&& referrer_names(r).subrange(0, sp.len() as int).to_multiset() == sp.to_multiset()
    &&& referrer_names(r).subrange(sp.len() as int, r.len() as int).to_multiset() == md.to_multiset()
}

pub open spec fn unknown_provider(name: Seq<char>) -> Seq<char> {
    "unknown provider: "@ + name
}

pub open spec fn unknown_model(name: Seq<char>) -> Seq<char> {
    "unknown model: "@ + name
}

/// The first of `names` that `defined` lacks.
pub open spec fn first_missing_tool(names: Seq<Seq<char>>, defined: Seq<String>) -> Option<Seq<char>>
    decreases names.len(),
{
    if names.len() == 0 {
        None
    } else if !defines(defined, names[0]) {
        Some(names[0])
    } else {
        first_missing_tool(names.drop_first(), defined)
    }
}

/// The first unsatisfied reference of a specialist: its provider, then its
/// model, then its tools in order, given the tool names `defined`.
pub open spec fn first_missing(reg: Registry, s: Specialist, defined: Seq<String>) -> Option<
    (EntityKind, Seq<char>),
> {
    if !reg.providers.has(s.provider@) {
        Some((EntityKind::Provider, s.provider@))
    } else if !reg.models.has(s.model@) {
        Some((EntityKind::Model, s.model@))
    } else {
        match first_missing_tool(views(s.spec_tool_names()), defined) {
            Some(t) => Some((EntityKind::Tool, t)),
            None => None,
        }
    }
}

pub open spec fn missing_view(r: Option<MissingRef>) -> Option<(EntityKind, Seq<char>)> {
    match r {
        Some(m) => Some((m.kind, m.name@)),
        None => None,
    }
}

/// `defined` holds the name `t`.
pub open spec fn defines(defined: Seq<String>, t: Seq<char>) -> bool {
    exists|i: int| 0 <= i < defined.len() && #[trigger] defined[i]@ == t
}

pub fn contains_name(defined: &Vec<String>, t: &str) -> (r: bool)
    ensures
        r == defines(defined@, t@),
{
    let mut i: usize = 0;
    while i < defined.len()
        invariant
            i <= defined@.len(),
            forall|j: int| 0 <= j < i ==> #[trigger] defined@[j]@ != t@,
        decreases defined.len() - i,
    {
        if str_eq(defined[i].as_str(), t) {
            return true;
        }
        i += 1;
    }
    false
}

/// The position of the tool named `name` among the tool names `names`: the
/// first one so named, or `None` where no tool has that name.
pub fn find_tool(names: &Vec<String>, name: &str) -> (r: Option<usize>)
    ensures
        match r {
            Some(i) => i < names@.len() && names@[i as int]@ == name@ && forall|j: int|
                0 <= j < i ==> #[trigger] names@[j]@ != name@,
            None => !defines(names@, name@),
        },
{
    let mut i: usize = 0;
    while i < names.len()
        invariant
            i <= names@.len(),
            forall|j: int| 0 <= j < i ==> #[trigger] names@[j]@ != name@,
        decreases names.len() - i,
    {
        if str_eq(names[i].as_str(), name) {
            return Some(i);
        }
        i += 1;
    }
    None
}

fn specialist_refers(s: &Specialist, target: EntityKind, name: &str) -> (r: bool)
    ensures
        r == refers(*s, target, name@),
{
    match target {
        EntityKind::Provider => str_eq(s.provider.as_str(), name),
        EntityKind::Model => str_eq(s.model.as_str(), name),
        EntityKind::Tool => {
            let names = s.tool_names();
            let mut i: usize = 0;
            while i < names.len()
                invariant
                    names@ == s.spec_tool_names(),
                    target == EntityKind::Tool,
                    i <= names@.len(),
                    forall|j: int| 0 <= j < i ==> #[trigger] names@[j]@ != name@,
                decreases names.len() - i,
            {
                if str_eq(names[i].as_str(), name) {
                    assert(s.spec_tool_names()[i as int]@ == name@);
                    return true;
                }
                i += 1;
            }
            false
        },
        EntityKind::Specialist => false,
    }
}

/// Sorted referrers of one kind, from the collected names.
fn as_referrers(kind: EntityKind, names: Vec<String>, out: &mut Vec<Referrer>)
    ensures
        final(out)@.len() == old(out)@.len() + names@.len(),
        final(out)@.subrange(0, old(out)@.len() as int) == old(out)@,
        forall|i: int|
            old(out)@.len() <= i < final(out)@.len() ==> (#[trigger] final(out)@[i]).kind == kind,
        sorted_seqs(referrer_names(final(out)@).subrange(old(out)@.len() as int, final(out)@.len() as int)),
        referrer_names(final(out)@).subrange(old(out)@.len() as int, final(out)@.len() as int).to_multiset()
            == views(names@).to_multiset(),
{
    let sorted = sort_strings(names);
    proof {
        lemma_views_multiset(sorted@, names@);
        assert(sorted@.to_multiset().len() == sorted@.len());
        assert(names@.to_multiset().len() == names@.len());
    }
    let ghost start = out@;
    let mut i: usize = 0;
    while i < sorted.len()
        invariant
            i <= sorted@.len(),
            out@.len() == start.len() + i,
            out@.subrange(0, start.len() as int) == start,
            forall|j: int| start.len() <= j < out@.len() ==> (#[trigger] out@[j]).kind == kind,
            referrer_names(out@).subrange(start.len() as int, out@.len() as int) == views(sorted@).subrange(0, i as int),
        decreases sorted.len() - i,
    {
        let ghost prev = out@;
        out.push(Referrer { kind, name: sorted[i].clone() });
        i += 1;
        proof {
            assert(out@.subrange(0, start.len() as int) =~= prev.subrange(0, start.len() as int));
            assert(referrer_names(out@).subrange(start.len() as int, out@.len() as int) =~= views(sorted@).subrange(0, i as int));
        }
    }
    assert(views(sorted@).subrange(0, i as int) =~= views(sorted@));
}

impl Registry {
    /// Resolve a specialist's provider and model into a runtime [`Model`].
    pub fn resolve_model(&self, specialist: &Specialist) -> (r: Result<Model, String>)
        ensures
            self.providers.lookup(specialist.provider@) is None ==> (r matches Err(e) && e@
                == unknown_provider(specialist.provider@)),
            self.providers.lookup(specialist.provider@) is Some && self.models.lookup(
                specialist.model@,
            ) is None ==> (r matches Err(e) && e@ == unknown_model(specialist.model@)),
            self.providers.lookup(specialist.provider@) matches Some(p) ==> (self.models.lookup(
                specialist.model@,
            ) matches Some(m) ==> (r matches Ok(model) && resolves_to(m, p, model))),
    {
        let provider = match self.providers.get(specialist.provider.as_str()) {
            Some(p) => p,
            None => {
                let mut e = owned("unknown provider: ");
                push_str(&mut e, specialist.provider.as_str());
                return Err(e);
            },
        };
        let model = match self.models.get(specialist.model.as_str()) {
            Some(m) => m,
            None => {
                let mut e = owned("unknown model: ");
                push_str(&mut e, specialist.model.as_str());
                return Err(e);
            },
        };
        Ok(model.resolve(provider))
    }

    /// The first reference a model makes that the registry can't satisfy:
    /// only its provider.
    pub fn missing_model_ref(&self, model: &ModelDef) -> (r: Option<MissingRef>)
        ensures
            !self.providers.has(model.provider@) ==> (r matches Some(m) && m.kind
                == EntityKind::Provider && m.name@ == model.provider@),
            self.providers.has(model.provider@) ==> r is None,
    {
        if !self.providers.contains_key(model.provider.as_str()) {
            return Some(MissingRef { kind: EntityKind::Provider, name: model.provider.clone() });
        }
        None
    }

    /// The first reference a specialist makes that can't be satisfied — its
    /// provider, then its model, then each of its tools in order (a forced
    /// tool included) — where `tools` are the names the tools folder holds.
    pub fn missing_specialist_ref(&self, specialist: &Specialist, tools: &Vec<String>) -> (r:
        Option<MissingRef>)
        ensures
            missing_view(r) == first_missing(*self, *specialist, tools@),
    {
        if !self.providers.contains_key(specialist.provider.as_str()) {
            return Some(
                MissingRef { kind: EntityKind::Provider, name: specialist.provider.clone() },
            );
        }
        if !self.models.contains_key(specialist.model.as_str()) {
            return Some(MissingRef { kind: EntityKind::Model, name: specialist.model.clone() });
        }
        let names = specialist.tool_names();
        let ghost all = views(names@);
        let mut i: usize = 0;
        proof {
            assert(all.subrange(0, all.len() as int) =~= all);
        }
        while i < names.len()
            invariant
                names@ == specialist.spec_tool_names(),
                self.providers.has(specialist.provider@),
                self.models.has(specialist.model@),
                all == views(names@),
                i <= names@.len(),
                first_missing_tool(all.subrange(i as int, all.len() as int), tools@)
                    == first_missing_tool(all, tools@),
            decreases names.len() - i,
        {
            proof {
                assert(all.subrange(i as int, all.len() as int).drop_first() =~= all.subrange(
                    i + 1,
                    all.len() as int,
                ));
                assert(all.subrange(i as int, all.len() as int)[0] == names@[i as int]@);
            }
            if !contains_name(tools, names[i].as_str()) {
                return Some(MissingRef { kind: EntityKind::Tool, name: names[i].clone() });
            }
            i += 1;
        }
        None
    }

    /// The names of the specialists that refer to `target` `name`, in entry
    /// order.
    fn referring_specialists(&self, target: EntityKind, name: &str) -> (r: Vec<String>)
        ensures
            views(r@) == specialist_referrers(*self, target, name@),
    {
        let mut out: Vec<String> = Vec::new();
        let mut i: usize = 0;
        let n = self.specialists.len();
        while i < n
            invariant
                n == self.specialists@.len(),
                i <= n,
                views(out@) == referring_names(self.specialists.values().subrange(0, i as int), target, name@),
            decreases n - i,
        {
            let s = self.specialists.value_at(i);
            let ghost vals = self.specialists.values();
            proof {
                assert(vals.subrange(0, i + 1).drop_last() =~= vals.subrange(0, i as int));
                assert(vals.subrange(0, i + 1).last() == *s);

            }
            let ghost prev = out@;
            if specialist_refers(s, target, name) {
                out.push(s.name.clone());
                assert(views(out@) =~= views(prev).push(s.name@));
            }
            i += 1;
        }
        assert(self.specialists.values().subrange(0, n as int) =~= self.specialists.values());
        out
    }

    /// The ids of the models defined under provider `name`, in entry order.
    pub(crate) fn models_under(&self, name: &str) -> (r: Vec<String>)
        ensures
            views(r@) == model_referrers(*self, EntityKind::Provider, name@),
    {
        let mut out: Vec<String> = Vec::new();
        let mut i: usize = 0;
        let n = self.models.len();
        while i < n
            invariant
                n == self.models@.len(),
                i <= n,
                views(out@) == model_ids_under(self.models.values().subrange(0, i as int), name@),
            decreases n - i,
        {
            let m = self.models.value_at(i);
            let ghost vals = self.models.values();
            proof {
                assert(vals.subrange(0, i + 1).drop_last() =~= vals.subrange(0, i as int));
                assert(vals.subrange(0, i + 1).last() == *m);

            }
            let ghost prev = out@;
            if str_eq(m.provider.as_str(), name) {
                out.push(m.id.clone());
                assert(views(out@) =~= views(prev).push(m.id@));
            }
            i += 1;
        }
        assert(self.models.values().subrange(0, n as int) =~= self.models.values());
        out
    }

    /// Replaces provider `old_key` by `def`, keyed by its own name (an edit
    /// may have renamed it).
    pub fn rekey_provider(&mut self, old_key: &str, def: ProviderDef)
        ensures
            final(self).providers@ == inserted_in(removed_in(old(self).providers@, old_key@), def.name@, def),
            final(self).models == old(self).models,
            final(self).specialists == old(self).specialists,
    {
        self.providers.remove(old_key);
        let key = def.name.clone();
        self.providers.insert(key, def);
    }

    /// Replaces model `old_key` by `def`, keyed by its own id.
    pub fn rekey_model(&mut self, old_key: &str, def: ModelDef)
        ensures
            final(self).models@ == inserted_in(removed_in(old(self).models@, old_key@), def.id@, def),
            final(self).providers == old(self).providers,
            final(self).specialists == old(self).specialists,
    {
        self.models.remove(old_key);
        let key = def.id.clone();
        self.models.insert(key, def);
    }

    /// Replaces specialist `old_key` by `def`, keyed by its own name, when
    /// `def` is valid; an invalid one is refused and nothing changes.
    pub fn rekey_specialist(&mut self, old_key: &str, def: Specialist) -> (r: Result<(), String>)
        ensures
            r is Ok <==> (def.constraint is None || (def.tools@.len() == 0 && def.reasoning
                == Reasoning::Off)),
            r is Ok ==> final(self).specialists@ == inserted_in(
                removed_in(old(self).specialists@, old_key@),
                def.name@,
                def,
            ),
            r is Err ==> *final(self) == *old(self),
            r matches Err(e) ==> (def.constraint is Some && def.tools@.len() > 0 ==> e@ == both_error(def.name@)),
            r matches Err(e) ==> (def.constraint is Some && def.tools@.len() == 0 ==> e@ == reasoning_error(def.name@)),
            final(self).providers == old(self).providers,
            final(self).models == old(self).models,
    {
        match def.validate() {
            Ok(()) => {},
            Err(e) => {
                return Err(e);
            },
        }
        self.specialists.remove(old_key);
        let key = def.name.clone();
        self.specialists.insert(key, def);
        Ok(())
    }

    /// Entities that reference `target` `name`: the specialists pointing at
    /// it and, for a provider, the models defined under it — specialists
    /// first, each group sorted by name.
    pub fn referrers(&self, target: EntityKind, name: &str) -> (r: Vec<Referrer>)
        ensures
            referrer_list(*self, target, name@, r@),
    {
        let mut out: Vec<Referrer> = Vec::new();
        if target == EntityKind::Specialist {
            assert(specialist_referrers(*self, target, name@) =~= Seq::empty()) by {
                lemma_no_specialist_referrers(self.specialists.values(), name@);
            }
            assert(referrer_names(out@).subrange(0, 0) =~= Seq::empty());
            return out;
        }
        let specs = self.referring_specialists(target, name);
        let ghost sp = views(specs@);
        as_referrers(EntityKind::Specialist, specs, &mut out);
        let ghost first = out@;
        proof {
            assert(out@.subrange(0, 0) =~= Seq::<Referrer>::empty());
            assert(referrer_names(first).subrange(0, first.len() as int) =~= referrer_names(first).subrange(0, sp.len() as int));
        }
        if target == EntityKind::Provider {
            let models = self.models_under(name);
            as_referrers(EntityKind::Model, models, &mut out);
            proof {
                assert(referrer_names(out@).subrange(0, first.len() as int) =~= referrer_names(
                    out@.subrange(0, first.len() as int),
                ));
                assert(referrer_names(first) =~= referrer_names(first).subrange(0, first.len() as int));
                assert forall|i: int| 0 <= i < sp.len() implies (#[trigger] out@[i]).kind == EntityKind::Specialist by {
                    assert(out@.subrange(0, first.len() as int)[i] == first[i]);
                }
            }
        } else {
            proof {
                assert(referrer_names(out@).subrange(first.len() as int, out@.len() as int) =~= Seq::empty());
                assert(model_referrers(*self, target, name@) =~= Seq::empty());
                assert(referrer_names(first) =~= referrer_names(first).subrange(0, first.len() as int));
            }
        }
        out
    }
}

proof fn lemma_no_specialist_referrers(vals: Seq<Specialist>, name: Seq<char>)
    ensures
        referring_names(vals, EntityKind::Specialist, name) =~= Seq::empty(),
    decreases vals.len(),
{
    if vals.len() > 0 {
        lemma_no_specialist_referrers(vals.drop_last(), name);
    }
}

} // verus!
