//! The decisions behind the command line's `define`, `delete` and `run`
//! commands: parsing flag values, checking that a definition's references
//! resolve (with the message that says how to fix them), and rendering what a
//! delete would orphan.

use vstd::prelude::*;

use crate::ai::Reasoning;
use crate::display::{add_line, add_lit, available_names, defined_tools, listing, tools_listing};
use crate::domain::{
    first_missing, missing_view, opt_string_view, referrer_list, EntityKind, ModelDef, ProviderDef,
    Referrer, Registry, Specialist,
};
use crate::names::{law_insert_lookup, lookup_in, NameMap};
use crate::text::{
    has_substring, join, join_seq, lemma_join_has_part, lemma_substring_of_concat, lemma_substring_trans, kept_pieces, owned, push_str, split_once, split_once_seq, split_seq,
    split_trimmed, str_eq, trim, trim_seq, views,
};

verus! {

// ---------------------------------------------------------------------------
// Flag values
// ---------------------------------------------------------------------------

/// Splits a comma-separated list flag into trimmed, non-empty names.
pub fn parse_list(raw: Option<String>) -> (r: Vec<String>)
    ensures
        raw is None ==> r@.len() == 0,
        raw matches Some(s) ==> views(r@) == kept_pieces(split_seq(s@, ',')),
{
    match raw {
        Some(s) => split_trimmed(s.as_str(), ','),
        None => Vec::new(),
    }
}

/// The answers that count as an explicit yes.
pub open spec fn is_yes(answer: Seq<char>) -> bool {
    let t = trim_seq(answer);
    t == "y"@ || t == "Y"@ || t == "yes"@ || t == "Yes"@
}

/// Whether a prompt answer is an explicit yes. Anything else — including the
/// empty string a closed input gives — is a no.
pub fn affirmative(answer: &str) -> (r: bool)
    ensures
        r == is_yes(answer@),
{
    let t = trim(answer);
    str_eq(t.as_str(), "y") || str_eq(t.as_str(), "Y") || str_eq(t.as_str(), "yes") || str_eq(
        t.as_str(),
        "Yes",
    )
}

/// Parses a `--reasoning` flag value.
pub fn parse_reasoning(raw: &str) -> (r: Result<Reasoning, String>)
    ensures
        r matches Ok(level) ==> Reasoning::named(raw@) == Some(level),
        r is Err <==> Reasoning::named(raw@) is None,
        r matches Err(e) ==> e@ == crate::ai::reasoning_error_message(raw@),
{
    Reasoning::parse(raw)
}

pub open spec fn kv_error(arg: Seq<char>) -> Seq<char> {
    "invalid --arg '"@ + arg + "': expected KEY=VALUE"@
}

/// The value that the last of `args` naming `k` gives it, when one does.
pub open spec fn kv_last(args: Seq<Seq<char>>, k: Seq<char>) -> Option<Seq<char>>
    decreases args.len(),
{
    if args.len() == 0 {
        None
    } else {
        match split_once_seq(args.last(), '=') {
            Some(p) => if p.0 == k {
                Some(p.1)
            } else {
                kv_last(args.drop_last(), k)
            },
            None => kv_last(args.drop_last(), k),
        }
    }
}

/// Index of the first of `args` that has no `=`.
pub open spec fn first_without_eq(args: Seq<Seq<char>>, i: int) -> bool {
    &&& 0 <= i < args.len()
    &&& split_once_seq(args[i], '=') is None
    &&& forall|j: int| 0 <= j < i ==> split_once_seq(#[trigger] args[j], '=') is Some
}

/// Parses repeated `KEY=VALUE` flags into a map (a later flag for a key wins),
/// erroring on the first token without `=`.
pub fn parse_kv_args(args: &Vec<String>) -> (r: Result<NameMap<String>, String>)
    ensures
        r is Ok <==> forall|j: int| 0 <= j < args@.len() ==> split_once_seq(#[trigger] args@[j]@, '=') is Some,
        r matches Err(e) ==> exists|i: int| first_without_eq(views(args@), i) && e@ == kv_error(args@[i]@),
        r matches Ok(m) ==> forall|k: Seq<char>| #[trigger] opt_string_view(m.lookup(k)) == kv_last(views(args@), k),
{
    let mut map: NameMap<String> = NameMap::new();
    let mut i: usize = 0;
    while i < args.len()
        invariant
            i <= args@.len(),
            forall|j: int| 0 <= j < i ==> split_once_seq(#[trigger] args@[j]@, '=') is Some,
            forall|k: Seq<char>| #[trigger] opt_string_view(map.lookup(k)) == kv_last(views(args@.subrange(0, i as int)), k),
        decreases args.len() - i,
    {
        let ghost prefix = views(args@.subrange(0, i + 1));
        assert(prefix.drop_last() =~= views(args@.subrange(0, i as int)));
        assert(prefix.last() == args@[i as int]@);
        match split_once(args[i].as_str(), '=') {
            Some((key, value)) => {
                let ghost before = map;
                let ghost kv = key@;
                let ghost vv = value;
                map.insert(key, value);
                proof {
                    assert forall|k: Seq<char>| #[trigger] opt_string_view(map.lookup(k)) == kv_last(prefix, k) by {
                        law_insert_lookup(before, map@, kv, vv, k);
                    }
                }
            },
            None => {
                let mut e = owned("invalid --arg '");
                push_str(&mut e, args[i].as_str());
                push_str(&mut e, "': expected KEY=VALUE");
                assert(first_without_eq(views(args@), i as int));
                return Err(e);
            },
        }
        i += 1;
    }
    assert(args@.subrange(0, args@.len() as int) =~= args@);
    Ok(map)
}

// ---------------------------------------------------------------------------
// Reference checks
// ---------------------------------------------------------------------------

pub open spec fn define_provider_hint(name: Seq<char>) -> Seq<char> {
    "      spawningpool define provider "@ + name
        + " --api <anthropic-messages|openai-completions> --base-url <url>"@
}

/// The lines rejecting a model whose provider isn't defined.
pub open spec fn model_ref_lines(model: ModelDef, available: Seq<char>) -> Seq<Seq<char>> {
    seq![
        "model '"@ + model.id@ + "' references provider '"@ + model.provider@
            + "', which isn't defined."@,
        ""@,
        "  Defined providers: "@ + available,
        ""@,
        "  Define it first:"@,
        define_provider_hint(model.provider@),
    ]
}

/// Rejects a model that names a provider the registry doesn't hold, naming the
/// provider, what's available, and how to define it.
pub fn check_model_refs(registry: &Registry, model: &ModelDef) -> (r: Result<(), String>)
    ensures
        r is Ok <==> registry.providers.has(model.provider@),
        r matches Err(e) ==> exists|avail: Seq<char>|
            listing(registry.providers.names(), avail) && #[trigger] join_seq(
                model_ref_lines(*model, avail),
                "\n"@,
            ) == e@,
{
    if registry.missing_model_ref(model).is_some() {
        let avail = available_names(&registry.providers);
        let mut l: Vec<String> = Vec::new();
        let mut first = owned("model '");
        push_str(&mut first, model.id.as_str());
        push_str(&mut first, "' references provider '");
        push_str(&mut first, model.provider.as_str());
        push_str(&mut first, "', which isn't defined.");
        add_line(&mut l, first);
        add_lit(&mut l, "");
        let mut defined = owned("  Defined providers: ");
        push_str(&mut defined, avail.as_str());
        add_line(&mut l, defined);
        add_lit(&mut l, "");
        add_lit(&mut l, "  Define it first:");
        let mut hint = owned("      spawningpool define provider ");
        push_str(&mut hint, model.provider.as_str());
        push_str(&mut hint, " --api <anthropic-messages|openai-completions> --base-url <url>");
        add_line(&mut l, hint);
        assert(views(l@) =~= model_ref_lines(*model, avail@));
        return Err(join(&l, "\n"));
    }
    Ok(())
}

/// A model refused for its provider is told which provider is missing and
/// how to define it.
pub proof fn law_model_refusal_names_the_provider(registry: Registry, model: ModelDef, e: Seq<char>)
    requires
        exists|avail: Seq<char>|
            listing(registry.providers.names(), avail) && #[trigger] join_seq(
                model_ref_lines(model, avail),
                "\n"@,
            ) == e,
    ensures
        has_substring(e, names_reference(EntityKind::Provider, model.provider@)),
        has_substring(e, define_command(EntityKind::Provider, model.provider@)),
{
    let avail = choose|avail: Seq<char>|
        listing(registry.providers.names(), avail) && #[trigger] join_seq(
            model_ref_lines(model, avail),
            "\n"@,
        ) == e;
    let lines = model_ref_lines(model, avail);
    let kind = EntityKind::Provider;
    lemma_first_line_names("model '"@ + model.id@, kind, model.provider@);
    lemma_message_holds(lines, 0, names_reference(kind, model.provider@));
    lemma_hint_line_names(kind, model.provider@, " --api <anthropic-messages|openai-completions> --base-url <url>"@);
    lemma_message_holds(lines, 5, define_command(kind, model.provider@));
}

/// The lines rejecting a specialist whose provider `missing` isn't defined.
pub open spec fn missing_provider_lines(specialist: Specialist, missing: Seq<char>, available: Seq<char>) -> Seq<Seq<char>> {
    seq![
        "specialist '"@ + specialist.name@ + "' references provider '"@ + missing
            + "', which isn't defined."@,
        ""@,
        "  Defined providers: "@ + available,
        ""@,
        "  Define it first:"@,
        define_provider_hint(missing),
        ""@,
        "  ...or point the specialist at one that exists with --provider."@,
    ]
}

/// The lines rejecting a specialist whose model `missing` isn't defined.
pub open spec fn missing_model_lines(specialist: Specialist, missing: Seq<char>, available: Seq<char>) -> Seq<Seq<char>> {
    seq![
        "specialist '"@ + specialist.name@ + "' references model '"@ + missing
            + "', which isn't defined."@,
        ""@,
        "  Defined models: "@ + available,
        ""@,
        "  Define it first:"@,
        "      spawningpool define model "@ + missing + " --provider "@ + specialist.provider@
            + " --max-tokens <n> --context-window <n>"@,
        ""@,
        "  ...or point the specialist at one that exists with --model."@,
    ]
}

/// The lines rejecting a specialist whose tool `missing` has no script.
pub open spec fn missing_tool_lines(specialist: Specialist, missing: Seq<char>, tools: Seq<String>) -> Seq<Seq<char>> {
    seq![
        "specialist '"@ + specialist.name@ + "' references tool '"@ + missing
            + "', which isn't defined."@,
        ""@,
        "  Defined tools: "@ + tools_listing(tools),
        ""@,
        "  Back it with a script:"@,
        "      spawningpool define tool "@ + missing + " --script <path>"@,
    ]
}

/// `e` is the message rejecting `specialist` for the first reference that
/// `first_missing` finds.
pub open spec fn specialist_ref_error(registry: Registry, specialist: Specialist, tools: Seq<String>, e: Seq<char>) -> bool {
    let found = first_missing(registry, specialist, tools);
    &&& found is Some
    &&& found.unwrap().0 == EntityKind::Provider ==> exists|avail: Seq<char>|
        listing(registry.providers.names(), avail) && #[trigger] join_seq(
            missing_provider_lines(specialist, found.unwrap().1, avail),
            "\n"@,
        ) == e
    &&& found.unwrap().0 == EntityKind::Model ==> exists|avail: Seq<char>|
        listing(registry.models.names(), avail) && #[trigger] join_seq(
            missing_model_lines(specialist, found.unwrap().1, avail),
            "\n"@,
        ) == e
    &&& found.unwrap().0 == EntityKind::Tool ==> e == join_seq(
        missing_tool_lines(specialist, found.unwrap().1, tools),
        "\n"@,
    )
}

/// The phrase of a refusal that names what is missing:
/// `references <kind> '<name>'`.
pub open spec fn names_reference(kind: EntityKind, name: Seq<char>) -> Seq<char> {
    "references "@ + kind.noun() + " '"@ + name + "'"@
}

/// The command a refusal shows for defining what is missing:
/// `spawningpool define <kind> <name>`.
pub open spec fn define_command(kind: EntityKind, name: Seq<char>) -> Seq<char> {
    "spawningpool define "@ + kind.noun() + " "@ + name
}

/// How a refusal's first line introduces the missing entity of `kind`.
pub open spec fn reference_text(kind: EntityKind) -> Seq<char> {
    match kind {
        EntityKind::Provider => "' references provider '"@,
        EntityKind::Model => "' references model '"@,
        EntityKind::Tool => "' references tool '"@,
        EntityKind::Specialist => "' references specialist '"@,
    }
}

/// How a refusal's hint line starts the command defining an entity of `kind`.
pub open spec fn define_text(kind: EntityKind) -> Seq<char> {
    match kind {
        EntityKind::Provider => "      spawningpool define provider "@,
        EntityKind::Model => "      spawningpool define model "@,
        EntityKind::Tool => "      spawningpool define tool "@,
        EntityKind::Specialist => "      spawningpool define specialist "@,
    }
}

proof fn lemma_first_line_names(head: Seq<char>, kind: EntityKind, name: Seq<char>)
    ensures
        has_substring(
            head + reference_text(kind) + name + "', which isn't defined."@,
            names_reference(kind, name),
        ),
{
    reveal_strlit("' references provider '");
    reveal_strlit("' references model '");
    reveal_strlit("' references tool '");
    reveal_strlit("' references specialist '");
    reveal_strlit("' ");
    reveal_strlit("references ");
    reveal_strlit(" '");
    reveal_strlit("provider");
    reveal_strlit("model");
    reveal_strlit("tool");
    reveal_strlit("specialist");
    reveal_strlit("'");
    reveal_strlit("', which isn't defined.");
    reveal_strlit(", which isn't defined.");
    assert(reference_text(kind) =~= "' "@ + ("references "@ + kind.noun() + " '"@));
    assert("', which isn't defined."@ =~= "'"@ + ", which isn't defined."@);
    let line = head + reference_text(kind) + name + "', which isn't defined."@;
    assert(line =~= (head + "' "@) + names_reference(kind, name) + ", which isn't defined."@);
    lemma_substring_of_concat(head + "' "@, names_reference(kind, name), ", which isn't defined."@);
}

proof fn lemma_hint_line_names(kind: EntityKind, name: Seq<char>, rest: Seq<char>)
    ensures
        has_substring(define_text(kind) + name + rest, define_command(kind, name)),
{
    reveal_strlit("      spawningpool define provider ");
    reveal_strlit("      spawningpool define model ");
    reveal_strlit("      spawningpool define tool ");
    reveal_strlit("      spawningpool define specialist ");
    reveal_strlit("      ");
    reveal_strlit("spawningpool define ");
    reveal_strlit(" ");
    reveal_strlit("provider");
    reveal_strlit("model");
    reveal_strlit("tool");
    reveal_strlit("specialist");
    assert(define_text(kind) =~= "      "@ + ("spawningpool define "@ + kind.noun() + " "@));
    assert(define_text(kind) + name + rest =~= "      "@ + define_command(kind, name) + rest);
    lemma_substring_of_concat("      "@, define_command(kind, name), rest);
}

/// A message made of `lines` holds whatever line `k` holds.
proof fn lemma_message_holds(lines: Seq<Seq<char>>, k: int, needle: Seq<char>)
    requires
        0 <= k < lines.len(),
        has_substring(lines[k], needle),
    ensures
        has_substring(join_seq(lines, "\n"@), needle),
{
    lemma_join_has_part(lines, "\n"@, k);
    lemma_substring_trans(join_seq(lines, "\n"@), lines[k], needle);
}

/// A specialist refused for a missing reference is told what is missing and
/// how to define it: the message says `references <kind> '<name>'` and shows
/// `spawningpool define <kind> <name>` for the first missing provider, model or
/// tool.
pub proof fn law_refusal_names_the_missing_reference(
    registry: Registry,
    specialist: Specialist,
    tools: Seq<String>,
    e: Seq<char>,
    kind: EntityKind,
    name: Seq<char>,
)
    requires
        first_missing(registry, specialist, tools) == Some((kind, name)),
        specialist_ref_error(registry, specialist, tools, e),
    ensures
        has_substring(e, names_reference(kind, name)),
        has_substring(e, define_command(kind, name)),
{
    let head = "specialist '"@ + specialist.name@;
    match kind {
        EntityKind::Provider => {
            let avail = choose|avail: Seq<char>|
                listing(registry.providers.names(), avail) && #[trigger] join_seq(
                    missing_provider_lines(specialist, name, avail),
                    "\n"@,
                ) == e;
            let lines = missing_provider_lines(specialist, name, avail);
            lemma_first_line_names(head, kind, name);
            lemma_message_holds(lines, 0, names_reference(kind, name));
            lemma_hint_line_names(kind, name, " --api <anthropic-messages|openai-completions> --base-url <url>"@);
            lemma_message_holds(lines, 5, define_command(kind, name));
        },
        EntityKind::Model => {
            let avail = choose|avail: Seq<char>|
                listing(registry.models.names(), avail) && #[trigger] join_seq(
                    missing_model_lines(specialist, name, avail),
                    "\n"@,
                ) == e;
            let lines = missing_model_lines(specialist, name, avail);
            lemma_first_line_names(head, kind, name);
            lemma_message_holds(lines, 0, names_reference(kind, name));
            let rest = " --provider "@ + specialist.provider@ + " --max-tokens <n> --context-window <n>"@;
            lemma_hint_line_names(kind, name, rest);
            assert(lines[5] =~= define_text(kind) + name + rest);
            lemma_message_holds(lines, 5, define_command(kind, name));
        },
        EntityKind::Tool => {
            let lines = missing_tool_lines(specialist, name, tools);
            lemma_first_line_names(head, kind, name);
            lemma_message_holds(lines, 0, names_reference(kind, name));
            lemma_hint_line_names(kind, name, " --script <path>"@);
            lemma_message_holds(lines, 5, define_command(kind, name));
        },
        EntityKind::Specialist => {},
    }
}

/// Rejects a specialist that references a provider, model, or tool that isn't
/// defined (`tools` are the tool names the tools folder holds, in its order).
/// The error names the first missing entity — provider, then model, then each
/// tool in order — lists what is defined, and shows the command that would
/// create it.
pub fn check_specialist_refs(registry: &Registry, specialist: &Specialist, tools: &Vec<String>) -> (r:
    Result<(), String>)
    ensures
        r is Ok <==> first_missing(*registry, *specialist, tools@) is None,
        r matches Err(e) ==> specialist_ref_error(*registry, *specialist, tools@, e@),
{
    let missing = match registry.missing_specialist_ref(specialist, tools) {
        Some(m) => m,
        None => {
            return Ok(());
        },
    };
    let ghost found = first_missing(*registry, *specialist, tools@);
    assert(found == Some((missing.kind, missing.name@)));
    let mut l: Vec<String> = Vec::new();
    let mut first = owned("specialist '");
    push_str(&mut first, specialist.name.as_str());
    match missing.kind {
        EntityKind::Provider => {
            let avail = available_names(&registry.providers);
            push_str(&mut first, "' references provider '");
            push_str(&mut first, missing.name.as_str());
            push_str(&mut first, "', which isn't defined.");
            add_line(&mut l, first);
            add_lit(&mut l, "");
            let mut defined = owned("  Defined providers: ");
            push_str(&mut defined, avail.as_str());
            add_line(&mut l, defined);
            add_lit(&mut l, "");
            add_lit(&mut l, "  Define it first:");
            let mut hint = owned("      spawningpool define provider ");
            push_str(&mut hint, missing.name.as_str());
            push_str(&mut hint, " --api <anthropic-messages|openai-completions> --base-url <url>");
            add_line(&mut l, hint);
            add_lit(&mut l, "");
            add_lit(&mut l, "  ...or point the specialist at one that exists with --provider.");
            assert(views(l@) =~= missing_provider_lines(*specialist, missing.name@, avail@));
            let e = join(&l, "\n");
            let ghost name = found.unwrap().1;
            assert(name == missing.name@);
            assert(listing(registry.providers.names(), avail@) && join_seq(
                missing_provider_lines(*specialist, name, avail@),
                "\n"@,
            ) == e@);
            assert(specialist_ref_error(*registry, *specialist, tools@, e@));
            Err(e)
        },
        EntityKind::Model => {
            let avail = available_names(&registry.models);
            push_str(&mut first, "' references model '");
            push_str(&mut first, missing.name.as_str());
            push_str(&mut first, "', which isn't defined.");
            add_line(&mut l, first);
            add_lit(&mut l, "");
            let mut defined = owned("  Defined models: ");
            push_str(&mut defined, avail.as_str());
            add_line(&mut l, defined);
            add_lit(&mut l, "");
            add_lit(&mut l, "  Define it first:");
            let mut hint = owned("      spawningpool define model ");
            push_str(&mut hint, missing.name.as_str());
            push_str(&mut hint, " --provider ");
            push_str(&mut hint, specialist.provider.as_str());
            push_str(&mut hint, " --max-tokens <n> --context-window <n>");
            add_line(&mut l, hint);
            add_lit(&mut l, "");
            add_lit(&mut l, "  ...or point the specialist at one that exists with --model.");
            assert(views(l@) =~= missing_model_lines(*specialist, missing.name@, avail@));
            let e = join(&l, "\n");
            let ghost name = found.unwrap().1;
            assert(name == missing.name@);
            assert(listing(registry.models.names(), avail@) && join_seq(
                missing_model_lines(*specialist, name, avail@),
                "\n"@,
            ) == e@);
            assert(specialist_ref_error(*registry, *specialist, tools@, e@));
            Err(e)
        },
        EntityKind::Tool => {
            let listed = defined_tools(tools);
            push_str(&mut first, "' references tool '");
            push_str(&mut first, missing.name.as_str());
            push_str(&mut first, "', which isn't defined.");
            add_line(&mut l, first);
            add_lit(&mut l, "");
            let mut defined = owned("  Defined tools: ");
            push_str(&mut defined, listed.as_str());
            add_line(&mut l, defined);
            add_lit(&mut l, "");
            add_lit(&mut l, "  Back it with a script:");
            let mut hint = owned("      spawningpool define tool ");
            push_str(&mut hint, missing.name.as_str());
            push_str(&mut hint, " --script <path>");
            add_line(&mut l, hint);
            assert(views(l@) =~= missing_tool_lines(*specialist, missing.name@, tools@));
            let e = join(&l, "\n");
            assert(specialist_ref_error(*registry, *specialist, tools@, e@));
            Err(e)
        },
        EntityKind::Specialist => {
            // `first_missing` never names a specialist.
            assert(false);
            Err(first)
        },
    }
}

// ---------------------------------------------------------------------------
// What a delete orphans
// ---------------------------------------------------------------------------

/// `kind 'name'`, the way an orphan warning names a referrer.
pub open spec fn referrer_line(r: Referrer) -> Seq<char> {
    r.kind.noun() + " '"@ + r.name@ + "'"@
}

pub open spec fn referrer_lines(rs: Seq<Referrer>) -> Seq<Seq<char>> {
    rs.map_values(|r: Referrer| referrer_line(r))
}

/// Renders referrers as `kind 'name'` lines for orphan warnings.
pub fn format_referrers(referrers: Vec<Referrer>) -> (r: Vec<String>)
    ensures
        views(r@) == referrer_lines(referrers@),
{
    let mut out: Vec<String> = Vec::new();
    let mut i: usize = 0;
    while i < referrers.len()
        invariant
            i <= referrers@.len(),
            views(out@) == referrer_lines(referrers@.subrange(0, i as int)),
        decreases referrers.len() - i,
    {
        let r = &referrers[i];
        let mut line = r.kind.to_string();
        push_str(&mut line, " '");
        push_str(&mut line, r.name.as_str());
        push_str(&mut line, "'");
        let ghost before = out@;
        out.push(line);
        assert(views(out@) =~= views(before).push(referrer_line(referrers@[i as int])));
        assert(referrer_lines(referrers@.subrange(0, i + 1)) =~= referrer_lines(
            referrers@.subrange(0, i as int),
        ).push(referrer_line(referrers@[i as int])));
        i += 1;
    }
    assert(referrers@.subrange(0, referrers@.len() as int) =~= referrers@);
    out
}

/// What deleting provider `name` would orphan: the specialists on it, then the
/// models defined under it.
pub fn referrers_of_provider(registry: &Registry, name: &str) -> (r: Vec<String>)
    ensures
        exists|rs: Seq<Referrer>|
            referrer_list(*registry, EntityKind::Provider, name@, rs) && views(r@)
                == #[trigger] referrer_lines(rs),
{
    let rs = registry.referrers(EntityKind::Provider, name);
    let ghost g = rs@;
    let r = format_referrers(rs);
    assert(referrer_list(*registry, EntityKind::Provider, name@, g) && views(r@) == referrer_lines(g));
    r
}

/// What deleting model `name` would orphan: the specialists using it.
pub fn referrers_of_model(registry: &Registry, name: &str) -> (r: Vec<String>)
    ensures
        exists|rs: Seq<Referrer>|
            referrer_list(*registry, EntityKind::Model, name@, rs) && views(r@)
                == #[trigger] referrer_lines(rs),
{
    let rs = registry.referrers(EntityKind::Model, name);
    let ghost g = rs@;
    let r = format_referrers(rs);
    assert(referrer_list(*registry, EntityKind::Model, name@, g) && views(r@) == referrer_lines(g));
    r
}

/// What deleting tool `name` would orphan: the specialists listing it.
pub fn referrers_of_tool(registry: &Registry, name: &str) -> (r: Vec<String>)
    ensures
        exists|rs: Seq<Referrer>|
            referrer_list(*registry, EntityKind::Tool, name@, rs) && views(r@)
                == #[trigger] referrer_lines(rs),
{
    let rs = registry.referrers(EntityKind::Tool, name);
    let ghost g = rs@;
    let r = format_referrers(rs);
    assert(referrer_list(*registry, EntityKind::Tool, name@, g) && views(r@) == referrer_lines(g));
    r
}

// ---------------------------------------------------------------------------
// Tool names
// ---------------------------------------------------------------------------

pub open spec fn tool_name_char(c: char) -> bool {
    ('a' <= c && c <= 'z') || ('A' <= c && c <= 'Z') || ('0' <= c && c <= '9') || c == '_' || c
        == '-'
}

/// A tool name: 1 to 64 ASCII letters, digits, `_` or `-`.
pub open spec fn valid_tool_name(name: Seq<char>) -> bool {
    1 <= name.len() <= 64 && forall|i: int| 0 <= i < name.len() ==> tool_name_char(#[trigger] name[i])
}

/// Whether `name` can name a tool: letters, digits, `_` or `-`, at most 64 of
/// them.
pub fn is_valid_tool_name(name: &str) -> (r: bool)
    ensures
        r == valid_tool_name(name@),
{
    let n = name.unicode_len();
    if n == 0 || n > 64 {
        return false;
    }
    let mut i: usize = 0;
    while i < n
        invariant
            i <= n,
            n == name@.len(),
            forall|j: int| 0 <= j < i ==> tool_name_char(#[trigger] name@[j]),
        decreases n - i,
    {
        let c = name.get_char(i);
        if !(('a' <= c && c <= 'z') || ('A' <= c && c <= 'Z') || ('0' <= c && c <= '9') || c == '_'
            || c == '-') {
            return false;
        }
        i += 1;
    }
    true
}

pub open spec fn invalid_tool_name_message(name: Seq<char>) -> Seq<char> {
    "'"@ + name + "' isn't a valid tool name; use letters, digits, '_' or '-' (max 64 chars)."@
}

/// The refusal `define tool` gives a name that can't name a tool.
pub fn check_tool_name(name: &str) -> (r: Result<(), String>)
    ensures
        r is Ok <==> valid_tool_name(name@),
        r matches Err(e) ==> e@ == invalid_tool_name_message(name@),
{
    if is_valid_tool_name(name) {
        Ok(())
    } else {
        let mut e = owned("'");
        push_str(&mut e, name);
        push_str(&mut e, "' isn't a valid tool name; use letters, digits, '_' or '-' (max 64 chars).");
        Err(e)
    }
}

// ---------------------------------------------------------------------------
// Defining and deleting
// ---------------------------------------------------------------------------

/// Defines a provider from its flags, the protocol given by name, storing it
/// under its name (replacing any provider of that name). An unknown protocol
/// is refused and the registry left as it was. On success, what was defined
/// (`provider <name>`).
pub fn define_provider(
    registry: &mut Registry,
    name: String,
    api: &str,
    base_url: String,
    api_key_env: Option<String>,
    constrained_decoding: bool,
) -> (r: Result<String, String>)
    ensures
        match crate::ai::api_named(api@) {
            None => {
                &&& r matches Err(e) && e@ == crate::ai::api_error_message(api@)
                &&& *final(registry) == *old(registry)
            },
            Some(a) => {
                &&& r matches Ok(what) && what@ == "provider "@ + name@
                &&& final(registry).providers@ == old(registry).providers.inserted(
                    name@,
                    ProviderDef { name, api: a, base_url, api_key_env, constrained_decoding },
                )
                &&& final(registry).models == old(registry).models
                &&& final(registry).specialists == old(registry).specialists
            },
        },
{
    let api = match crate::ai::Api::parse(api) {
        Ok(a) => a,
        Err(e) => {
            return Err(e);
        },
    };
    let mut what = owned("provider ");
    push_str(&mut what, name.as_str());
    let def = ProviderDef { name: name.clone(), api, base_url, api_key_env, constrained_decoding };
    registry.providers.insert(name, def);
    Ok(what)
}

/// The model the `define model` flags describe: its display name is its id
/// unless one is given.
pub open spec fn model_of_flags(
    id: String,
    provider: String,
    name: Option<String>,
    max_tokens: u32,
    context_window: u32,
) -> ModelDef {
    ModelDef {
        id,
        name: match name {
            Some(n) => n,
            None => id,
        },
        provider,
        max_tokens,
        context_window,
    }
}

/// Defines a model from its flags (its display name defaulting to its id),
/// stored under its id. A model naming an undefined provider is refused, with
/// the message that says how to fix it, and the registry left as it was. On
/// success, what was defined (`model <id>`).
pub fn define_model(
    registry: &mut Registry,
    id: String,
    provider: String,
    name: Option<String>,
    max_tokens: u32,
    context_window: u32,
) -> (r: Result<String, String>)
    ensures
        ({
            let def = model_of_flags(id, provider, name, max_tokens, context_window);
            &&& (r is Ok) == old(registry).providers.has(provider@)
            &&& r matches Err(e) ==> {
                &&& *final(registry) == *old(registry)
                &&& exists|avail: Seq<char>|
                    listing(old(registry).providers.names(), avail) && #[trigger] join_seq(
                        model_ref_lines(def, avail),
                        "\n"@,
                    ) == e@
            }
            &&& r matches Ok(what) ==> {
                &&& what@ == "model "@ + id@
                &&& final(registry).models@ == old(registry).models.inserted(id@, def)
                &&& final(registry).providers == old(registry).providers
                &&& final(registry).specialists == old(registry).specialists
            }
        }),
        r is Ok ==> (final(registry).models.lookup(id@) matches Some(m) && m.id == id && m.provider
            == provider && m.max_tokens == max_tokens && m.context_window == context_window && m.name@
            == (match name {
            Some(n) => n@,
            None => id@,
        })),
{
    let ghost wanted = model_of_flags(id, provider, name, max_tokens, context_window);
    let ghost old_models = registry.models;
    let display = match name {
        Some(n) => n,
        None => id.clone(),
    };
    let def = ModelDef { id: id.clone(), name: display, provider, max_tokens, context_window };
    assert(def == wanted);
    match check_model_refs(registry, &def) {
        Ok(()) => {},
        Err(e) => {
            return Err(e);
        },
    }
    let mut what = owned("model ");
    push_str(&mut what, id.as_str());
    let ghost key = id@;
    registry.models.insert(id, def);
    proof {
        law_insert_lookup(old_models, registry.models@, key, wanted, key);
    }
    Ok(what)
}

/// A defined model keeps the flags it was defined with: its id, provider,
/// output cap and context window as given, in their own fields, and its
/// display name as given or, without one, its id.
pub proof fn law_model_keeps_its_flags(
    id: String,
    provider: String,
    name: Option<String>,
    max_tokens: u32,
    context_window: u32,
)
    ensures
        ({
            let m = model_of_flags(id, provider, name, max_tokens, context_window);
            &&& m.id == id
            &&& m.provider == provider
            &&& m.max_tokens == max_tokens
            &&& m.context_window == context_window
            &&& name matches Some(n) ==> m.name == n
            &&& name is None ==> m.name == id
        }),
{
}

/// `d` is the specialist the `define specialist` flags describe, its level
/// of reasoning `level`.
pub open spec fn specialist_from_flags(
    d: Specialist,
    name: Seq<char>,
    provider: Seq<char>,
    model: Seq<char>,
    system_prompt: Seq<char>,
    tools: Option<String>,
    constraint: Option<String>,
    level: Reasoning,
    stream: bool,
) -> bool {
    &&& d.name@ == name
    &&& d.provider@ == provider
    &&& d.model@ == model
    &&& d.system_prompt@ == system_prompt
    &&& views(d.tools@) == match tools {
        Some(s) => kept_pieces(split_seq(s@, ',')),
        None => Seq::empty(),
    }
    &&& d.constraint == constraint
    &&& d.reasoning == level
    &&& d.stream == stream
}

/// Defines a specialist from its flags: the tool list comma-separated and
/// the reasoning level by name. It is refused — and the registry left as it
/// was — for an unknown reasoning level, for a definition that does not
/// validate, or for a reference to a provider, model or tool (of `tools`, the
/// tools defined) that does not resolve. On success, what was defined
/// (`specialist <name>`).
pub fn define_specialist(
    registry: &mut Registry,
    name: String,
    provider: String,
    model: String,
    system_prompt: String,
    tools: Option<String>,
    constraint: Option<String>,
    reasoning: &str,
    stream: bool,
    defined_tools: &Vec<String>,
) -> (r: Result<String, String>)
    ensures
        r is Err ==> *final(registry) == *old(registry),
        match Reasoning::named(reasoning@) {
            None => r matches Err(e) && e@ == crate::ai::reasoning_error_message(reasoning@),
            Some(level) => exists|d: Specialist|
                {
                    &&& #[trigger] specialist_from_flags(
                        d,
                        name@,
                        provider@,
                        model@,
                        system_prompt@,
                        tools,
                        constraint,
                        level,
                        stream,
                    )
                    &&& if !(d.constraint is None || (d.tools@.len() == 0 && d.reasoning
                        == Reasoning::Off)) {
                        r matches Err(e) && (if d.tools@.len() > 0 {
                            e@ == crate::domain::both_error(name@)
                        } else {
                            e@ == crate::domain::reasoning_error(name@)
                        })
                    } else if first_missing(*old(registry), d, defined_tools@) is Some {
                        r matches Err(e) && specialist_ref_error(
                            *old(registry),
                            d,
                            defined_tools@,
                            e@,
                        )
                    } else {
                        &&& r matches Ok(what) && what@ == "specialist "@ + name@
                        &&& final(registry).specialists@ == old(registry).specialists.inserted(
                            name@,
                            d,
                        )
                        &&& final(registry).providers == old(registry).providers
                        &&& final(registry).models == old(registry).models
                    }
                },
        },
{
    let level = match parse_reasoning(reasoning) {
        Ok(l) => l,
        Err(e) => {
            return Err(e);
        },
    };
    let def = Specialist {
        name: name.clone(),
        provider,
        model,
        system_prompt,
        tools: parse_list(tools),
        constraint,
        reasoning: level,
        stream,
    };
    proof {
        if tools is None {
            assert(views(def.tools@) =~= Seq::<Seq<char>>::empty());
        }
    }
    assert(specialist_from_flags(def, name@, def.provider@, def.model@, def.system_prompt@, tools, def.constraint, level, stream));
    match def.validate() {
        Ok(()) => {},
        Err(e) => {
            return Err(e);
        },
    }
    match check_specialist_refs(registry, &def, defined_tools) {
        Ok(()) => {},
        Err(e) => {
            return Err(e);
        },
    }
    let mut what = owned("specialist ");
    push_str(&mut what, name.as_str());
    registry.specialists.insert(name, def);
    Ok(what)
}

/// The lines that warn of what a delete of `kind` `name` would orphan: one
/// per reference, then how to put it right; none when nothing refers to it.
pub open spec fn orphan_lines(kind: Seq<char>, name: Seq<char>, referrers: Seq<Seq<char>>) -> Seq<Seq<char>> {
    if referrers.len() == 0 {
        Seq::empty()
    } else {
        referrers.map_values(
            |r: Seq<char>| "warning: deleting "@ + kind + " '"@ + name + "' will orphan "@ + r,
        ).push(
            "  Those references will fail at run time until you redefine "@ + kind + " '"@ + name
                + "' or repoint them."@,
        )
    }
}

/// Warnings for the references a delete would orphan.
pub fn orphan_warnings(kind: &str, name: &str, referrers: &Vec<String>) -> (r: Vec<String>)
    ensures
        views(r@) == orphan_lines(kind@, name@, views(referrers@)),
{
    let mut out: Vec<String> = Vec::new();
    if referrers.len() == 0 {
        assert(views(out@) =~= orphan_lines(kind@, name@, views(referrers@)));
        return out;
    }
    let ghost refs = views(referrers@);
    let mut i: usize = 0;
    while i < referrers.len()
        invariant
            i <= referrers@.len(),
            refs == views(referrers@),
            views(out@) == refs.subrange(0, i as int).map_values(
                |r: Seq<char>| "warning: deleting "@ + kind@ + " '"@ + name@ + "' will orphan "@ + r,
            ),
        decreases referrers.len() - i,
    {
        let mut line = owned("warning: deleting ");
        push_str(&mut line, kind);
        push_str(&mut line, " '");
        push_str(&mut line, name);
        push_str(&mut line, "' will orphan ");
        push_str(&mut line, referrers[i].as_str());
        let ghost before = views(out@);
        out.push(line);
        assert(views(out@) =~= before.push(out@.last()@));
        assert(refs.subrange(0, i + 1).map_values(
            |r: Seq<char>| "warning: deleting "@ + kind@ + " '"@ + name@ + "' will orphan "@ + r,
        ) =~= refs.subrange(0, i as int).map_values(
            |r: Seq<char>| "warning: deleting "@ + kind@ + " '"@ + name@ + "' will orphan "@ + r,
        ).push("warning: deleting "@ + kind@ + " '"@ + name@ + "' will orphan "@ + refs[i as int]));
        i += 1;
    }
    assert(refs.subrange(0, refs.len() as int) =~= refs);
    let mut last = owned("  Those references will fail at run time until you redefine ");
    push_str(&mut last, kind);
    push_str(&mut last, " '");
    push_str(&mut last, name);
    push_str(&mut last, "' or repoint them.");
    let ghost before = views(out@);
    out.push(last);
    assert(views(out@) =~= before.push(out@.last()@));
    out
}

/// A registry entity a delete can name: the registry holds these, while
/// tools live in their folder.
#[derive(Clone, Copy, Debug, PartialEq, Eq, Structural)]
pub enum Deletable {
    Specialist,
    Provider,
    Model,
}

impl Deletable {
    pub open spec fn noun(self) -> Seq<char> {
        match self {
            Deletable::Specialist => "specialist"@,
            Deletable::Provider => "provider"@,
            Deletable::Model => "model"@,
        }
    }

    /// Whether the registry holds an entity of this kind named `name`.
    pub open spec fn held(self, registry: Registry, name: Seq<char>) -> bool {
        match self {
            Deletable::Specialist => registry.specialists.has(name),
            Deletable::Provider => registry.providers.has(name),
            Deletable::Model => registry.models.has(name),
        }
    }
}

/// What deleting `kind` `name` concerns: its description (`<kind> <name>`)
/// and the references to it the delete would orphan (none for a
/// specialist, which nothing refers to). An entity the registry does not hold
/// is an error, `no such <kind> <name>`.
pub fn delete_preview(registry: &Registry, kind: Deletable, name: &str) -> (r: Result<(String, Vec<String>), String>)
    ensures
        (r is Ok) == kind.held(*registry, name@),
        r matches Err(e) ==> e@ == "no such "@ + kind.noun() + " "@ + name@,
        r matches Ok((what, refs)) ==> {
            &&& what@ == kind.noun() + " "@ + name@
            &&& match kind {
                Deletable::Specialist => refs@.len() == 0,
                Deletable::Provider => exists|rs: Seq<Referrer>|
                    referrer_list(*registry, EntityKind::Provider, name@, rs) && views(refs@)
                        == #[trigger] referrer_lines(rs),
                Deletable::Model => exists|rs: Seq<Referrer>|
                    referrer_list(*registry, EntityKind::Model, name@, rs) && views(refs@)
                        == #[trigger] referrer_lines(rs),
            }
        },
{
    let (held, noun) = match kind {
        Deletable::Specialist => (registry.specialists.contains_key(name), "specialist"),
        Deletable::Provider => (registry.providers.contains_key(name), "provider"),
        Deletable::Model => (registry.models.contains_key(name), "model"),
    };
    let mut what = owned(noun);
    push_str(&mut what, " ");
    push_str(&mut what, name);
    if !held {
        let mut e = owned("no such ");
        push_str(&mut e, what.as_str());
        return Err(e);
    }
    let refs = match kind {
        Deletable::Specialist => Vec::new(),
        Deletable::Provider => referrers_of_provider(registry, name),
        Deletable::Model => referrers_of_model(registry, name),
    };
    Ok((what, refs))
}

/// Removes `kind` `name` from the registry; the other sections stay as they
/// were.
pub fn remove_entity(registry: &mut Registry, kind: Deletable, name: &str)
    ensures
        match kind {
            Deletable::Specialist => {
                &&& final(registry).specialists@ == old(registry).specialists.removed(name@)
                &&& final(registry).providers == old(registry).providers
                &&& final(registry).models == old(registry).models
            },
            Deletable::Provider => {
                &&& final(registry).providers@ == old(registry).providers.removed(name@)
                &&& final(registry).models == old(registry).models
                &&& final(registry).specialists == old(registry).specialists
            },
            Deletable::Model => {
                &&& final(registry).models@ == old(registry).models.removed(name@)
                &&& final(registry).providers == old(registry).providers
                &&& final(registry).specialists == old(registry).specialists
            },
        },
{
    match kind {
        Deletable::Specialist => {
            registry.specialists.remove(name);
        },
        Deletable::Provider => {
            registry.providers.remove(name);
        },
        Deletable::Model => {
            registry.models.remove(name);
        },
    }
}

} // verus!
