//! The onboarding panel shown by a bare `spawningpool`: where the user stands
//! in the provider → model → specialist → run progression, the next command
//! to type (with their real entity names), and warnings for API-key variables
//! that aren't set.

use vstd::prelude::*;

use crate::ai::Api;
use crate::domain::{ModelDef, ProviderDef, Registry, Specialist};
use crate::names::{lemma_map_multiset, lemma_views_multiset, NameMap};
use crate::sort::{sort_by_key, sorted_by_key, sorted_seqs};
use crate::text::{
    join, join_seq, lemma_seq_le_refl, lemma_seq_le_total, lemma_seq_le_trans, owned, padded,
    push_padded, push_str, seq_le, str_eq, str_le, views,
};

verus! {

broadcast use vstd::seq_lib::group_to_multiset_ensures;

/// `text` lists `names` sorted and comma-separated, or says that none are
/// defined.
pub open spec fn listing(names: Seq<Seq<char>>, text: Seq<char>) -> bool {
    if names.len() == 0 {
        text == "(none defined yet)"@
    } else {
        exists|s: Seq<Seq<char>>|
            sorted_seqs(s) && #[trigger] s.to_multiset() == names.to_multiset() && text == join_seq(
                s,
                ", "@,
            )
    }
}

/// The sorted, comma-joined names of a registry section, or a note that none
/// are defined yet.
pub fn available_names<V>(map: &NameMap<V>) -> (r: String)
    ensures
        listing(map.names(), r@),
{
    if map.is_empty() {
        return owned("(none defined yet)");
    }
    let names = map.sorted_keys();
    let r = join(&names, ", ");
    assert(views(names@).to_multiset() == map.names().to_multiset());
    r
}

/// The tool names, comma-joined, or a note that there are none.
pub open spec fn tools_listing(tools: Seq<String>) -> Seq<char> {
    if tools.len() == 0 {
        "(none defined yet)"@
    } else {
        join_seq(views(tools), ", "@)
    }
}

/// The tools folder's names, comma-joined, or a note that there are none.
pub fn defined_tools(tools: &Vec<String>) -> (r: String)
    ensures
        r@ == tools_listing(tools@),
{
    if tools.len() == 0 {
        owned("(none defined yet)")
    } else {
        join(tools, ", ")
    }
}

pub open spec fn rung_label(i: int) -> Seq<char> {
    if i == 0 {
        "provider"@
    } else if i == 1 {
        "model"@
    } else if i == 2 {
        "specialist"@
    } else {
        "run"@
    }
}

/// Rung `i`, checked when it is among the `done` ones.
pub open spec fn rung(i: int, done: int) -> Seq<char> {
    if i < done {
        rung_label(i) + " \u{2713}"@
    } else {
        rung_label(i)
    }
}

/// The progression line: `[current/4]` and the four rungs, the completed
/// ones checked.
pub open spec fn progress_text(done: nat) -> Seq<char> {
    let current: nat = if done + 1 < 4 {
        (done + 1) as nat
    } else {
        4
    };
    "  ["@ + padded(current, 0) + "/4] "@ + rung(0, done as int) + " \u{b7} "@ + rung(1, done as int)
        + " \u{b7} "@ + rung(2, done as int) + " \u{b7} "@ + rung(3, done as int)
}

fn push_rung(s: &mut String, i: usize, done: usize)
    requires
        i < 4,
    ensures
        final(s)@ == old(s)@ + rung(i as int, done as int),
{
    let label = if i == 0 {
        "provider"
    } else if i == 1 {
        "model"
    } else if i == 2 {
        "specialist"
    } else {
        "run"
    };
    push_str(s, label);
    if i < done {
        push_str(s, " \u{2713}");
    }
}

/// The progression's four rungs with the completed ones checked, after a
/// `[current/4]` marker.
pub fn progress(done: usize) -> (r: String)
    ensures
        r@ == progress_text(done as nat),
{
    let current: u64 = if done < 3 {
        (done + 1) as u64
    } else {
        4
    };
    let mut s = owned("  [");
    push_padded(&mut s, current, 0);
    push_str(&mut s, "/4] ");
    push_rung(&mut s, 0, done);
    push_str(&mut s, " \u{b7} ");
    push_rung(&mut s, 1, done);
    push_str(&mut s, " \u{b7} ");
    push_rung(&mut s, 2, done);
    push_str(&mut s, " \u{b7} ");
    push_rung(&mut s, 3, done);
    s
}

pub(crate) fn add_line(lines: &mut Vec<String>, s: String)
    ensures
        views(final(lines)@) == views(old(lines)@).push(s@),
{
    let ghost before = lines@;
    lines.push(s);
    assert(views(lines@) =~= views(before).push(s@));
}

pub(crate) fn add_lit(lines: &mut Vec<String>, s: &str)
    ensures
        views(final(lines)@) == views(old(lines)@).push(s@),
{
    add_line(lines, owned(s));
}

pub open spec fn empty_lines() -> Seq<Seq<char>> {
    seq![
        "spawningpool \u{2014} nothing defined yet. Let's set up your first specialist."@,
        ""@,
        progress_text(0),
        ""@,
        "Step 1: define a provider \u{2014} the API your specialists talk to. Pick one:"@,
        ""@,
        "  Anthropic (hosted):"@,
        "      spawningpool define provider anthropic --api anthropic-messages \\"@,
        "        --base-url https://api.anthropic.com --api-key-env ANTHROPIC_API_KEY"@,
        ""@,
        "  LM Studio (local, OpenAI-compatible):"@,
        "      spawningpool define provider lmstudio --api openai-completions \\"@,
        "        --base-url http://localhost:1234/v1"@,
        "      (add --constrained-decoding if the server supports it, for a hard"@,
        "       guarantee on a specialist's forced tool call.)"@,
        ""@,
        "Then run `spawningpool` again for the next step."@,
    ]
}

/// The panel for an empty registry: define a provider first.
pub fn empty_state() -> (r: String)
    ensures
        r@ == join_seq(empty_lines(), "\n"@),
{
    let mut l: Vec<String> = Vec::new();
    add_lit(&mut l, "spawningpool \u{2014} nothing defined yet. Let's set up your first specialist.");
    add_lit(&mut l, "");
    add_line(&mut l, progress(0));
    add_lit(&mut l, "");
    add_lit(&mut l, "Step 1: define a provider \u{2014} the API your specialists talk to. Pick one:");
    add_lit(&mut l, "");
    add_lit(&mut l, "  Anthropic (hosted):");
    add_lit(&mut l, "      spawningpool define provider anthropic --api anthropic-messages \\");
    add_lit(&mut l, "        --base-url https://api.anthropic.com --api-key-env ANTHROPIC_API_KEY");
    add_lit(&mut l, "");
    add_lit(&mut l, "  LM Studio (local, OpenAI-compatible):");
    add_lit(&mut l, "      spawningpool define provider lmstudio --api openai-completions \\");
    add_lit(&mut l, "        --base-url http://localhost:1234/v1");
    add_lit(&mut l, "      (add --constrained-decoding if the server supports it, for a hard");
    add_lit(&mut l, "       guarantee on a specialist's forced tool call.)");
    add_lit(&mut l, "");
    add_lit(&mut l, "Then run `spawningpool` again for the next step.");
    assert(views(l@) =~= empty_lines());
    join(&l, "\n")
}

/// Some provider speaks the OpenAI-compatible protocol (so its server can be
/// asked which models it has).
pub open spec fn has_openai_provider(providers: Seq<ProviderDef>) -> bool {
    exists|i: int| 0 <= i < providers.len() && (#[trigger] providers[i]).api == Api::OpenAiCompletions
}

pub open spec fn no_models_lines(available: Seq<char>, discovery: bool) -> Seq<Seq<char>> {
    let base = seq![
        "spawningpool \u{2014} provider defined. Next: add a model."@,
        ""@,
        progress_text(1),
        ""@,
        "Your providers: "@ + available + "."@,
        ""@,
        "Step 2: define a model under one of them."@,
        ""@,
        "  Manually:"@,
        "      spawningpool define model <id> --provider <provider> --max-tokens <n> --context-window <n>"@,
    ];
    if discovery {
        base + seq![
            ""@,
            "  Or discover what a running LM Studio server has loaded:"@,
            "      spawningpool list models --remote"@,
            "  (then define the one you want with `spawningpool define model`)."@,
        ]
    } else {
        base
    }
}

fn any_openai(providers: &NameMap<ProviderDef>) -> (r: bool)
    ensures
        r == has_openai_provider(providers.values()),
{
    let mut i: usize = 0;
    while i < providers.len()
        invariant
            i <= providers@.len(),
            forall|j: int| 0 <= j < i ==> (#[trigger] providers.values()[j]).api != Api::OpenAiCompletions,
        decreases providers@.len() - i,
    {
        if providers.value_at(i).api == Api::OpenAiCompletions {
            assert(providers.values()[i as int].api == Api::OpenAiCompletions);
            return true;
        }
        i += 1;
    }
    false
}

/// The panel once a provider exists: define a model, and — when some provider
/// is OpenAI-compatible — discover what its server has loaded.
pub fn no_models_state(registry: &Registry) -> (r: String)
    ensures
        exists|avail: Seq<char>|
            listing(registry.providers.names(), avail) && #[trigger] join_seq(
                no_models_lines(avail, has_openai_provider(registry.providers.values())),
                "\n"@,
            ) == r@,
{
    let avail = available_names(&registry.providers);
    let discovery = any_openai(&registry.providers);
    let mut l: Vec<String> = Vec::new();
    add_lit(&mut l, "spawningpool \u{2014} provider defined. Next: add a model.");
    add_lit(&mut l, "");
    add_line(&mut l, progress(1));
    add_lit(&mut l, "");
    let mut line = owned("Your providers: ");
    push_str(&mut line, avail.as_str());
    push_str(&mut line, ".");
    add_line(&mut l, line);
    add_lit(&mut l, "");
    add_lit(&mut l, "Step 2: define a model under one of them.");
    add_lit(&mut l, "");
    add_lit(&mut l, "  Manually:");
    add_lit(
        &mut l,
        "      spawningpool define model <id> --provider <provider> --max-tokens <n> --context-window <n>",
    );
    if discovery {
        add_lit(&mut l, "");
        add_lit(&mut l, "  Or discover what a running LM Studio server has loaded:");
        add_lit(&mut l, "      spawningpool list models --remote");
        add_lit(&mut l, "  (then define the one you want with `spawningpool define model`).");
    }
    assert(views(l@) =~= no_models_lines(avail@, discovery));
    join(&l, "\n")
}

/// Entry `i` has the least id.
pub open spec fn least_id_at(models: Seq<ModelDef>, i: int) -> bool {
    0 <= i < models.len() && forall|j: int| 0 <= j < models.len() ==> seq_le(models[i].id@, #[trigger] models[j].id@)
}

/// Entry `i` has the least name.
pub open spec fn least_name_at(specs: Seq<Specialist>, i: int) -> bool {
    0 <= i < specs.len() && forall|j: int| 0 <= j < specs.len() ==> seq_le(specs[i].name@, #[trigger] specs[j].name@)
}

fn least_model(models: &NameMap<ModelDef>) -> (r: usize)
    requires
        models@.len() > 0,
    ensures
        least_id_at(models.values(), r as int),
{
    let mut m: usize = 0;
    let mut k: usize = 1;
    proof {
        lemma_seq_le_refl(models.values()[0].id@);
    }
    while k < models.len()
        invariant
            m < k <= models@.len(),
            forall|j: int| 0 <= j < k ==> seq_le(models.values()[m as int].id@, #[trigger] models.values()[j].id@),
        decreases models@.len() - k,
    {
        if !str_le(models.value_at(m).id.as_str(), models.value_at(k).id.as_str()) {
            proof {
                let v = models.values();
                lemma_seq_le_total(v[m as int].id@, v[k as int].id@);
                assert forall|j: int| 0 <= j < k + 1 implies seq_le(v[k as int].id@, #[trigger] v[j].id@) by {
                    if j < k {
                        lemma_seq_le_trans(v[k as int].id@, v[m as int].id@, v[j].id@);
                    } else {
                        lemma_seq_le_refl(v[j].id@);
                    }
                }
            }
            m = k;
        }
        k += 1;
    }
    m
}

fn least_specialist(specs: &NameMap<Specialist>) -> (r: usize)
    requires
        specs@.len() > 0,
    ensures
        least_name_at(specs.values(), r as int),
{
    let mut m: usize = 0;
    let mut k: usize = 1;
    proof {
        lemma_seq_le_refl(specs.values()[0].name@);
    }
    while k < specs.len()
        invariant
            m < k <= specs@.len(),
            forall|j: int| 0 <= j < k ==> seq_le(specs.values()[m as int].name@, #[trigger] specs.values()[j].name@),
        decreases specs@.len() - k,
    {
        if !str_le(specs.value_at(m).name.as_str(), specs.value_at(k).name.as_str()) {
            proof {
                let v = specs.values();
                lemma_seq_le_total(v[m as int].name@, v[k as int].name@);
                assert forall|j: int| 0 <= j < k + 1 implies seq_le(v[k as int].name@, #[trigger] v[j].name@) by {
                    if j < k {
                        lemma_seq_le_trans(v[k as int].name@, v[m as int].name@, v[j].name@);
                    } else {
                        lemma_seq_le_refl(v[j].name@);
                    }
                }
            }
            m = k;
        }
        k += 1;
    }
    m
}

pub open spec fn no_specialists_lines(model: ModelDef) -> Seq<Seq<char>> {
    seq![
        "spawningpool \u{2014} model ready. Next: define a specialist."@,
        ""@,
        progress_text(2),
        ""@,
        "A specialist is a hyper-specific agent: one model, one system prompt,"@,
        "and an optional set of tools (scripts) it may call."@,
        ""@,
        "Step 3: define one."@,
        ""@,
        "      spawningpool define specialist <name> --provider "@ + model.provider@ + " --model "@
            + model.id@ + " \\"@,
        "        --system-prompt '<what this specialist does>'"@,
        ""@,
        "  Optional: to let it call a tool, add one first. A tool is just an"@,
        "  executable script in ~/.spawningpool/tools/. Drop one in (or run the"@,
        "  command below), then pass --tools <name> above:"@,
        "      spawningpool define tool <name> --script <path>"@,
    ]
}

/// The panel once a model exists: define a specialist, with an example
/// naming the model with the least id and its provider.
pub fn no_specialists_state(registry: &Registry) -> (r: String)
    requires
        registry.models@.len() > 0,
    ensures
        exists|i: int|
            least_id_at(registry.models.values(), i) && r@ == join_seq(
                no_specialists_lines(#[trigger] registry.models.values()[i]),
                "\n"@,
            ),
{
    let i = least_model(&registry.models);
    let model = registry.models.value_at(i);
    let mut l: Vec<String> = Vec::new();
    add_lit(&mut l, "spawningpool \u{2014} model ready. Next: define a specialist.");
    add_lit(&mut l, "");
    add_line(&mut l, progress(2));
    add_lit(&mut l, "");
    add_lit(&mut l, "A specialist is a hyper-specific agent: one model, one system prompt,");
    add_lit(&mut l, "and an optional set of tools (scripts) it may call.");
    add_lit(&mut l, "");
    add_lit(&mut l, "Step 3: define one.");
    add_lit(&mut l, "");
    let mut line = owned("      spawningpool define specialist <name> --provider ");
    push_str(&mut line, model.provider.as_str());
    push_str(&mut line, " --model ");
    push_str(&mut line, model.id.as_str());
    push_str(&mut line, " \\");
    add_line(&mut l, line);
    add_lit(&mut l, "        --system-prompt '<what this specialist does>'");
    add_lit(&mut l, "");
    add_lit(&mut l, "  Optional: to let it call a tool, add one first. A tool is just an");
    add_lit(&mut l, "  executable script in ~/.spawningpool/tools/. Drop one in (or run the");
    add_lit(&mut l, "  command below), then pass --tools <name> above:");
    add_lit(&mut l, "      spawningpool define tool <name> --script <path>");
    assert(views(l@) =~= no_specialists_lines(*model));
    assert(registry.models.values()[i as int] == *model);
    join(&l, "\n")
}

pub open spec fn ready_lines(specialist: Specialist, available: Seq<char>) -> Seq<Seq<char>> {
    seq![
        "spawningpool \u{2014} you're all set."@,
        ""@,
        progress_text(3),
        ""@,
        "Run a specialist against a prompt:"@,
        ""@,
        "      spawningpool run specialist "@ + specialist.name@ + " --prompt '<your prompt>'"@,
        ""@,
        "  Specialists: "@ + available,
        ""@,
        "  To give a specialist a tool to call, put an executable script in"@,
        "  ~/.spawningpool/tools/ (or `spawningpool define tool <name> --script <path>`),"@,
        "  then add --tools <name> when you define the specialist. `spawningpool list tools`"@,
        "  shows what's there."@,
    ]
}

/// The panel once a specialist exists: run one, with an example naming the
/// specialist with the least name.
pub fn ready_state(registry: &Registry) -> (r: String)
    requires
        registry.specialists@.len() > 0,
    ensures
        exists|i: int, avail: Seq<char>|
            least_name_at(registry.specialists.values(), i) && listing(
                registry.specialists.names(),
                avail,
            ) && r@ == join_seq(
                #[trigger] ready_lines(registry.specialists.values()[i], avail),
                "\n"@,
            ),
{
    let i = least_specialist(&registry.specialists);
    let specialist = registry.specialists.value_at(i);
    let avail = available_names(&registry.specialists);
    let mut l: Vec<String> = Vec::new();
    add_lit(&mut l, "spawningpool \u{2014} you're all set.");
    add_lit(&mut l, "");
    add_line(&mut l, progress(3));
    add_lit(&mut l, "");
    add_lit(&mut l, "Run a specialist against a prompt:");
    add_lit(&mut l, "");
    let mut line = owned("      spawningpool run specialist ");
    push_str(&mut line, specialist.name.as_str());
    push_str(&mut line, " --prompt '<your prompt>'");
    add_line(&mut l, line);
    add_lit(&mut l, "");
    let mut line2 = owned("  Specialists: ");
    push_str(&mut line2, avail.as_str());
    add_line(&mut l, line2);
    add_lit(&mut l, "");
    add_lit(&mut l, "  To give a specialist a tool to call, put an executable script in");
    add_lit(
        &mut l,
        "  ~/.spawningpool/tools/ (or `spawningpool define tool <name> --script <path>`),",
    );
    add_lit(
        &mut l,
        "  then add --tools <name> when you define the specialist. `spawningpool list tools`",
    );
    add_lit(&mut l, "  shows what's there.");
    assert(views(l@) =~= ready_lines(*specialist, avail@));
    join(&l, "\n")
}

/// Which rung of the progression the registry has reached: providers, then
/// models, then specialists.
pub open spec fn stage(registry: Registry) -> int {
    if registry.providers@.len() == 0 {
        0
    } else if registry.models@.len() == 0 {
        1
    } else if registry.specialists@.len() == 0 {
        2
    } else {
        3
    }
}

/// The panel for where the registry stands in the progression.
pub fn onboarding_message(registry: &Registry) -> (r: String)
    ensures
        stage(*registry) == 0 ==> r@ == join_seq(empty_lines(), "\n"@),
        stage(*registry) == 1 ==> exists|avail: Seq<char>|
            listing(registry.providers.names(), avail) && #[trigger] join_seq(
                no_models_lines(avail, has_openai_provider(registry.providers.values())),
                "\n"@,
            ) == r@,
        stage(*registry) == 2 ==> exists|i: int|
            least_id_at(registry.models.values(), i) && r@ == join_seq(
                no_specialists_lines(#[trigger] registry.models.values()[i]),
                "\n"@,
            ),
        stage(*registry) == 3 ==> exists|i: int, avail: Seq<char>|
            least_name_at(registry.specialists.values(), i) && listing(
                registry.specialists.names(),
                avail,
            ) && r@ == join_seq(
                #[trigger] ready_lines(registry.specialists.values()[i], avail),
                "\n"@,
            ),
{
    if registry.providers.is_empty() {
        empty_state()
    } else if registry.models.is_empty() {
        no_models_state(registry)
    } else if registry.specialists.is_empty() {
        no_specialists_state(registry)
    } else {
        ready_state(registry)
    }
}

pub open spec fn key_warning(provider: Seq<char>, env: Seq<char>) -> Seq<char> {
    "warning: provider '"@ + provider + "' reads its API key from $"@ + env
        + ", which isn't set.\n  export "@ + env
        + "=<your key> before running a specialist that uses it."@
}

/// For each provider (in order) whose key variable isn't among `set`: its
/// name and the warning about it.
pub open spec fn key_warnings(providers: Seq<ProviderDef>, set: Seq<String>) -> Seq<(Seq<char>, Seq<char>)>
    decreases providers.len(),
{
    if providers.len() == 0 {
        Seq::empty()
    } else {
        let r = key_warnings(providers.drop_last(), set);
        let p = providers.last();
        match p.api_key_env {
            Some(env) => if crate::domain::defines(set, env@) {
                r
            } else {
                r.push((p.name@, key_warning(p.name@, env@)))
            },
            None => r,
        }
    }
}

pub open spec fn pair_views(s: Seq<(String, String)>) -> Seq<(Seq<char>, Seq<char>)> {
    s.map_values(|p: (String, String)| (p.0@, p.1@))
}

pub open spec fn sorted_pairs(s: Seq<(Seq<char>, Seq<char>)>) -> bool {
    forall|i: int, j: int| 0 <= i < j < s.len() ==> seq_le(#[trigger] s[i].0, #[trigger] s[j].0)
}

fn key_warning_text(provider: &str, env: &str) -> (r: String)
    ensures
        r@ == key_warning(provider@, env@),
{
    let mut s = owned("warning: provider '");
    push_str(&mut s, provider);
    push_str(&mut s, "' reads its API key from $");
    push_str(&mut s, env);
    push_str(&mut s, ", which isn't set.\n  export ");
    push_str(&mut s, env);
    push_str(&mut s, "=<your key> before running a specialist that uses it.");
    s
}

/// A warning for every provider whose API key comes from an environment
/// variable that isn't set, ordered by provider name. `set` names the
/// variables that are set.
pub fn unset_key_warnings(registry: &Registry, set: &Vec<String>) -> (r: Vec<String>)
    ensures
        exists|s: Seq<(Seq<char>, Seq<char>)>|
            sorted_pairs(s) && #[trigger] s.to_multiset() == key_warnings(
                registry.providers.values(),
                set@,
            ).to_multiset() && views(r@) == s.map_values(|p: (Seq<char>, Seq<char>)| p.1),
{
    let providers = &registry.providers;
    let mut pairs: Vec<(String, String)> = Vec::new();
    let mut i: usize = 0;
    while i < providers.len()
        invariant
            i <= providers@.len(),
            pair_views(pairs@) == key_warnings(providers.values().subrange(0, i as int), set@),
        decreases providers@.len() - i,
    {
        let p = providers.value_at(i);
        let ghost vals = providers.values();
        proof {
            assert(vals.subrange(0, i + 1).drop_last() =~= vals.subrange(0, i as int));
            assert(vals.subrange(0, i + 1).last() == *p);
        }
        let ghost prev = pairs@;
        match &p.api_key_env {
            Some(env) => {
                if !crate::domain::contains_name(set, env.as_str()) {
                    let w = key_warning_text(p.name.as_str(), env.as_str());
                    pairs.push((p.name.clone(), w));
                    assert(pair_views(pairs@) =~= pair_views(prev).push((p.name@, key_warning(p.name@, env@))));
                }
            },
            None => {},
        }
        i += 1;
    }
    assert(providers.values().subrange(0, i as int) =~= providers.values());
    let sorted = sort_by_key(pairs);
    let ghost f = |p: (String, String)| (p.0@, p.1@);
    proof {
        lemma_map_multiset(sorted@, pairs@, f);
        assert(pair_views(sorted@) =~= sorted@.map_values(f));
        assert(pair_views(pairs@) =~= pairs@.map_values(f));
    }
    let mut out: Vec<String> = Vec::new();
    let mut k: usize = 0;
    while k < sorted.len()
        invariant
            k <= sorted@.len(),
            views(out@) == pair_views(sorted@).map_values(|p: (Seq<char>, Seq<char>)| p.1).subrange(0, k as int),
        decreases sorted.len() - k,
    {
        let ghost prev = out@;
        let w = sorted[k].1.clone();
        assert(pair_views(sorted@)[k as int].1 == w@);
        out.push(w);
        assert(views(out@) =~= views(prev).push(w@));
        k += 1;
        assert(views(out@) =~= pair_views(sorted@).map_values(|p: (Seq<char>, Seq<char>)| p.1).subrange(0, k as int));
    }
    proof {
        let s = pair_views(sorted@);
        assert(s.map_values(|p: (Seq<char>, Seq<char>)| p.1).subrange(0, k as int) =~= s.map_values(|p: (Seq<char>, Seq<char>)| p.1));
        assert(sorted_pairs(s)) by {
            assert forall|a: int, b: int| 0 <= a < b < s.len() implies seq_le(#[trigger] s[a].0, #[trigger] s[b].0) by {
                assert(s[a].0 == sorted@[a].0@);
                assert(s[b].0 == sorted@[b].0@);
            }
        }
    }
    out
}

/// The provider a named specialist runs on, when both are defined and the
/// provider reads its key from the environment.
pub open spec fn keyed_provider(registry: Registry, specialist: Seq<char>) -> Option<Seq<char>> {
    match registry.specialists.lookup(specialist) {
        Some(spec) => match registry.providers.lookup(spec.provider@) {
            Some(p) => if p.api_key_env is Some {
                Some(p.name@)
            } else {
                None
            },
            None => None,
        },
        None => None,
    }
}

/// The providers, in the order the specialists first need them, whose key
/// comes from the environment but is missing from `keyed`; each once.
pub open spec fn keyless_providers(
    registry: Registry,
    specialists: Seq<Seq<char>>,
    keyed: Seq<Seq<char>>,
) -> Seq<Seq<char>>
    decreases specialists.len(),
{
    if specialists.len() == 0 {
        Seq::empty()
    } else {
        let warned = keyless_providers(registry, specialists.drop_last(), keyed);
        match keyed_provider(registry, specialists.last()) {
            Some(p) => if !keyed.contains(p) && !warned.contains(p) {
                warned.push(p)
            } else {
                warned
            },
            None => warned,
        }
    }
}

pub open spec fn missing_key_warning(provider: Seq<char>) -> Seq<char> {
    "warning: API key for provider '"@ + provider + "' is unset; specialists using it will fail"@
}

fn contains_str(v: &Vec<String>, s: &str) -> (r: bool)
    ensures
        r == views(v@).contains(s@),
{
    let mut i: usize = 0;
    while i < v.len()
        invariant
            i <= v@.len(),
            forall|j: int| 0 <= j < i ==> v@[j]@ != s@,
        decreases v.len() - i,
    {
        if str_eq(v[i].as_str(), s) {
            assert(views(v@)[i as int] == s@);
            return true;
        }
        i += 1;
    }
    proof {
        if views(v@).contains(s@) {
            let j = choose|j: int| 0 <= j < views(v@).len() && views(v@)[j] == s@;
            assert(v@[j]@ == s@);
        }
    }
    false
}

/// A warning for each provider the `specialists` need whose API key is unset
/// (`keyed` names the providers whose key was found), so a missing key shows
/// before a run rather than as an authentication failure in the middle of it.
pub fn warn_unset_keys(specialists: &Vec<String>, registry: &Registry, keyed: &Vec<String>) -> (r: Vec<String>)
    ensures
        views(r@) == keyless_providers(*registry, views(specialists@), views(keyed@)).map_values(
            |p: Seq<char>| missing_key_warning(p),
        ),
{
    let mut warned: Vec<String> = Vec::new();
    let mut out: Vec<String> = Vec::new();
    let ghost names = views(specialists@);
    let mut i: usize = 0;
    while i < specialists.len()
        invariant
            i <= specialists@.len(),
            names == views(specialists@),
            views(warned@) == keyless_providers(*registry, names.subrange(0, i as int), views(keyed@)),
            views(out@) == views(warned@).map_values(|p: Seq<char>| missing_key_warning(p)),
        decreases specialists.len() - i,
    {
        assert(names.subrange(0, i + 1).drop_last() =~= names.subrange(0, i as int));
        assert(names.subrange(0, i + 1).last() == specialists@[i as int]@);
        match registry.specialists.get(specialists[i].as_str()) {
            Some(spec) => match registry.providers.get(spec.provider.as_str()) {
                Some(p) => {
                    if p.api_key_env.is_some() && !contains_str(keyed, p.name.as_str())
                        && !contains_str(&warned, p.name.as_str()) {
                        let ghost before_w = views(warned@);
                        let ghost before_o = views(out@);
                        warned.push(p.name.clone());
                        let mut m = owned("warning: API key for provider '");
                        push_str(&mut m, p.name.as_str());
                        push_str(&mut m, "' is unset; specialists using it will fail");
                        out.push(m);
                        assert(views(warned@) =~= before_w.push(p.name@));
                        assert(views(out@) =~= before_o.push(missing_key_warning(p.name@)));
                        assert(views(out@) =~= views(warned@).map_values(
                            |p: Seq<char>| missing_key_warning(p),
                        ));
                    }
                },
                None => {},
            },
            None => {},
        }
        i += 1;
    }
    assert(names.subrange(0, names.len() as int) =~= names);
    out
}

} // verus!
