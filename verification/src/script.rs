//! Tool scripts: a tool is one executable script whose header comments
//! declare its description, parameters and exit codes, and which is run with
//! its parameters passed as environment variables. This module holds the
//! header's token rules and what a run and a refused script come to; reading
//! files and spawning processes is the caller's.

use vstd::prelude::*;

use crate::text::{
    chars_of, decimal, is_whitespace, is_ws, join, owned, padded, push_char, push_padded,
    push_str, split_once, split_once_seq, string_of_range, trim, trim_seq, trim_start_seq, views,
};

verus! {

// ---------------------------------------------------------------------------
// Integers in text
// ---------------------------------------------------------------------------

pub open spec fn all_digits(d: Seq<char>) -> bool {
    forall|i: int| 0 <= i < d.len() ==> '0' <= #[trigger] d[i] && d[i] <= '9'
}

/// The value of a run of decimal digits.
pub open spec fn digits_value(d: Seq<char>) -> int
    decreases d.len(),
{
    if d.len() == 0 {
        0
    } else {
        digits_value(d.drop_last()) * 10 + (d.last() as int - '0' as int)
    }
}

/// What `str::parse::<i32>` gives: an optional `+` or `-` followed by one or
/// more ASCII digits, whose value fits in an `i32`.
pub open spec fn parsed_i32(s: Seq<char>) -> Option<i32> {
    if s.len() == 0 {
        None
    } else {
        let signed = s[0] == '-' || s[0] == '+';
        let d = if signed { s.drop_first() } else { s };
        let v = if s[0] == '-' { -digits_value(d) } else { digits_value(d) };
        if d.len() == 0 || !all_digits(d) || v < i32::MIN || v > i32::MAX {
            None
        } else {
            Some(v as i32)
        }
    }
}

proof fn lemma_digits_value_nonneg(d: Seq<char>)
    requires
        all_digits(d),
    ensures
        digits_value(d) >= 0,
    decreases d.len(),
{
    if d.len() > 0 {
        assert(all_digits(d.drop_last())) by {
            assert forall|i: int| 0 <= i < d.drop_last().len() implies '0' <= #[trigger] d.drop_last()[i]
                && d.drop_last()[i] <= '9' by {
                assert(d.drop_last()[i] == d[i]);
            }
        }
        lemma_digits_value_nonneg(d.drop_last());
    }
}

/// Parses a decimal `i32` the way `str::parse` does.
pub fn parse_i32(s: &str) -> (r: Option<i32>)
    ensures
        r == parsed_i32(s@),
{
    let v = chars_of(s);
    let n = v.len();
    if n == 0 {
        return None;
    }
    let neg = v[0] == '-';
    let start: usize = if v[0] == '-' || v[0] == '+' { 1 } else { 0 };
    let ghost d = if start == 1 { s@.drop_first() } else { s@ };
    if start == n {
        return None;
    }
    // The value so far, held at `cap` once it passes every `i32`.
    let cap: i64 = 2_147_483_649;
    let mut acc: i64 = 0;
    let mut i: usize = start;
    assert(d.subrange(0, 0) =~= Seq::<char>::empty());
    while i < n
        invariant
            start <= i <= n,
            n == v@.len(),
            v@ == s@,
            cap == 2_147_483_649,
            n > 0,
            start as int == (if s@[0] == '-' || s@[0] == '+' { 1int } else { 0int }),
            d == (if s@[0] == '-' || s@[0] == '+' { s@.drop_first() } else { s@ }),
            d == s@.subrange(start as int, n as int),
            all_digits(d.subrange(0, i - start)),
            acc == if digits_value(d.subrange(0, i - start)) >= cap {
                cap as int
            } else {
                digits_value(d.subrange(0, i - start))
            },
        decreases n - i,
    {
        let c = v[i];
        let ghost pre = d.subrange(0, i - start);
        let ghost next = d.subrange(0, i - start + 1);
        assert(next.drop_last() =~= pre);
        assert(next.last() == c);
        if !('0' <= c && c <= '9') {
            assert(d[i - start] == c);
            assert(!all_digits(d));
            return None;
        }
        proof {
            lemma_digits_value_nonneg(pre);
            assert(all_digits(next)) by {
                assert forall|k: int| 0 <= k < next.len() implies '0' <= #[trigger] next[k] && next[k] <= '9' by {
                    if k < pre.len() {
                        assert(next[k] == pre[k]);
                    }
                }
            }
        }
        let digit = (c as u32 - '0' as u32) as i64;
        if acc >= cap {
            acc = cap;
        } else {
            let x = acc * 10 + digit;
            acc = if x >= cap { cap } else { x };
        }
        i += 1;
    }
    assert(d.subrange(0, (n - start) as int) =~= d);
    proof {
        lemma_digits_value_nonneg(d);
    }
    if neg {
        if acc > 2_147_483_648 {
            None
        } else {
            Some((-acc) as i32)
        }
    } else {
        if acc > 2_147_483_647 {
            None
        } else {
            Some(acc as i32)
        }
    }
}

/// `n` in decimal, with a leading `-` when negative.
pub open spec fn signed_decimal(n: int) -> Seq<char> {
    if n < 0 {
        seq!['-'] + decimal((-n) as nat)
    } else {
        decimal(n as nat)
    }
}

/// Appends `n` in decimal.
pub fn push_i32(s: &mut String, n: i32)
    ensures
        final(s)@ == old(s)@ + signed_decimal(n as int),
{
    if n < 0 {
        push_char(s, '-');
        let m = (-(n as i64)) as u64;
        let ghost mid = s@;
        push_padded(s, m, 0);
        assert(padded(m as nat, 0) == decimal(m as nat));
        assert(s@ =~= old(s)@ + signed_decimal(n as int));
    } else {
        push_padded(s, n as u64, 0);
        assert(padded(n as nat, 0) == decimal(n as nat));
    }
}

// ---------------------------------------------------------------------------
// Words and identifiers
// ---------------------------------------------------------------------------

/// Where the first word of `s` ends: at whitespace or a `"`.
pub open spec fn word_end(s: Seq<char>) -> int
    decreases s.len(),
{
    if s.len() == 0 || is_ws(s[0]) || s[0] == '"' {
        0
    } else {
        1 + word_end(s.drop_first())
    }
}

/// `s`'s first word — after leading whitespace, up to whitespace or a `"` —
/// and the rest with leading whitespace removed.
pub open spec fn first_word(s: Seq<char>) -> (Seq<char>, Seq<char>) {
    let t = trim_start_seq(s);
    let e = word_end(t);
    (t.subrange(0, e), trim_start_seq(t.subrange(e, t.len() as int)))
}

proof fn lemma_word_end(s: Seq<char>, e: int)
    requires
        0 <= e <= s.len(),
        forall|i: int| 0 <= i < e ==> !is_ws(#[trigger] s[i]) && s[i] != '"',
        e == s.len() || is_ws(s[e]) || s[e] == '"',
    ensures
        word_end(s) == e,
    decreases e,
{
    if e > 0 {
        assert forall|i: int| 0 <= i < e - 1 implies !is_ws(#[trigger] s.drop_first()[i]) && s.drop_first()[i] != '"' by {
            assert(s.drop_first()[i] == s[i + 1]);
        }
        lemma_word_end(s.drop_first(), e - 1);
    }
}

/// Splits off the first whitespace-delimited word of `s`; a `"` also ends a
/// word, so `2"oops"` separates the code from the quote.
pub fn split_first_word(s: &str) -> (r: (String, String))
    ensures
        (r.0@, r.1@) == first_word(s@),
{
    let v = chars_of(s);
    let a = crate::text::skip_ws_start(&v, 0, v.len());
    assert(v@.subrange(0, v@.len() as int) =~= s@);
    let ghost t = v@.subrange(a as int, v@.len() as int);
    let mut e = a;
    while e < v.len() && !is_whitespace(v[e]) && v[e] != '"'
        invariant
            a <= e <= v@.len(),
            t == v@.subrange(a as int, v@.len() as int),
            forall|i: int| 0 <= i < e - a ==> !is_ws(#[trigger] t[i]) && t[i] != '"',
        decreases v.len() - e,
    {
        e += 1;
    }
    proof {
        lemma_word_end(t, e - a);
    }
    let word = string_of_range(&v, a, e);
    let b = crate::text::skip_ws_start(&v, e, v.len());
    let rest = string_of_range(&v, b, v.len());
    assert(word@ =~= t.subrange(0, e - a));
    assert(v@.subrange(e as int, v@.len() as int) =~= t.subrange(e - a, t.len() as int));
    (word, rest)
}

pub open spec fn ident_start(c: char) -> bool {
    ('a' <= c && c <= 'z') || ('A' <= c && c <= 'Z') || c == '_'
}

pub open spec fn ident_char(c: char) -> bool {
    ('a' <= c && c <= 'z') || ('A' <= c && c <= 'Z') || ('0' <= c && c <= '9') || c == '_'
}

/// A workflow identifier: an ASCII letter or `_`, then letters, digits, `_`,
/// or a `-` followed by a letter or `_`.
pub open spec fn dsl_ident(name: Seq<char>) -> bool {
    &&& name.len() > 0
    &&& ident_start(name[0])
    &&& forall|i: int|
        1 <= i < name.len() ==> ident_char(#[trigger] name[i]) || (name[i] == '-' && i + 1 < name.len()
            && ident_start(name[i + 1]))
}

/// Whether `name` is a valid workflow identifier, so an exit code name can be
/// branched on by a later workflow stage.
pub fn is_dsl_ident(name: &str) -> (r: bool)
    ensures
        r == dsl_ident(name@),
{
    let v = chars_of(name);
    let n = v.len();
    if n == 0 {
        return false;
    }
    let c0 = v[0];
    if !(('a' <= c0 && c0 <= 'z') || ('A' <= c0 && c0 <= 'Z') || c0 == '_') {
        return false;
    }
    let mut i: usize = 1;
    while i < n
        invariant
            1 <= i <= n,
            n == v@.len(),
            v@ == name@,
            forall|j: int|
                1 <= j < i ==> ident_char(#[trigger] v@[j]) || (v@[j] == '-' && j + 1 < n
                    && ident_start(v@[j + 1])),
        decreases n - i,
    {
        let c = v[i];
        let plain = ('a' <= c && c <= 'z') || ('A' <= c && c <= 'Z') || ('0' <= c && c <= '9')
            || c == '_';
        if !plain {
            let ok = c == '-' && i + 1 < n && {
                let d = v[i + 1];
                ('a' <= d && d <= 'z') || ('A' <= d && d <= 'Z') || d == '_'
            };
            if !ok {
                assert(!(ident_char(v@[i as int]) || (v@[i as int] == '-' && i + 1 < n && ident_start(
                    v@[i + 1],
                ))));
                return false;
            }
        }
        i += 1;
    }
    true
}

// ---------------------------------------------------------------------------
// The `# exits:` header
// ---------------------------------------------------------------------------

/// One exit code a tool declares: its status, the name a workflow branches
/// on, and an optional description.
#[derive(Debug, PartialEq, Eq)]
pub struct ExitCode {
    pub code: i32,
    pub name: String,
    pub desc: Option<String>,
}

/// Scanning an `# exits:` value: the entries finished so far (trimmed,
/// non-empty), the text of the current one, and whether a `"` is open.
pub open spec fn exit_scan(s: Seq<char>) -> (Seq<Seq<char>>, Seq<char>, bool)
    decreases s.len(),
{
    if s.len() == 0 {
        (Seq::empty(), Seq::empty(), false)
    } else {
        let (done, cur, quoted) = exit_scan(s.drop_last());
        let c = s.last();
        if c == '"' {
            (done, cur.push(c), !quoted)
        } else if c == ',' && !quoted {
            (if trim_seq(cur).len() > 0 { done.push(trim_seq(cur)) } else { done }, Seq::empty(), quoted)
        } else {
            (done, cur.push(c), quoted)
        }
    }
}

/// The entries of an `# exits:` value: split on commas outside quotes, each
/// trimmed, empty ones dropped.
pub open spec fn exit_entries(s: Seq<char>) -> Seq<Seq<char>> {
    let (done, cur, _) = exit_scan(s);
    if trim_seq(cur).len() > 0 {
        done.push(trim_seq(cur))
    } else {
        done
    }
}

/// Splits an `# exits:` value into trimmed, non-empty entries on top-level
/// commas, leaving commas inside a `"..."` description alone.
pub fn split_exit_entries(rest: &str) -> (r: Vec<String>)
    ensures
        views(r@) == exit_entries(rest@),
{
    let v = chars_of(rest);
    let mut entries: Vec<String> = Vec::new();
    let mut current = String::new();
    let mut in_string = false;
    let mut i: usize = 0;
    assert(v@.subrange(0, 0) =~= Seq::<char>::empty());
    while i < v.len()
        invariant
            i <= v@.len(),
            v@ == rest@,
            exit_scan(v@.subrange(0, i as int)) == (views(entries@), current@, in_string),
        decreases v.len() - i,
    {
        let c = v[i];
        assert(v@.subrange(0, i + 1).drop_last() =~= v@.subrange(0, i as int));
        if c == '"' {
            in_string = !in_string;
            push_char(&mut current, c);
        } else if c == ',' && !in_string {
            let t = trim(current.as_str());
            if t.as_str().unicode_len() > 0 {
                let ghost before = entries@;
                entries.push(t);
                assert(views(entries@) =~= views(before).push(trim_seq(current@)));
            }
            current = String::new();
        } else {
            push_char(&mut current, c);
        }
        i += 1;
    }
    assert(v@.subrange(0, v@.len() as int) =~= rest@);
    let t = trim(current.as_str());
    if t.as_str().unicode_len() > 0 {
        let ghost before = entries@;
        entries.push(t);
        assert(views(entries@) =~= views(before).push(trim_seq(current@)));
    }
    entries
}

pub open spec fn exits_msg(prefix: Seq<char>, code: i32, suffix: Seq<char>) -> Seq<char> {
    prefix + signed_decimal(code as int) + suffix
}

/// An entry's trailing `"description"`, or `None` when there is none; text
/// after the closing quote, an unquoted description or a missing closing quote
/// is an error.
pub open spec fn exit_desc(rest: Seq<char>, code: i32) -> Result<Option<Seq<char>>, Seq<char>> {
    let r = trim_seq(rest);
    if r.len() == 0 {
        Ok(None)
    } else if r[0] != '"' {
        Err(exits_msg("unexpected text after exit code "@, code, " name in `# exits:`; quote the description"@))
    } else {
        match split_once_seq(r.drop_first(), '"') {
            None => Err(exits_msg("unterminated description for exit code "@, code, " in `# exits:`"@)),
            Some((d, after)) => if trim_seq(after).len() > 0 {
                Err(exits_msg("unexpected text after exit code "@, code, " description in `# exits:`"@))
            } else {
                Ok(Some(d))
            },
        }
    }
}

fn exits_error(prefix: &str, code: i32, suffix: &str) -> (r: String)
    ensures
        r@ == exits_msg(prefix@, code, suffix@),
{
    let mut m = owned(prefix);
    push_i32(&mut m, code);
    push_str(&mut m, suffix);
    m
}

/// Reads an entry's trailing `"description"` (see [`exit_desc`]).
pub fn parse_exit_desc(rest: &str, code: i32) -> (r: Result<Option<String>, String>)
    ensures
        match r {
            Ok(Some(d)) => exit_desc(rest@, code) == Ok::<Option<Seq<char>>, Seq<char>>(Some(d@)),
            Ok(None) => exit_desc(rest@, code) == Ok::<Option<Seq<char>>, Seq<char>>(None),
            Err(e) => exit_desc(rest@, code) == Err::<Option<Seq<char>>, Seq<char>>(e@),
        },
{
    let r = trim(rest);
    let v = chars_of(r.as_str());
    if v.len() == 0 {
        return Ok(None);
    }
    if v[0] != '"' {
        return Err(exits_error("unexpected text after exit code ", code, " name in `# exits:`; quote the description"));
    }
    let inner = string_of_range(&v, 1, v.len());
    assert(inner@ =~= r@.drop_first());
    match split_once(inner.as_str(), '"') {
        None => Err(exits_error("unterminated description for exit code ", code, " in `# exits:`")),
        Some((desc, after)) => {
            let t = trim(after.as_str());
            if t.as_str().unicode_len() > 0 {
                Err(exits_error("unexpected text after exit code ", code, " description in `# exits:`"))
            } else {
                Ok(Some(desc))
            }
        },
    }
}

pub open spec fn exit_view(e: ExitCode) -> (i32, Seq<char>, Option<Seq<char>>) {
    (e.code, e.name@, match e.desc {
        Some(d) => Some(d@),
        None => None,
    })
}

/// Some exit code before is named `name`.
pub open spec fn named_before(prev: Seq<(i32, Seq<char>, Option<Seq<char>>)>, name: Seq<char>) -> bool {
    exists|i: int| 0 <= i < prev.len() && (#[trigger] prev[i]).1 == name
}

/// One `# exits:` entry, `CODE NAME` or `CODE NAME "description"`, read after
/// the exit codes `prev`.
pub open spec fn exit_entry(entry: Seq<char>, prev: Seq<(i32, Seq<char>, Option<Seq<char>>)>) -> Result<(i32, Seq<char>, Option<Seq<char>>), Seq<char>> {
    let (code_tok, after_code) = first_word(entry);
    match parsed_i32(code_tok) {
        None => Err("invalid exit code `"@ + code_tok + "` in `# exits:`"@),
        Some(code) => {
            let (name, after_name) = first_word(after_code);
            if name.len() == 0 {
                Err(exits_msg("exit code "@, code, " in `# exits:` is missing a name"@))
            } else if !dsl_ident(name) {
                Err("exit code name `"@ + name + "` in `# exits:` isn't a valid identifier"@)
            } else if named_before(prev, name) {
                Err("duplicate exit code name `"@ + name + "` in `# exits:`"@)
            } else {
                match exit_desc(after_name, code) {
                    Err(e) => Err(e),
                    Ok(desc) => Ok((code, name, desc)),
                }
            }
        },
    }
}

/// The exit codes of `entries`, read in order; the first bad entry's error.
pub open spec fn exits_of(entries: Seq<Seq<char>>) -> Result<Seq<(i32, Seq<char>, Option<Seq<char>>)>, Seq<char>>
    decreases entries.len(),
{
    if entries.len() == 0 {
        Ok(Seq::empty())
    } else {
        match exits_of(entries.drop_last()) {
            Err(e) => Err(e),
            Ok(prev) => match exit_entry(entries.last(), prev) {
                Err(e) => Err(e),
                Ok(x) => Ok(prev.push(x)),
            },
        }
    }
}

proof fn lemma_exits_error_stays(s: Seq<Seq<char>>, k: int)
    requires
        0 <= k <= s.len(),
        exits_of(s.subrange(0, k)) is Err,
    ensures
        exits_of(s) == exits_of(s.subrange(0, k)),
    decreases s.len() - k,
{
    if k < s.len() {
        assert(s.subrange(0, k + 1).drop_last() =~= s.subrange(0, k));
        lemma_exits_error_stays(s, k + 1);
    } else {
        assert(s.subrange(0, k) =~= s);
    }
}

/// Every exit code read from an `# exits:` value is named by a workflow
/// identifier, and no two share a name.
pub proof fn law_exit_names_unique(entries: Seq<Seq<char>>)
    ensures
        exits_of(entries) matches Ok(xs) ==> {
            &&& forall|i: int| 0 <= i < xs.len() ==> dsl_ident(#[trigger] xs[i].1)
            &&& forall|i: int, j: int| 0 <= i < j < xs.len() ==> #[trigger] xs[i].1 != #[trigger] xs[j].1
        },
    decreases entries.len(),
{
    if entries.len() > 0 {
        law_exit_names_unique(entries.drop_last());
        match exits_of(entries.drop_last()) {
            Ok(prev) => match exit_entry(entries.last(), prev) {
                Ok(x) => {
                    let xs = prev.push(x);
                    assert(!named_before(prev, x.1));
                    assert forall|i: int, j: int| 0 <= i < j < xs.len() implies #[trigger] xs[i].1
                        != #[trigger] xs[j].1 by {
                        if j == xs.len() - 1 {
                            assert(xs[i] == prev[i]);
                            if prev[i].1 == x.1 {
                                assert(named_before(prev, x.1));
                            }
                        } else {
                            assert(xs[i] == prev[i]);
                            assert(xs[j] == prev[j]);
                        }
                    }
                },
                Err(_) => {},
            },
            Err(_) => {},
        }
    }
}

/// Parses an `# exits:` value into exit codes. Entries are separated by
/// top-level commas; each is `CODE NAME` or `CODE NAME "description"`, where
/// the name is a workflow identifier unique within the tool.
pub fn parse_exits(rest: &str) -> (r: Result<Vec<ExitCode>, String>)
    ensures
        match r {
            Ok(v) => exits_of(exit_entries(rest@)) == Ok::<Seq<(i32, Seq<char>, Option<Seq<char>>)>, Seq<char>>(
                v@.map_values(|e: ExitCode| exit_view(e)),
            ),
            Err(e) => exits_of(exit_entries(rest@)) == Err::<Seq<(i32, Seq<char>, Option<Seq<char>>)>, Seq<char>>(e@),
        },
{
    let entries = split_exit_entries(rest);
    let ghost all = views(entries@);
    let mut exits: Vec<ExitCode> = Vec::new();
    let mut i: usize = 0;
    assert(all.subrange(0, 0) =~= Seq::<Seq<char>>::empty());
    assert(exits@.map_values(|e: ExitCode| exit_view(e)) =~= Seq::empty());
    while i < entries.len()
        invariant
            i <= entries@.len(),
            exits@.len() == i,
            all == views(entries@),
            all == exit_entries(rest@),
            all.len() == entries@.len(),
            exits_of(all.subrange(0, i as int)) == Ok::<Seq<(i32, Seq<char>, Option<Seq<char>>)>, Seq<char>>(
                exits@.map_values(|e: ExitCode| exit_view(e)),
            ),
        decreases entries.len() - i,
    {
        let ghost prev = exits@.map_values(|e: ExitCode| exit_view(e));
        let ghost entry = all[i as int];
        assert(all.subrange(0, i + 1).drop_last() =~= all.subrange(0, i as int));
        assert(all.subrange(0, i + 1).last() == entry);
        assert(entry == entries@[i as int]@);
        let (code_tok, after_code) = split_first_word(entries[i].as_str());
        let code = match parse_i32(code_tok.as_str()) {
            Some(c) => c,
            None => {
                let mut m = owned("invalid exit code `");
                push_str(&mut m, code_tok.as_str());
                push_str(&mut m, "` in `# exits:`");
                assert(exit_entry(entry, prev) == Err::<(i32, Seq<char>, Option<Seq<char>>), Seq<char>>(m@));
                proof {
                    lemma_exits_error_stays(all, i + 1);
                }
                return Err(m);
            },
        };
        let (name, after_name) = split_first_word(after_code.as_str());
        if name.as_str().unicode_len() == 0 {
            let m = exits_error("exit code ", code, " in `# exits:` is missing a name");
            assert(exit_entry(entry, prev) == Err::<(i32, Seq<char>, Option<Seq<char>>), Seq<char>>(m@));
            proof {
                lemma_exits_error_stays(all, i + 1);
            }
            return Err(m);
        }
        if !is_dsl_ident(name.as_str()) {
            let mut m = owned("exit code name `");
            push_str(&mut m, name.as_str());
            push_str(&mut m, "` in `# exits:` isn't a valid identifier");
            assert(exit_entry(entry, prev) == Err::<(i32, Seq<char>, Option<Seq<char>>), Seq<char>>(m@));
            proof {
                lemma_exits_error_stays(all, i + 1);
            }
            return Err(m);
        }
        let mut k: usize = 0;
        #[verifier::loop_isolation(false)]
        while k < exits.len()
            invariant
                k <= exits@.len(),
                prev == exits@.map_values(|e: ExitCode| exit_view(e)),
                forall|j: int| 0 <= j < k ==> (#[trigger] prev[j]).1 != name@,
            decreases exits.len() - k,
        {
            if crate::text::str_eq(exits[k].name.as_str(), name.as_str()) {
                assert(prev[k as int].1 == name@);
                let mut m = owned("duplicate exit code name `");
                push_str(&mut m, name.as_str());
                push_str(&mut m, "` in `# exits:`");
                proof {
                    lemma_exits_error_stays(all, i + 1);
                }
                return Err(m);
            }
            k += 1;
        }
        assert(!named_before(prev, name@));
        let desc = match parse_exit_desc(after_name.as_str(), code) {
            Ok(d) => d,
            Err(e) => {
                proof {
                    lemma_exits_error_stays(all, i + 1);
                }
                return Err(e);
            },
        };
        let ghost before = exits@;
        exits.push(ExitCode { code, name, desc });
        assert(exits@.map_values(|e: ExitCode| exit_view(e)) =~= before.map_values(|e: ExitCode| exit_view(e)).push(
            exit_view(exits@[i as int]),
        ));
        i += 1;
    }
    assert(all.subrange(0, entries@.len() as int) =~= all);
    Ok(exits)
}

// ---------------------------------------------------------------------------
// The `# params:` header
// ---------------------------------------------------------------------------

/// Scanning a `# params:` value: the tokens finished so far (trimmed,
/// non-empty), the current token, the `[`/`{` nesting depth, and whether a
/// `"` is open. Commas and whitespace separate tokens only at depth 0 outside
/// quotes.
pub open spec fn param_scan(s: Seq<char>) -> (Seq<Seq<char>>, Seq<char>, int, bool)
    decreases s.len(),
{
    if s.len() == 0 {
        (Seq::empty(), Seq::empty(), 0, false)
    } else {
        let (done, cur, depth, quoted) = param_scan(s.drop_last());
        let c = s.last();
        if c == '"' {
            (done, cur.push(c), depth, !quoted)
        } else if (c == '[' || c == '{') && !quoted {
            (done, cur.push(c), depth + 1, quoted)
        } else if (c == ']' || c == '}') && !quoted {
            (done, cur.push(c), depth - 1, quoted)
        } else if (c == ',' || is_ws(c)) && !quoted && depth == 0 {
            (if trim_seq(cur).len() > 0 { done.push(trim_seq(cur)) } else { done }, Seq::empty(), depth, quoted)
        } else {
            (done, cur.push(c), depth, quoted)
        }
    }
}

/// The tokens of a `# params:` value.
pub open spec fn param_tokens(s: Seq<char>) -> Seq<Seq<char>> {
    let (done, cur, _, _) = param_scan(s);
    if trim_seq(cur).len() > 0 {
        done.push(trim_seq(cur))
    } else {
        done
    }
}

/// The nesting depth stays within an `i32` all along `s`.
pub open spec fn depth_fits(s: Seq<char>) -> bool {
    forall|i: int| 0 <= i <= s.len() ==> i32::MIN <= (#[trigger] param_scan(s.subrange(0, i))).2 <= i32::MAX
}

/// Splits a `# params:` value into trimmed, non-empty tokens, treating commas
/// and whitespace as separators only at the top level — never inside a
/// `[]`/`{}` type or a `"..."` object key.
pub fn split_params(rest: &str) -> (r: Vec<String>)
    requires
        depth_fits(rest@),
    ensures
        views(r@) == param_tokens(rest@),
{
    let v = chars_of(rest);
    let mut tokens: Vec<String> = Vec::new();
    let mut current = String::new();
    let mut depth: i32 = 0;
    let mut in_string = false;
    let mut i: usize = 0;
    assert(v@.subrange(0, 0) =~= Seq::<char>::empty());
    while i < v.len()
        invariant
            i <= v@.len(),
            v@ == rest@,
            depth_fits(rest@),
            param_scan(v@.subrange(0, i as int)) == (views(tokens@), current@, depth as int, in_string),
        decreases v.len() - i,
    {
        let c = v[i];
        assert(v@.subrange(0, i + 1).drop_last() =~= v@.subrange(0, i as int));
        assert(i32::MIN <= param_scan(rest@.subrange(0, i + 1)).2 <= i32::MAX);
        if c == '"' {
            in_string = !in_string;
            push_char(&mut current, c);
        } else if (c == '[' || c == '{') && !in_string {
            depth = depth + 1;
            push_char(&mut current, c);
        } else if (c == ']' || c == '}') && !in_string {
            depth = depth - 1;
            push_char(&mut current, c);
        } else if (c == ',' || is_whitespace(c)) && !in_string && depth == 0 {
            let t = trim(current.as_str());
            if t.as_str().unicode_len() > 0 {
                let ghost before = tokens@;
                tokens.push(t);
                assert(views(tokens@) =~= views(before).push(trim_seq(current@)));
            }
            current = String::new();
        } else {
            push_char(&mut current, c);
        }
        i += 1;
    }
    assert(v@.subrange(0, v@.len() as int) =~= rest@);
    let t = trim(current.as_str());
    if t.as_str().unicode_len() > 0 {
        let ghost before = tokens@;
        tokens.push(t);
        assert(views(tokens@) =~= views(before).push(trim_seq(current@)));
    }
    tokens
}

// ---------------------------------------------------------------------------
// Refused scripts and finished runs
// ---------------------------------------------------------------------------

/// Why a tool script can't back a tool.
#[derive(Debug)]
pub enum ScriptError {
    /// The script couldn't be resolved or read — most often it doesn't exist.
    /// Carries the path as given and the reason the system gave.
    Unreadable { path: String, source: String },
    /// The script exists but isn't executable. Carries the resolved path, the
    /// exact `chmod` target.
    NotExecutable { path: String },
}

impl ScriptError {
    pub open spec fn message(self) -> Seq<char> {
        match self {
            ScriptError::Unreadable { path, source } => "tool script "@ + path@ + " can't be read: "@
                + source@,
            ScriptError::NotExecutable { path } => "tool script "@ + path@ + " isn't executable"@,
        }
    }

    /// The error's one-line description.
    pub fn to_string(&self) -> (r: String)
        ensures
            r@ == self.message(),
    {
        match self {
            ScriptError::Unreadable { path, source } => {
                let mut m = owned("tool script ");
                push_str(&mut m, path.as_str());
                push_str(&mut m, " can't be read: ");
                push_str(&mut m, source.as_str());
                m
            },
            ScriptError::NotExecutable { path } => {
                let mut m = owned("tool script ");
                push_str(&mut m, path.as_str());
                push_str(&mut m, " isn't executable");
                m
            },
        }
    }
}

/// What `define tool` says about a script it refuses: the reason, and how to
/// fix it.
pub open spec fn refusal(e: ScriptError) -> Seq<char> {
    match e {
        ScriptError::Unreadable { path, source } => "tool script "@ + path@ + " can't be read: "@
            + source@ + "\n  Check the path is right and the file exists."@,
        ScriptError::NotExecutable { path } => crate::text::join_seq(
            seq![
                "tool script "@ + path@ + " isn't executable."@,
                ""@,
                "  Make it runnable:"@,
                "      chmod +x "@ + path@,
                ""@,
                "  (It also needs a shebang line, e.g. #!/bin/sh.)"@,
            ],
            "\n"@,
        ),
    }
}

/// Turns the outcome of preparing a tool script — its resolved path, or why
/// it can't run — into what `define tool` reports.
pub fn resolve_script(prepared: Result<String, ScriptError>) -> (r: Result<String, String>)
    ensures
        match prepared {
            Ok(p) => r == Ok::<String, String>(p),
            Err(e) => r matches Err(m) && m@ == refusal(e),
        },
{
    match prepared {
        Ok(p) => Ok(p),
        Err(ScriptError::Unreadable { path, source }) => {
            let mut m = owned("tool script ");
            push_str(&mut m, path.as_str());
            push_str(&mut m, " can't be read: ");
            push_str(&mut m, source.as_str());
            push_str(&mut m, "\n  Check the path is right and the file exists.");
            Err(m)
        },
        Err(ScriptError::NotExecutable { path }) => {
            let mut l: Vec<String> = Vec::new();
            let mut first = owned("tool script ");
            push_str(&mut first, path.as_str());
            push_str(&mut first, " isn't executable.");
            crate::display::add_line(&mut l, first);
            crate::display::add_lit(&mut l, "");
            crate::display::add_lit(&mut l, "  Make it runnable:");
            let mut chmod = owned("      chmod +x ");
            push_str(&mut chmod, path.as_str());
            crate::display::add_line(&mut l, chmod);
            crate::display::add_lit(&mut l, "");
            crate::display::add_lit(&mut l, "  (It also needs a shebang line, e.g. #!/bin/sh.)");
            assert(views(l@) =~= seq![
                "tool script "@ + path@ + " isn't executable."@,
                ""@,
                "  Make it runnable:"@,
                "      chmod +x "@ + path@,
                ""@,
                "  (It also needs a shebang line, e.g. #!/bin/sh.)"@,
            ]);
            Err(join(&l, "\n"))
        },
    }
}

/// The outcome of running a script: whether it exited successfully, its exit
/// status (none when a signal ended it), its combined stdout and stderr, and
/// the structured result it wrote to `$SP_OUTPUT_PATH`, if any.
#[derive(Debug, PartialEq, Eq)]
pub struct ScriptRun {
    pub success: bool,
    pub code: Option<i32>,
    pub output: String,
    pub structured_output: Option<String>,
}

/// stdout, then stderr on a line of its own when both have text.
pub open spec fn combined_output(stdout: Seq<char>, stderr: Seq<char>) -> Seq<char> {
    if stderr.len() == 0 {
        stdout
    } else if stdout.len() == 0 {
        stderr
    } else {
        stdout + seq!['\n'] + stderr
    }
}

/// Assembles a finished run: stdout and stderr combined, and the structured
/// output kept only when it holds more than whitespace.
pub fn finish_run(success: bool, code: Option<i32>, stdout: String, stderr: String, written: Option<String>) -> (r: ScriptRun)
    ensures
        r.success == success,
        r.code == code,
        r.output@ == combined_output(stdout@, stderr@),
        match written {
            Some(w) => if trim_seq(w@).len() > 0 {
                r.structured_output == Some(w)
            } else {
                r.structured_output is None
            },
            None => r.structured_output is None,
        },
{
    let mut combined = stdout;
    if stderr.as_str().unicode_len() > 0 {
        if combined.as_str().unicode_len() > 0 {
            push_char(&mut combined, '\n');
        }
        push_str(&mut combined, stderr.as_str());
    }
    let structured_output = match written {
        Some(w) => if trim(w.as_str()).as_str().unicode_len() > 0 {
            Some(w)
        } else {
            None
        },
        None => None,
    };
    ScriptRun { success, code, output: combined, structured_output }
}

/// The script a new tool starts as: a shell script whose header names it
/// and leaves its description and parameters to fill in.
pub open spec fn tool_template(name: Seq<char>) -> Seq<char> {
    "#!/bin/sh\n# desc: "@ + name
        + " \u{2014} describe what this tool does\n# params: \n\n# Arguments arrive as environment variables named after each param.\necho \"hello from "@
        + name + "\"\n"@
}

/// The starting script of a new tool named `name`.
pub fn tool_script_template(name: &str) -> (r: String)
    ensures
        r@ == tool_template(name@),
{
    let mut s = owned("#!/bin/sh\n# desc: ");
    push_str(&mut s, name);
    push_str(
        &mut s,
        " \u{2014} describe what this tool does\n# params: \n\n# Arguments arrive as environment variables named after each param.\necho \"hello from ",
    );
    push_str(&mut s, name);
    push_str(&mut s, "\"\n");
    s
}

} // verus!
