//! Character and string helpers shared by every module: conversions between
//! `String` and character vectors, the Unicode whitespace class, trimming,
//! substring search, lexicographic order and decimal rendering.

use vstd::prelude::*;
use vstd::string::*;

verus! {

// ---------------------------------------------------------------------------
// Character classes
// ---------------------------------------------------------------------------

/// Unicode `White_Space`, the class `char::is_whitespace` (and so `str::trim`)
/// uses.
pub open spec fn is_ws(c: char) -> bool {
    ||| ('\u{9}' <= c && c <= '\u{d}')
    ||| c == ' '
    ||| c == '\u{85}'
    ||| c == '\u{a0}'
    ||| c == '\u{1680}'
    ||| ('\u{2000}' <= c && c <= '\u{200a}')
    ||| c == '\u{2028}'
    ||| c == '\u{2029}'
    ||| c == '\u{202f}'
    ||| c == '\u{205f}'
    ||| c == '\u{3000}'
}

pub fn is_whitespace(c: char) -> (r: bool)
    ensures
        r == is_ws(c),
{
    ('\u{9}' <= c && c <= '\u{d}') || c == ' ' || c == '\u{85}' || c == '\u{a0}' || c
        == '\u{1680}' || ('\u{2000}' <= c && c <= '\u{200a}') || c == '\u{2028}' || c
        == '\u{2029}' || c == '\u{202f}' || c == '\u{205f}' || c == '\u{3000}'
}

pub open spec fn is_alpha(c: char) -> bool {
    ('a' <= c && c <= 'z') || ('A' <= c && c <= 'Z')
}

pub open spec fn is_digit(c: char) -> bool {
    '0' <= c && c <= '9'
}

pub open spec fn is_alnum(c: char) -> bool {
    is_alpha(c) || is_digit(c)
}

pub fn is_ascii_alpha(c: char) -> (r: bool)
    ensures
        r == is_alpha(c),
{
    ('a' <= c && c <= 'z') || ('A' <= c && c <= 'Z')
}

pub fn is_ascii_alnum(c: char) -> (r: bool)
    ensures
        r == is_alnum(c),
{
    ('a' <= c && c <= 'z') || ('A' <= c && c <= 'Z') || ('0' <= c && c <= '9')
}

// ---------------------------------------------------------------------------
// Building strings
// ---------------------------------------------------------------------------

/// `String::push`: appends one character.
#[verifier::external_body]
pub fn push_char(s: &mut String, c: char)
    ensures
        final(s)@ == old(s)@.push(c),
{
    s.push(c)
}

/// Appends `t` to `s`.
pub fn push_str(s: &mut String, t: &str)
    ensures
        final(s)@ == old(s)@ + t@,
{
    s.append(t);
}

/// A fresh `String` holding the literal or slice `t`.
pub fn owned(t: &str) -> (r: String)
    ensures
        r@ == t@,
{
    String::from_str(t)
}

/// The characters of `s`, in order.
pub fn chars_of(s: &str) -> (r: Vec<char>)
    ensures
        r@ == s@,
{
    let n = s.unicode_len();
    let mut v: Vec<char> = Vec::new();
    let mut i: usize = 0;
    while i < n
        invariant
            n == s@.len(),
            i <= n,
            v@ == s@.subrange(0, i as int),
        decreases n - i,
    {
        let c = s.get_char(i);
        v.push(c);
        i += 1;
    }
    v
}

/// The `String` spelled by `v[lo..hi]`.
pub fn string_of_range(v: &Vec<char>, lo: usize, hi: usize) -> (r: String)
    requires
        lo <= hi <= v@.len(),
    ensures
        r@ == v@.subrange(lo as int, hi as int),
{
    let mut s = String::new();
    let mut i: usize = lo;
    while i < hi
        invariant
            lo <= i <= hi <= v@.len(),
            s@ == v@.subrange(lo as int, i as int),
        decreases hi - i,
    {
        push_char(&mut s, v[i]);
        i += 1;
    }
    s
}

/// The `String` spelled by `v`.
pub fn string_of(v: &Vec<char>) -> (r: String)
    ensures
        r@ == v@,
{
    string_of_range(v, 0, v.len())
}

/// Concatenation of `parts` with `sep` between consecutive parts.
pub open spec fn join_seq(parts: Seq<Seq<char>>, sep: Seq<char>) -> Seq<char>
    decreases parts.len(),
{
    if parts.len() == 0 {
        Seq::empty()
    } else if parts.len() == 1 {
        parts[0]
    } else {
        join_seq(parts.drop_last(), sep) + sep + parts.last()
    }
}

pub open spec fn views(v: Seq<String>) -> Seq<Seq<char>> {
    v.map_values(|s: String| s@)
}

/// `parts.join(sep)`.
pub fn join(parts: &Vec<String>, sep: &str) -> (r: String)
    ensures
        r@ == join_seq(views(parts@), sep@),
{
    let mut res = String::new();
    let mut i: usize = 0;
    while i < parts.len()
        invariant
            i <= parts@.len(),
            res@ == join_seq(views(parts@.subrange(0, i as int)), sep@),
        decreases parts.len() - i,
    {
        proof {
            assert(views(parts@.subrange(0, i + 1)).drop_last() =~= views(
                parts@.subrange(0, i as int),
            ));
        }
        if i != 0 {
            push_str(&mut res, sep);
        }
        push_str(&mut res, parts[i].as_str());
        i += 1;
    }
    proof {
        assert(parts@.subrange(0, parts@.len() as int) =~= parts@);
    }
    res
}

// ---------------------------------------------------------------------------
// Trimming
// ---------------------------------------------------------------------------

pub open spec fn trim_start_seq(s: Seq<char>) -> Seq<char>
    decreases s.len(),
{
    if s.len() > 0 && is_ws(s[0]) {
        trim_start_seq(s.drop_first())
    } else {
        s
    }
}

pub open spec fn trim_end_seq(s: Seq<char>) -> Seq<char>
    decreases s.len(),
{
    if s.len() > 0 && is_ws(s.last()) {
        trim_end_seq(s.drop_last())
    } else {
        s
    }
}

/// `str::trim`: leading and trailing whitespace removed.
pub open spec fn trim_seq(s: Seq<char>) -> Seq<char> {
    trim_end_seq(trim_start_seq(s))
}

/// The bounds of `v[lo..hi]` after leading whitespace is skipped.
pub fn skip_ws_start(v: &Vec<char>, lo: usize, hi: usize) -> (r: usize)
    requires
        lo <= hi <= v@.len(),
    ensures
        lo <= r <= hi,
        v@.subrange(r as int, hi as int) == trim_start_seq(v@.subrange(lo as int, hi as int)),
{
    let mut i = lo;
    while i < hi && is_whitespace(v[i])
        invariant
            lo <= i <= hi <= v@.len(),
            trim_start_seq(v@.subrange(i as int, hi as int)) == trim_start_seq(
                v@.subrange(lo as int, hi as int),
            ),
        decreases hi - i,
    {
        assert(v@.subrange(i as int, hi as int).drop_first() =~= v@.subrange(i + 1, hi as int));
        i += 1;
    }
    i
}

/// The end of `v[lo..hi]` after trailing whitespace is dropped.
pub fn skip_ws_end(v: &Vec<char>, lo: usize, hi: usize) -> (r: usize)
    requires
        lo <= hi <= v@.len(),
    ensures
        lo <= r <= hi,
        v@.subrange(lo as int, r as int) == trim_end_seq(v@.subrange(lo as int, hi as int)),
{
    let mut j = hi;
    while j > lo && is_whitespace(v[j - 1])
        invariant
            lo <= j <= hi <= v@.len(),
            trim_end_seq(v@.subrange(lo as int, j as int)) == trim_end_seq(
                v@.subrange(lo as int, hi as int),
            ),
        decreases j - lo,
    {
        assert(v@.subrange(lo as int, j as int).drop_last() =~= v@.subrange(lo as int, j - 1));
        j -= 1;
    }
    j
}

/// The bounds of the trimmed part of `v[lo..hi]`.
pub fn trim_bounds(v: &Vec<char>, lo: usize, hi: usize) -> (r: (usize, usize))
    requires
        lo <= hi <= v@.len(),
    ensures
        lo <= r.0 <= r.1 <= hi,
        v@.subrange(r.0 as int, r.1 as int) == trim_seq(v@.subrange(lo as int, hi as int)),
{
    let a = skip_ws_start(v, lo, hi);
    let b = skip_ws_end(v, a, hi);
    (a, b)
}

/// `s.trim()`, as an owned string.
pub fn trim(s: &str) -> (r: String)
    ensures
        r@ == trim_seq(s@),
{
    let v = chars_of(s);
    let (a, b) = trim_bounds(&v, 0, v.len());
    assert(v@.subrange(0, v@.len() as int) =~= v@);
    string_of_range(&v, a, b)
}

// ---------------------------------------------------------------------------
// Splitting
// ---------------------------------------------------------------------------

/// `str::split_once(c)`: the text before the first `c` and the text after it.
pub open spec fn split_once_seq(s: Seq<char>, c: char) -> Option<(Seq<char>, Seq<char>)>
    decreases s.len(),
{
    if s.len() == 0 {
        None
    } else if s[0] == c {
        Some((Seq::empty(), s.drop_first()))
    } else {
        match split_once_seq(s.drop_first(), c) {
            Some(p) => Some((seq![s[0]] + p.0, p.1)),
            None => None,
        }
    }
}

/// `str::split(c)`: the pieces of `s` between occurrences of `c` (an empty
/// text is one empty piece).
pub open spec fn split_seq(s: Seq<char>, c: char) -> Seq<Seq<char>>
    decreases s.len(),
{
    if s.len() == 0 {
        seq![Seq::empty()]
    } else {
        let r = split_seq(s.drop_last(), c);
        if s.last() == c {
            r.push(Seq::empty())
        } else {
            r.update(r.len() - 1, r.last().push(s.last()))
        }
    }
}

/// The trimmed pieces that are not empty, in order.
pub open spec fn kept_pieces(pieces: Seq<Seq<char>>) -> Seq<Seq<char>>
    decreases pieces.len(),
{
    if pieces.len() == 0 {
        Seq::empty()
    } else {
        let r = kept_pieces(pieces.drop_last());
        if trim_seq(pieces.last()).len() > 0 {
            r.push(trim_seq(pieces.last()))
        } else {
            r
        }
    }
}

proof fn lemma_split_once_at(s: Seq<char>, c: char, j: int)
    requires
        0 <= j < s.len(),
        s[j] == c,
        forall|i: int| 0 <= i < j ==> s[i] != c,
    ensures
        split_once_seq(s, c) == Some((s.subrange(0, j), s.subrange(j + 1, s.len() as int))),
    decreases j,
{
    if j > 0 {
        lemma_split_once_at(s.drop_first(), c, j - 1);
        assert(seq![s[0]] + s.drop_first().subrange(0, j - 1) =~= s.subrange(0, j));
        assert(s.drop_first().subrange(j, s.len() - 1) =~= s.subrange(j + 1, s.len() as int));
    }
}

proof fn lemma_split_once_none(s: Seq<char>, c: char)
    requires
        forall|i: int| 0 <= i < s.len() ==> s[i] != c,
    ensures
        split_once_seq(s, c) is None,
    decreases s.len(),
{
    if s.len() > 0 {
        lemma_split_once_none(s.drop_first(), c);
    }
}

/// `s.split_once(c)`, as owned strings.
pub fn split_once(s: &str, c: char) -> (r: Option<(String, String)>)
    ensures
        match r {
            Some(p) => split_once_seq(s@, c) == Some((p.0@, p.1@)),
            None => split_once_seq(s@, c) is None,
        },
{
    let v = chars_of(s);
    let mut j: usize = 0;
    while j < v.len()
        invariant
            j <= v@.len(),
            v@ == s@,
            forall|i: int| 0 <= i < j ==> v@[i] != c,
        decreases v.len() - j,
    {
        if v[j] == c {
            proof {
                lemma_split_once_at(s@, c, j as int);
            }
            let a = string_of_range(&v, 0, j);
            let b = string_of_range(&v, j + 1, v.len());
            return Some((a, b));
        }
        j += 1;
    }
    proof {
        lemma_split_once_none(s@, c);
    }
    None
}

/// `s.split(c)`, each piece trimmed, empty pieces dropped.
pub fn split_trimmed(s: &str, c: char) -> (r: Vec<String>)
    ensures
        views(r@) == kept_pieces(split_seq(s@, c)),
{
    let v = chars_of(s);
    let n = v.len();
    let mut out: Vec<String> = Vec::new();
    let mut start: usize = 0;
    let mut i: usize = 0;
    let ghost mut done: Seq<Seq<char>> = Seq::empty();
    assert(v@.subrange(0, 0) =~= Seq::<char>::empty());
    while i < n
        invariant
            start <= i <= n,
            n == v@.len(),
            v@ == s@,
            split_seq(v@.subrange(0, i as int), c) == done.push(v@.subrange(start as int, i as int)),
            views(out@) == kept_pieces(done),
        decreases n - i,
    {
        let ghost prev = v@.subrange(0, i as int);
        assert(v@.subrange(0, i + 1).drop_last() =~= prev);
        assert(v@.subrange(0, i + 1).last() == v@[i as int]);
        if v[i] == c {
            let (a, b) = trim_bounds(&v, start, i);
            let ghost piece = v@.subrange(start as int, i as int);
            if a < b {
                let ghost before = out@;
                out.push(string_of_range(&v, a, b));
                assert(views(out@) =~= views(before).push(trim_seq(piece)));
            }
            proof {
                assert(done.push(piece).drop_last() =~= done);
                done = done.push(piece);
            }
            start = i + 1;
            assert(v@.subrange(start as int, start as int) =~= Seq::<char>::empty());
        } else {
            assert(v@.subrange(start as int, i + 1) =~= v@.subrange(start as int, i as int).push(v@[i as int]));
            assert(done.push(v@.subrange(start as int, i as int)).update(done.len() as int, v@.subrange(start as int, i + 1))
                =~= done.push(v@.subrange(start as int, i + 1)));
        }
        i += 1;
    }
    let (a, b) = trim_bounds(&v, start, n);
    let ghost piece = v@.subrange(start as int, n as int);
    if a < b {
        let ghost before = out@;
        out.push(string_of_range(&v, a, b));
        assert(views(out@) =~= views(before).push(trim_seq(piece)));
    }
    assert(v@.subrange(0, n as int) =~= s@);
    assert(done.push(piece).drop_last() =~= done);
    out
}

// ---------------------------------------------------------------------------
// Lowercasing and substring search
// ---------------------------------------------------------------------------

/// What `str::to_lowercase` returns for a string: Unicode's full lowercase
/// mapping, which is context sensitive (a final sigma), so it is named rather
/// than spelled out.
pub uninterp spec fn lowercase(s: Seq<char>) -> Seq<char>;

/// `str::to_lowercase`; its result is `lowercase` of the input's characters.
#[verifier::external_body]
pub fn to_lowercase(s: &str) -> (r: String)
    ensures
        r@ == lowercase(s@),
{
    s.to_lowercase()
}

/// `needle` occurs in `hay` as a contiguous run (the empty needle always does).
pub open spec fn has_substring(hay: Seq<char>, needle: Seq<char>) -> bool {
    exists|i: int| 0 <= i <= hay.len() - needle.len() && #[trigger] hay.subrange(i, i + needle.len()) == needle
}

/// The middle of a concatenation occurs in it.
pub proof fn lemma_substring_of_concat(a: Seq<char>, b: Seq<char>, c: Seq<char>)
    ensures
        has_substring(a + b + c, b),
{
    let h = a + b + c;
    assert(h.subrange(a.len() as int, (a.len() + b.len()) as int) =~= b);
}

/// What occurs in a substring occurs in the whole.
pub proof fn lemma_substring_trans(a: Seq<char>, b: Seq<char>, c: Seq<char>)
    requires
        has_substring(a, b),
        has_substring(b, c),
    ensures
        has_substring(a, c),
{
    let i = choose|i: int| 0 <= i <= a.len() - b.len() && #[trigger] a.subrange(i, i + b.len()) == b;
    let j = choose|j: int| 0 <= j <= b.len() - c.len() && #[trigger] b.subrange(j, j + c.len()) == c;
    assert(a.subrange(i + j, i + j + c.len()) =~= c);
}

/// Each part of a join occurs in the joined text.
pub proof fn lemma_join_has_part(parts: Seq<Seq<char>>, sep: Seq<char>, k: int)
    requires
        0 <= k < parts.len(),
    ensures
        has_substring(join_seq(parts, sep), parts[k]),
    decreases parts.len(),
{
    if parts.len() == 1 {
        assert(join_seq(parts, sep) == parts[0]);
        assert(parts[0].subrange(0int, 0int + parts[0].len()) =~= parts[0]);
    } else {
        let front = join_seq(parts.drop_last(), sep);
        if k == parts.len() - 1 {
            lemma_substring_of_concat(front + sep, parts.last(), Seq::empty());
            assert(front + sep + parts.last() + Seq::<char>::empty() =~= front + sep + parts.last());
            assert(join_seq(parts, sep) == front + sep + parts.last());
        } else {
            lemma_join_has_part(parts.drop_last(), sep, k);
            assert(parts.drop_last()[k] == parts[k]);
            assert(join_seq(parts, sep) == front + sep + parts.last());
            lemma_substring_of_concat(Seq::empty(), front, sep + parts.last());
            assert(Seq::<char>::empty() + front + (sep + parts.last()) =~= front + sep + parts.last());
            lemma_substring_trans(join_seq(parts, sep), front, parts[k]);
        }
    }
}

fn matches_at(hay: &Vec<char>, needle: &Vec<char>, i: usize) -> (r: bool)
    requires
        i + needle@.len() <= hay@.len(),
    ensures
        r == (hay@.subrange(i as int, i + needle@.len()) == needle@),
{
    let hl = hay.len();
    let mut k: usize = 0;
    while k < needle.len()
        invariant
            hl == hay@.len(),
            i + needle@.len() <= hay@.len(),
            k <= needle@.len(),
            forall|t: int| 0 <= t < k ==> hay@[i + t] == needle@[t],
        decreases needle.len() - k,
    {
        if hay[i + k] != needle[k] {
            assert(hay@.subrange(i as int, i + needle@.len())[k as int] != needle@[k as int]);
            return false;
        }
        k += 1;
    }
    assert(hay@.subrange(i as int, i + needle@.len()) =~= needle@);
    true
}

/// `str::contains` for a string needle.
pub fn contains_chars(hay: &Vec<char>, needle: &Vec<char>) -> (r: bool)
    ensures
        r == has_substring(hay@, needle@),
{
    if needle.len() == 0 {
        assert(hay@.subrange(0int, 0int + needle@.len()) =~= needle@);
        return true;
    }
    if needle.len() > hay.len() {
        return false;
    }
    let last = hay.len() - needle.len();
    let mut i: usize = 0;
    while i <= last
        invariant
            last + needle@.len() == hay@.len(),
            needle@.len() > 0,
            hay@.len() <= usize::MAX,
            i <= last + 1,
            forall|j: int| 0 <= j < i ==> #[trigger] hay@.subrange(j, j + needle@.len()) != needle@,
        decreases last + 1 - i,
    {
        if matches_at(hay, needle, i) {
            return true;
        }
        i += 1;
    }
    false
}

// ---------------------------------------------------------------------------
// Lexicographic order
// ---------------------------------------------------------------------------

/// Code-point lexicographic order, which is the order `String`'s `Ord` gives
/// (UTF-8 preserves code-point order byte for byte).
pub open spec fn seq_le(a: Seq<char>, b: Seq<char>) -> bool
    decreases a.len(),
{
    if a.len() == 0 {
        true
    } else if b.len() == 0 {
        false
    } else if a[0] != b[0] {
        a[0] < b[0]
    } else {
        seq_le(a.drop_first(), b.drop_first())
    }
}

pub proof fn lemma_seq_le_total(a: Seq<char>, b: Seq<char>)
    ensures
        seq_le(a, b) || seq_le(b, a),
    decreases a.len(),
{
    if a.len() > 0 && b.len() > 0 && a[0] == b[0] {
        lemma_seq_le_total(a.drop_first(), b.drop_first());
    }
}

pub proof fn lemma_seq_le_trans(a: Seq<char>, b: Seq<char>, c: Seq<char>)
    requires
        seq_le(a, b),
        seq_le(b, c),
    ensures
        seq_le(a, c),
    decreases a.len(),
{
    if a.len() > 0 && b.len() > 0 && c.len() > 0 && a[0] == b[0] && b[0] == c[0] {
        lemma_seq_le_trans(a.drop_first(), b.drop_first(), c.drop_first());
    }
}

#[verifier::spinoff_prover]
pub proof fn lemma_seq_le_antisym(a: Seq<char>, b: Seq<char>)
    requires
        seq_le(a, b),
        seq_le(b, a),
    ensures
        a == b,
    decreases a.len(),
{
    if a.len() > 0 && b.len() > 0 {
        assert(a[0] == b[0]);
        assert(seq_le(a.drop_first(), b.drop_first()));
        assert(seq_le(b.drop_first(), a.drop_first()));
        lemma_seq_le_antisym(a.drop_first(), b.drop_first());
        assert(a =~= seq![a[0]] + a.drop_first());
        assert(b =~= seq![b[0]] + b.drop_first());
    } else {
        assert(a =~= b);
    }
}

pub proof fn lemma_seq_le_refl(a: Seq<char>)
    ensures
        seq_le(a, a),
    decreases a.len(),
{
    if a.len() > 0 {
        lemma_seq_le_refl(a.drop_first());
    }
}

/// Character-wise equality of two strings.
pub fn chars_eq(a: &Vec<char>, b: &Vec<char>) -> (r: bool)
    ensures
        r == (a@ == b@),
{
    if a.len() != b.len() {
        return false;
    }
    let mut i: usize = 0;
    while i < a.len()
        invariant
            a@.len() == b@.len(),
            i <= a@.len(),
            forall|j: int| 0 <= j < i ==> a@[j] == b@[j],
        decreases a.len() - i,
    {
        if a[i] != b[i] {
            return false;
        }
        i += 1;
    }
    assert(a@ =~= b@);
    true
}

/// `a == b` for string slices.
pub fn str_eq(a: &str, b: &str) -> (r: bool)
    ensures
        r == (a@ == b@),
{
    let x = chars_of(a);
    let y = chars_of(b);
    chars_eq(&x, &y)
}

/// `a <= b` for the `String` order.
pub fn chars_le(a: &Vec<char>, b: &Vec<char>) -> (r: bool)
    ensures
        r == seq_le(a@, b@),
{
    let mut i: usize = 0;
    proof {
        assert(a@.subrange(0, a@.len() as int) =~= a@);
        assert(b@.subrange(0, b@.len() as int) =~= b@);
    }
    while i < a.len() && i < b.len() && a[i] == b[i]
        invariant
            i <= a@.len(),
            i <= b@.len(),
            seq_le(a@.subrange(i as int, a@.len() as int), b@.subrange(i as int, b@.len() as int))
                == seq_le(a@, b@),
        decreases a.len() - i,
    {
        assert(a@.subrange(i as int, a@.len() as int).drop_first() =~= a@.subrange(
            i + 1,
            a@.len() as int,
        ));
        assert(b@.subrange(i as int, b@.len() as int).drop_first() =~= b@.subrange(
            i + 1,
            b@.len() as int,
        ));
        i += 1;
    }
    proof {
        assert(a@.subrange(0, a@.len() as int) =~= a@);
        assert(b@.subrange(0, b@.len() as int) =~= b@);
    }
    if i == a.len() {
        true
    } else if i == b.len() {
        false
    } else {
        a[i] < b[i]
    }
}

pub fn str_le(a: &str, b: &str) -> (r: bool)
    ensures
        r == seq_le(a@, b@),
{
    let x = chars_of(a);
    let y = chars_of(b);
    chars_le(&x, &y)
}

// ---------------------------------------------------------------------------
// Decimal rendering
// ---------------------------------------------------------------------------

pub open spec fn digit_char(d: nat) -> char {
    (('0' as u32) + d) as char
}

/// The decimal digits of `n`, most significant first, with no padding
/// (`0` renders as `"0"`).
pub open spec fn decimal(n: nat) -> Seq<char>
    decreases n,
{
    if n < 10 {
        seq![digit_char(n)]
    } else {
        decimal(n / 10).push(digit_char(n % 10))
    }
}

/// `n` in decimal, left-padded with `'0'` to at least `width` characters
/// (the `{:0width}` format).
pub open spec fn padded(n: nat, width: nat) -> Seq<char> {
    let d = decimal(n);
    if d.len() >= width {
        d
    } else {
        Seq::new((width - d.len()) as nat, |_i: int| '0') + d
    }
}

fn digit(d: u64) -> (c: char)
    requires
        d < 10,
    ensures
        c == digit_char(d as nat),
{
    if d == 0 { '0' } else if d == 1 { '1' } else if d == 2 { '2' } else if d == 3 { '3' }
    else if d == 4 { '4' } else if d == 5 { '5' } else if d == 6 { '6' } else if d == 7 { '7' }
    else if d == 8 { '8' } else { '9' }
}

fn digits_rev(n: u64) -> (r: Vec<char>)
    ensures
        r@.reverse() == decimal(n as nat),
    decreases n,
{
    let c = digit(n % 10);
    if n < 10 {
        let mut v = Vec::new();
        v.push(c);
        assert(v@.reverse() =~= seq![c]);
        v
    } else {
        let rest = digits_rev(n / 10);
        let mut v = Vec::new();
        v.push(c);
        let mut i: usize = 0;
        while i < rest.len()
            invariant
                i <= rest@.len(),
                v@ == seq![c] + rest@.subrange(0, i as int),
            decreases rest.len() - i,
        {
            v.push(rest[i]);
            i += 1;
        }
        assert(rest@.subrange(0, rest@.len() as int) =~= rest@);
        assert(v@.reverse() =~= rest@.reverse().push(c));
        v
    }
}

/// Appends `n` in decimal, zero-padded to at least `width` characters.
pub fn push_padded(s: &mut String, n: u64, width: usize)
    ensures
        final(s)@ == old(s)@ + padded(n as nat, width as nat),
{
    let rev = digits_rev(n);
    let ghost d = decimal(n as nat);
    assert(rev@.len() == d.len());
    let mut pad: usize = 0;
    let ghost start = s@;
    if rev.len() < width {
        pad = width - rev.len();
    }
    let mut k: usize = 0;
    while k < pad
        invariant
            k <= pad,
            s@ == start + Seq::new(k as nat, |_i: int| '0'),
        decreases pad - k,
    {
        push_char(s, '0');
        k += 1;
        assert(s@ =~= start + Seq::new(k as nat, |_i: int| '0'));
    }
    let ghost mid = s@;
    let mut i: usize = rev.len();
    while i > 0
        invariant
            i <= rev@.len(),
            rev@.len() == d.len(),
            rev@.reverse() == d,
            s@ == mid + d.subrange(0, (rev@.len() - i) as int),
        decreases i,
    {
        proof {
            assert(d[rev@.len() - i] == rev@[i - 1]);
        }
        push_char(s, rev[i - 1]);
        i -= 1;
        assert(s@ =~= mid + d.subrange(0, (rev@.len() - i) as int));
    }
    assert(d.subrange(0, d.len() as int) =~= d);
    assert(s@ =~= start + padded(n as nat, width as nat));
}

} // verus!
