//! Server-sent events, as both streaming protocols deliver them: a byte
//! stream, arriving in arbitrary chunks, of lines; each `data:` line carries
//! one payload (a JSON event, or the `[DONE]` sentinel).

use vstd::prelude::*;

use crate::text::{chars_of, string_of_range, trim_bounds, trim_seq, views};

verus! {

/// The text `String::from_utf8_lossy` reads `bytes` as: UTF-8, with each
/// invalid sequence replaced by U+FFFD.
pub uninterp spec fn lossy_text(bytes: Seq<u8>) -> Seq<char>;

/// `String::from_utf8_lossy`, taken as an owned `String`.
#[verifier::external_body]
fn utf8_lossy(bytes: &[u8]) -> (r: String)
    ensures
        r@ == lossy_text(bytes@),
{
    String::from_utf8_lossy(bytes).into_owned()
}

/// Where the first line feed of `b` is.
pub open spec fn newline_at(b: Seq<u8>) -> Option<int>
    decreases b.len(),
{
    if b.len() == 0 {
        None
    } else if b[0] == 10u8 {
        Some(0)
    } else {
        match newline_at(b.drop_first()) {
            Some(i) => Some(i + 1),
            None => None,
        }
    }
}

/// The complete lines of `b` (each with its line feed) and what follows the
/// last of them.
pub open spec fn split_lines(b: Seq<u8>) -> (Seq<Seq<u8>>, Seq<u8>)
    decreases b.len(),
{
    match newline_at(b) {
        Some(p) => if 0 <= p < b.len() {
            let (ls, rest) = split_lines(b.subrange(p + 1, b.len() as int));
            (seq![b.subrange(0, p + 1)] + ls, rest)
        } else {
            (Seq::empty(), b)
        },
        None => (Seq::empty(), b),
    }
}

/// `s` without its trailing carriage returns and line feeds.
pub open spec fn trim_crlf(s: Seq<char>) -> Seq<char>
    decreases s.len(),
{
    if s.len() > 0 && (s.last() == '\r' || s.last() == '\n') {
        trim_crlf(s.drop_last())
    } else {
        s
    }
}

/// The payload of a line: what follows `data:`, trimmed; none for any other
/// line.
pub open spec fn data_payload(line: Seq<char>) -> Option<Seq<char>> {
    let l = trim_crlf(line);
    if l.len() >= 5 && l.subrange(0, 5) == "data:"@ {
        Some(trim_seq(l.subrange(5, l.len() as int)))
    } else {
        None
    }
}

/// The payloads of `lines`, in order.
pub open spec fn payloads(lines: Seq<Seq<u8>>) -> Seq<Seq<char>>
    decreases lines.len(),
{
    if lines.len() == 0 {
        Seq::empty()
    } else {
        let r = payloads(lines.drop_last());
        match data_payload(lossy_text(lines.last())) {
            Some(p) => r.push(p),
            None => r,
        }
    }
}

proof fn lemma_newline_at(b: Seq<u8>, p: int)
    requires
        0 <= p < b.len(),
        b[p] == 10u8,
        forall|j: int| 0 <= j < p ==> b[j] != 10u8,
    ensures
        newline_at(b) == Some(p),
    decreases p,
{
    if p > 0 {
        lemma_newline_at(b.drop_first(), p - 1);
    }
}

proof fn lemma_no_newline(b: Seq<u8>)
    requires
        forall|j: int| 0 <= j < b.len() ==> b[j] != 10u8,
    ensures
        newline_at(b) is None,
    decreases b.len(),
{
    if b.len() > 0 {
        lemma_no_newline(b.drop_first());
    }
}

/// The payload of one line of text, when it is a `data:` line.
pub fn data_payload_of(line: &str) -> (r: Option<String>)
    ensures
        match data_payload(line@) {
            Some(p) => r matches Some(s) && s@ == p,
            None => r is None,
        },
{
    proof {
        reveal_strlit("data:");
    }
    let v = chars_of(line);
    let mut end: usize = v.len();
    assert(v@.subrange(0, end as int) =~= line@);
    while end > 0 && (v[end - 1] == '\r' || v[end - 1] == '\n')
        invariant
            end <= v@.len(),
            v@ == line@,
            trim_crlf(v@.subrange(0, end as int)) == trim_crlf(line@),
        decreases end,
    {
        assert(v@.subrange(0, end as int).drop_last() =~= v@.subrange(0, end - 1));
        end -= 1;
    }
    let ghost l = v@.subrange(0, end as int);
    assert(trim_crlf(l) == l);
    if end >= 5 && v[0] == 'd' && v[1] == 'a' && v[2] == 't' && v[3] == 'a' && v[4] == ':' {
        assert(l.subrange(0, 5) =~= "data:"@);
        let (a, b) = trim_bounds(&v, 5, end);
        assert(v@.subrange(5, end as int) =~= l.subrange(5, l.len() as int));
        Some(string_of_range(&v, a, b))
    } else {
        proof {
            if l.len() >= 5 && l.subrange(0, 5) == "data:"@ {
                assert(l.subrange(0, 5)[0] == v@[0]);
                assert(l.subrange(0, 5)[1] == v@[1]);
                assert(l.subrange(0, 5)[2] == v@[2]);
                assert(l.subrange(0, 5)[3] == v@[3]);
                assert(l.subrange(0, 5)[4] == v@[4]);
            }
        }
        None
    }
}

/// A reader of server-sent events: the bytes of a line not yet complete.
#[derive(Debug)]
pub struct SseReader {
    pub buf: Vec<u8>,
}

impl SseReader {
    /// A reader that has seen nothing.
    pub fn new() -> (r: SseReader)
        ensures
            r.buf@.len() == 0,
    {
        SseReader { buf: Vec::new() }
    }

    /// Takes the next chunk of the stream: returns the payloads of the `data:`
    /// lines it completes, in order, and keeps what follows the last line
    /// feed for the next chunk.
    pub fn feed(&mut self, chunk: &[u8]) -> (r: Vec<String>)
        ensures
            views(r@) == payloads(split_lines(old(self).buf@ + chunk@).0),
            final(self).buf@ == split_lines(old(self).buf@ + chunk@).1,
    {
        let mut all: Vec<u8> = Vec::new();
        core::mem::swap(&mut all, &mut self.buf);
        let mut k: usize = 0;
        while k < chunk.len()
            invariant
                k <= chunk@.len(),
                all@ == old(self).buf@ + chunk@.subrange(0, k as int),
            decreases chunk.len() - k,
        {
            all.push(chunk[k]);
            k += 1;
        }
        assert(chunk@.subrange(0, chunk@.len() as int) =~= chunk@);
        let ghost whole = all@;
        assert(whole.subrange(0, whole.len() as int) =~= whole);
        let mut out: Vec<String> = Vec::new();
        let mut start: usize = 0;
        let mut i: usize = 0;
        let ghost mut done: Seq<Seq<u8>> = Seq::empty();
        while i < all.len()
            invariant
                all@ == whole,
                start <= i <= whole.len(),
                forall|j: int| start <= j < i ==> whole[j] != 10u8,
                done + split_lines(whole.subrange(start as int, whole.len() as int)).0 == split_lines(
                    whole,
                ).0,
                split_lines(whole.subrange(start as int, whole.len() as int)).1 == split_lines(
                    whole,
                ).1,
                views(out@) == payloads(done),
            decreases all.len() - i,
        {
            if all[i] == 10u8 {
                let ghost b = whole.subrange(start as int, whole.len() as int);
                proof {
                    lemma_newline_at(b, i - start);
                    assert(b.subrange(i - start + 1, b.len() as int) =~= whole.subrange(
                        i + 1,
                        whole.len() as int,
                    ));
                }
                let mut line: Vec<u8> = Vec::new();
                let mut j: usize = start;
                while j <= i
                    invariant
                        all@ == whole,
                        start <= j <= i + 1,
                        i < all.len(),
                        line@ == whole.subrange(start as int, j as int),
                    decreases i + 1 - j,
                {
                    line.push(all[j]);
                    j += 1;
                }
                assert(line@ =~= b.subrange(0, i - start + 1));
                let text = utf8_lossy(line.as_slice());
                let ghost before = out@;
                match data_payload_of(text.as_str()) {
                    Some(p) => {
                        out.push(p);
                        assert(views(out@) =~= views(before).push(out@.last()@));
                    },
                    None => {},
                }
                proof {
                    let ls = split_lines(whole.subrange(i + 1, whole.len() as int)).0;
                    assert(done.push(line@) + ls =~= done + (seq![line@] + ls));
                    assert(done.push(line@).drop_last() =~= done);
                    done = done.push(line@);
                }
                start = i + 1;
            }
            i += 1;
        }
        proof {
            lemma_no_newline(whole.subrange(start as int, whole.len() as int));
            assert(done + Seq::<Seq<u8>>::empty() =~= done);
        }
        let mut rest: Vec<u8> = Vec::new();
        let mut j: usize = start;
        while j < all.len()
            invariant
                all@ == whole,
                start <= j <= whole.len(),
                rest@ == whole.subrange(start as int, j as int),
            decreases all.len() - j,
        {
            rest.push(all[j]);
            j += 1;
        }
        self.buf = rest;
        out
    }
}

impl Default for SseReader {
    fn default() -> (r: SseReader)
        ensures
            r.buf@.len() == 0,
    {
        SseReader::new()
    }
}

proof fn lemma_newline_in_prefix(x: Seq<u8>, y: Seq<u8>)
    ensures
        newline_at(x) matches Some(p) ==> newline_at(x + y) == Some(p),
        newline_at(x) is None ==> match newline_at(y) {
            Some(q) => newline_at(x + y) == Some(x.len() + q),
            None => newline_at(x + y) is None,
        },
    decreases x.len(),
{
    if x.len() > 0 {
        lemma_newline_in_prefix(x.drop_first(), y);
        assert((x + y).drop_first() =~= x.drop_first() + y);
    } else {
        assert(x + y =~= y);
    }
}

proof fn lemma_newline_bounds(b: Seq<u8>)
    ensures
        newline_at(b) matches Some(p) ==> 0 <= p < b.len() && b[p] == 10u8,
    decreases b.len(),
{
    if b.len() > 0 {
        lemma_newline_bounds(b.drop_first());
    }
}

/// Splitting `x + y` into lines is splitting `x`, then splitting what was
/// left of `x` followed by `y`.
proof fn lemma_split_concat(x: Seq<u8>, y: Seq<u8>)
    ensures
        split_lines(x + y) == ({
            let (l1, r1) = split_lines(x);
            let (l2, r2) = split_lines(r1 + y);
            (l1 + l2, r2)
        }),
    decreases x.len(),
{
    lemma_newline_in_prefix(x, y);
    lemma_newline_bounds(x);
    match newline_at(x) {
        Some(p) => {
            let rest = x.subrange(p + 1, x.len() as int);
            lemma_split_concat(rest, y);
            assert((x + y).subrange(p + 1, (x + y).len() as int) =~= rest + y);
            assert((x + y).subrange(0, p + 1) =~= x.subrange(0, p + 1));
            let (l1, r1) = split_lines(rest);
            let (l2, r2) = split_lines(r1 + y);
            assert(seq![x.subrange(0, p + 1)] + (l1 + l2) =~= (seq![x.subrange(0, p + 1)] + l1) + l2);
        },
        None => {
            assert(Seq::<Seq<u8>>::empty() + split_lines(x + y).0 =~= split_lines(x + y).0);
        },
    }
}

proof fn lemma_payloads_concat(a: Seq<Seq<u8>>, b: Seq<Seq<u8>>)
    ensures
        payloads(a + b) == payloads(a) + payloads(b),
    decreases b.len(),
{
    if b.len() == 0 {
        assert(a + b =~= a);
        assert(payloads(a) + payloads(b) =~= payloads(a));
    } else {
        lemma_payloads_concat(a, b.drop_last());
        assert((a + b).drop_last() =~= a + b.drop_last());
        match data_payload(lossy_text(b.last())) {
            Some(p) => {
                assert(payloads(a) + payloads(b.drop_last()).push(p) =~= (payloads(a) + payloads(
                    b.drop_last(),
                )).push(p));
            },
            None => {},
        }
    }
}

/// However a stream is cut into chunks, the reader yields the same payloads
/// and is left holding the same partial line: feeding `a` and then `b` is
/// feeding `a` and `b` joined.
pub proof fn law_chunking_is_invisible(buf: Seq<u8>, a: Seq<u8>, b: Seq<u8>)
    ensures
        ({
            let (l1, r1) = split_lines(buf + a);
            let (l2, r2) = split_lines(r1 + b);
            let (l, r) = split_lines(buf + a + b);
            &&& payloads(l1) + payloads(l2) == payloads(l)
            &&& r2 == r
        }),
{
    lemma_split_concat(buf + a, b);
    let (l1, r1) = split_lines(buf + a);
    let (l2, r2) = split_lines(r1 + b);
    lemma_payloads_concat(l1, l2);
}

} // verus!
