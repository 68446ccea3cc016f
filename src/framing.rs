//! Line framing of a byte stream: a line ends at the first `\n` or `\r`,
//! a run of such bytes counts as one boundary, lines are trimmed, and
//! empty lines are dropped.

use vstd::prelude::*;
use vstd::slice::{slice_subrange, slice_to_vec};
use crate::text::{trim, trim_ws};

verus! {

/// Ceiling on the bytes held while waiting for a boundary.
pub const MAX_ACC_BYTES: usize = 65536;

/// What `String::from_utf8_lossy` makes of a byte sequence.
pub uninterp spec fn lossy_text(b: Seq<u8>) -> Seq<char>;

/// Relies on `String::from_utf8_lossy`: the decoded text depends on the
/// bytes alone, and no bytes decode to no text.
#[verifier::external_body]
fn decode_lossy(b: &[u8]) -> (r: String)
    ensures
        r@ == lossy_text(b@),
        b@.len() == 0 ==> r@.len() == 0,
{
    String::from_utf8_lossy(b).into_owned()
}

pub open spec fn is_delim(b: u8) -> bool {
    b == 10u8 || b == 13u8
}

/// Number of bytes before the first boundary byte (all of `s` if none).
pub open spec fn line_len(s: Seq<u8>) -> nat
    decreases s.len(),
{
    if s.len() == 0 || is_delim(s[0]) {
        0
    } else {
        1 + line_len(s.subrange(1, s.len() as int))
    }
}

/// Number of boundary bytes at the start of `s`.
pub open spec fn lead_delims(s: Seq<u8>) -> nat
    decreases s.len(),
{
    if s.len() > 0 && is_delim(s[0]) {
        1 + lead_delims(s.subrange(1, s.len() as int))
    } else {
        0
    }
}

/// `s` holds a boundary byte.
pub open spec fn has_boundary(s: Seq<u8>) -> bool {
    line_len(s) < s.len()
}

/// The text of a line's bytes: decoded and trimmed (no bytes, no text).
pub open spec fn bytes_text(b: Seq<u8>) -> Seq<char> {
    if b.len() == 0 {
        Seq::<char>::empty()
    } else {
        trim_ws(lossy_text(b))
    }
}

/// The text of the first line of `s`.
pub open spec fn line_text(s: Seq<u8>) -> Seq<char> {
    bytes_text(s.subrange(0, line_len(s) as int))
}

/// `s` once its first line and the run of boundary bytes after it are taken off.
pub open spec fn after_line(s: Seq<u8>) -> Seq<u8> {
    let a = s.subrange(line_len(s) + 1int, s.len() as int);
    a.subrange(lead_delims(a) as int, a.len() as int)
}

/// The non-empty lines that a buffer yields, in order. (The second guard
/// always holds where the first does: see `lemma_after_line_shorter`.)
pub open spec fn framed_lines(s: Seq<u8>) -> Seq<Seq<char>>
    decreases s.len(),
{
    if has_boundary(s) && after_line(s).len() < s.len() {
        let t = line_text(s);
        let tail = framed_lines(after_line(s));
        if t.len() == 0 {
            tail
        } else {
            seq![t] + tail
        }
    } else {
        seq![]
    }
}

/// What is left of a buffer once every complete line is taken off.
pub open spec fn remainder(s: Seq<u8>) -> Seq<u8>
    decreases s.len(),
{
    if has_boundary(s) && after_line(s).len() < s.len() {
        remainder(after_line(s))
    } else {
        s
    }
}

/// The views of a sequence of strings.
pub open spec fn texts(v: Seq<String>) -> Seq<Seq<char>> {
    v.map_values(|s: String| s@)
}

/// `line_len` is the index of the first boundary byte.
pub proof fn lemma_line_len_at(s: Seq<u8>, i: int)
    requires
        0 <= i <= s.len(),
        forall|j: int| 0 <= j < i ==> !is_delim(#[trigger] s[j]),
        i == s.len() || is_delim(s[i]),
    ensures
        line_len(s) == i,
    decreases i,
{
    if i > 0 {
        let t = s.subrange(1, s.len() as int);
        assert forall|j: int| 0 <= j < i - 1 implies !is_delim(#[trigger] t[j]) by {
            assert(t[j] == s[j + 1]);
        }
        lemma_line_len_at(t, i - 1);
    }
}

/// `lead_delims` is the index of the first byte that is no boundary byte.
pub proof fn lemma_lead_delims_at(s: Seq<u8>, i: int)
    requires
        0 <= i <= s.len(),
        forall|j: int| 0 <= j < i ==> is_delim(#[trigger] s[j]),
        i == s.len() || !is_delim(s[i]),
    ensures
        lead_delims(s) == i,
    decreases i,
{
    if i > 0 {
        let t = s.subrange(1, s.len() as int);
        assert forall|j: int| 0 <= j < i - 1 implies is_delim(#[trigger] t[j]) by {
            assert(t[j] == s[j + 1]);
        }
        lemma_lead_delims_at(t, i - 1);
    }
}

/// What `line_len` counts: bytes that are no boundary, up to one that is.
pub proof fn lemma_line_len_props(s: Seq<u8>)
    ensures
        line_len(s) <= s.len(),
        forall|j: int| 0 <= j < line_len(s) ==> !is_delim(#[trigger] s[j]),
        line_len(s) < s.len() ==> is_delim(s[line_len(s) as int]),
    decreases s.len(),
{
    if s.len() > 0 && !is_delim(s[0]) {
        let t = s.subrange(1, s.len() as int);
        lemma_line_len_props(t);
        assert forall|j: int| 0 <= j < line_len(s) implies !is_delim(#[trigger] s[j]) by {
            if j > 0 {
                assert(s[j] == t[j - 1]);
            }
        }
        if line_len(s) < s.len() {
            assert(s[line_len(s) as int] == t[line_len(t) as int]);
        }
    }
}

/// What `lead_delims` counts: boundary bytes, up to one that is none.
pub proof fn lemma_lead_delims_props(s: Seq<u8>)
    ensures
        lead_delims(s) <= s.len(),
        forall|j: int| 0 <= j < lead_delims(s) ==> is_delim(#[trigger] s[j]),
        lead_delims(s) < s.len() ==> !is_delim(s[lead_delims(s) as int]),
    decreases s.len(),
{
    if s.len() > 0 && is_delim(s[0]) {
        let t = s.subrange(1, s.len() as int);
        lemma_lead_delims_props(t);
        assert forall|j: int| 0 <= j < lead_delims(s) implies is_delim(#[trigger] s[j]) by {
            if j > 0 {
                assert(s[j] == t[j - 1]);
            }
        }
        if lead_delims(s) < s.len() {
            assert(s[lead_delims(s) as int] == t[lead_delims(t) as int]);
        }
    }
}

proof fn lemma_lead_delims_bound(s: Seq<u8>)
    ensures
        lead_delims(s) <= s.len(),
    decreases s.len(),
{
    if s.len() > 0 && is_delim(s[0]) {
        lemma_lead_delims_bound(s.subrange(1, s.len() as int));
    }
}

/// Taking a line off a buffer that holds a boundary shortens it.
pub proof fn lemma_after_line_shorter(s: Seq<u8>)
    requires
        has_boundary(s),
    ensures
        after_line(s).len() < s.len(),
{
    let a = s.subrange(line_len(s) + 1int, s.len() as int);
    lemma_lead_delims_bound(a);
}

/// No line that framing yields is empty.
pub proof fn lemma_framed_lines_nonempty(s: Seq<u8>)
    ensures
        forall|i: int| 0 <= i < framed_lines(s).len() ==> #[trigger] framed_lines(s)[i].len() > 0,
    decreases s.len(),
{
    if has_boundary(s) && after_line(s).len() < s.len() {
        lemma_framed_lines_nonempty(after_line(s));
        let t = line_text(s);
        let tail = framed_lines(after_line(s));
        if t.len() > 0 {
            assert forall|i: int| 0 <= i < framed_lines(s).len() implies #[trigger] framed_lines(
                s,
            )[i].len() > 0 by {
                if i > 0 {
                    assert(framed_lines(s)[i] == tail[i - 1]);
                }
            }
        }
    }
}

/// Every line that framing yields is already trimmed.
pub proof fn lemma_framed_lines_trimmed(s: Seq<u8>)
    ensures
        forall|i: int|
            0 <= i < framed_lines(s).len() ==> trim_ws(#[trigger] framed_lines(s)[i])
                == framed_lines(s)[i],
    decreases s.len(),
{
    if has_boundary(s) && after_line(s).len() < s.len() {
        lemma_framed_lines_trimmed(after_line(s));
        let b = s.subrange(0, line_len(s) as int);
        if b.len() > 0 {
            crate::text::lemma_trim_idempotent(lossy_text(b));
        }
        let t = line_text(s);
        let tail = framed_lines(after_line(s));
        if t.len() > 0 {
            assert forall|i: int| 0 <= i < framed_lines(s).len() implies trim_ws(
                #[trigger] framed_lines(s)[i],
            ) == framed_lines(s)[i] by {
                if i > 0 {
                    assert(framed_lines(s)[i] == tail[i - 1]);
                }
            }
        }
    }
}

/// A line `p`, then a run `d` of boundary bytes of any length, then the
/// rest `t`: the line (where its trimmed text is not empty) comes out, and
/// the rest is framed on its own, as if the run were one byte.
pub proof fn lemma_boundary_run(p: Seq<u8>, d: Seq<u8>, t: Seq<u8>)
    requires
        forall|j: int| 0 <= j < p.len() ==> !is_delim(#[trigger] p[j]),
        d.len() > 0,
        forall|j: int| 0 <= j < d.len() ==> is_delim(#[trigger] d[j]),
        t.len() == 0 || !is_delim(t[0]),
    ensures
        framed_lines(p + d + t) == if bytes_text(p).len() == 0 {
            framed_lines(t)
        } else {
            seq![bytes_text(p)] + framed_lines(t)
        },
        remainder(p + d + t) == remainder(t),
{
    let s = p + d + t;
    assert forall|j: int| 0 <= j < p.len() implies !is_delim(#[trigger] s[j]) by {
        assert(s[j] == p[j]);
    }
    assert(s[p.len() as int] == d[0]);
    lemma_line_len_at(s, p.len() as int);
    let a = s.subrange(p.len() + 1int, s.len() as int);
    assert forall|j: int| 0 <= j < d.len() - 1 implies is_delim(#[trigger] a[j]) by {
        assert(a[j] == d[j + 1]);
    }
    if t.len() > 0 {
        assert(a[d.len() - 1] == t[0]);
    }
    lemma_lead_delims_at(a, d.len() - 1);
    assert(after_line(s) =~= t);
    assert(s.subrange(0, p.len() as int) =~= p);
    lemma_after_line_shorter(s);
}

/// Two runs of boundary bytes, of any lengths, separate lines alike.
pub proof fn lemma_boundary_runs_alike(p: Seq<u8>, d1: Seq<u8>, d2: Seq<u8>, t: Seq<u8>)
    requires
        forall|j: int| 0 <= j < p.len() ==> !is_delim(#[trigger] p[j]),
        d1.len() > 0,
        d2.len() > 0,
        forall|j: int| 0 <= j < d1.len() ==> is_delim(#[trigger] d1[j]),
        forall|j: int| 0 <= j < d2.len() ==> is_delim(#[trigger] d2[j]),
        t.len() == 0 || !is_delim(t[0]),
    ensures
        framed_lines(p + d1 + t) == framed_lines(p + d2 + t),
        remainder(p + d1 + t) == remainder(p + d2 + t),
{
    lemma_boundary_run(p, d1, t);
    lemma_boundary_run(p, d2, t);
}

/// Leading boundary bytes yield no line: `c` frames as `c` without them.
proof fn lemma_skip_leading_run(c: Seq<u8>)
    ensures
        framed_lines(c) == framed_lines(c.subrange(lead_delims(c) as int, c.len() as int)),
        remainder(c) == remainder(c.subrange(lead_delims(c) as int, c.len() as int)),
{
    lemma_lead_delims_props(c);
    if lead_delims(c) == 0 {
        assert(c.subrange(0, c.len() as int) =~= c);
    } else {
        lemma_line_len_at(c, 0);
        let a = c.subrange(1, c.len() as int);
        lemma_lead_delims_props(a);
        assert forall|j: int| 0 <= j < lead_delims(c) - 1 implies is_delim(#[trigger] a[j]) by {
            assert(a[j] == c[j + 1]);
        }
        if lead_delims(c) < c.len() {
            assert(a[lead_delims(c) - 1] == c[lead_delims(c) as int]);
        }
        lemma_lead_delims_at(a, lead_delims(c) - 1);
        assert(after_line(c) =~= c.subrange(lead_delims(c) as int, c.len() as int));
        lemma_after_line_shorter(c);
    }
}

/// Framing a stream piece by piece yields what framing it whole does: the
/// lines of `s`, then those of what `s` left buffered followed by `c`.
pub proof fn lemma_chunked_framing(s: Seq<u8>, c: Seq<u8>)
    ensures
        framed_lines(s) + framed_lines(remainder(s) + c) == framed_lines(s + c),
        remainder(remainder(s) + c) == remainder(s + c),
    decreases s.len(),
{
    let sc = s + c;
    if !has_boundary(s) {
        assert(framed_lines(s) =~= Seq::<Seq<char>>::empty());
        assert(framed_lines(s) + framed_lines(remainder(s) + c) =~= framed_lines(s + c));
    } else {
        lemma_after_line_shorter(s);
        lemma_line_len_props(s);
        let p = line_len(s);
        assert forall|j: int| 0 <= j < p implies !is_delim(#[trigger] sc[j]) by {
            assert(sc[j] == s[j]);
        }
        assert(sc[p as int] == s[p as int]);
        lemma_line_len_at(sc, p as int);
        assert(sc.subrange(0, p as int) =~= s.subrange(0, p as int));
        assert(line_text(sc) == line_text(s));
        lemma_after_line_shorter(sc);
        let a = s.subrange(p + 1int, s.len() as int);
        let ac = sc.subrange(p + 1int, sc.len() as int);
        assert(ac =~= a + c);
        lemma_lead_delims_props(a);
        let k = lead_delims(a);
        let rest = after_line(s);
        if k < a.len() {
            assert forall|j: int| 0 <= j < k implies is_delim(#[trigger] ac[j]) by {
                assert(ac[j] == a[j]);
            }
            assert(ac[k as int] == a[k as int]);
            lemma_lead_delims_at(ac, k as int);
            assert(after_line(sc) =~= rest + c);
            lemma_chunked_framing(rest, c);
            let t = line_text(s);
            if t.len() == 0 {
            } else {
                assert(framed_lines(s) + framed_lines(remainder(s) + c) =~= seq![t] + (
                framed_lines(rest) + framed_lines(remainder(rest) + c)));
            }
        } else {
            lemma_lead_delims_props(c);
            let m = lead_delims(c);
            assert forall|j: int| 0 <= j < k + m implies is_delim(#[trigger] ac[j]) by {
                if j < k {
                    assert(ac[j] == a[j]);
                } else {
                    assert(ac[j] == c[j - k]);
                }
            }
            if k + m < ac.len() {
                assert(ac[(k + m) as int] == c[m as int]);
            }
            lemma_lead_delims_at(ac, (k + m) as int);
            assert(after_line(sc) =~= c.subrange(m as int, c.len() as int));
            assert(rest =~= Seq::<u8>::empty());
            assert(remainder(rest) == rest);
            assert(framed_lines(rest) =~= Seq::<Seq<char>>::empty());
            assert(remainder(s) + c =~= c);
            lemma_skip_leading_run(c);
            let t = line_text(s);
            if t.len() == 0 {
                assert(framed_lines(s) + framed_lines(remainder(s) + c) =~= framed_lines(c));
            } else {
                assert(framed_lines(s) + framed_lines(remainder(s) + c) =~= seq![t]
                    + framed_lines(c));
            }
        }
    }
}

/// Bytes without a boundary yield no line and stay buffered.
pub proof fn lemma_no_boundary_no_line(s: Seq<u8>)
    requires
        forall|j: int| 0 <= j < s.len() ==> !is_delim(#[trigger] s[j]),
    ensures
        framed_lines(s) == Seq::<Seq<char>>::empty(),
        remainder(s) == s,
{
    lemma_line_len_at(s, s.len() as int);
}

/// After an overflow the buffer is empty, so the next chunk is framed on
/// its own, as by a fresh framer.
pub proof fn lemma_fresh_after_overflow(c: Seq<u8>)
    ensures
        framed_lines(Seq::<u8>::empty() + c) == framed_lines(c),
        remainder(Seq::<u8>::empty() + c) == remainder(c),
{
    assert(Seq::<u8>::empty() + c =~= c);
}

/// Takes the first line off `acc`, with the run of boundary bytes after it;
/// `None`, and `acc` unchanged, where `acc` holds no boundary byte.
pub fn try_pop_line(acc: &mut Vec<u8>) -> (r: Option<String>)
    ensures
        !has_boundary(old(acc)@) ==> r is None && final(acc)@ == old(acc)@,
        has_boundary(old(acc)@) ==> (r matches Some(t) && t@ == line_text(old(acc)@)
            && final(acc)@ == after_line(old(acc)@)),
{
    let ghost s = acc@;
    let n = acc.len();
    let mut pos: usize = 0;
    while pos < n && !(acc[pos] == 10u8 || acc[pos] == 13u8)
        invariant
            n == s.len(),
            acc@ == s,
            pos <= n,
            forall|j: int| 0 <= j < pos ==> !is_delim(#[trigger] s[j]),
        decreases n - pos,
    {
        pos = pos + 1;
    }
    proof {
        lemma_line_len_at(s, pos as int);
    }
    if pos == n {
        return None;
    }
    let text = decode_lossy(slice_subrange(acc.as_slice(), 0, pos));
    let line = trim(text.as_str());
    let ghost a = s.subrange(pos + 1, n as int);
    let mut k: usize = pos + 1;
    while k < n && (acc[k] == 10u8 || acc[k] == 13u8)
        invariant
            n == s.len(),
            acc@ == s,
            pos < k <= n,
            a == s.subrange(pos + 1, n as int),
            forall|j: int| 0 <= j < k - pos - 1 ==> is_delim(#[trigger] a[j]),
        decreases n - k,
    {
        proof {
            assert(a[k - pos - 1] == s[k as int]);
        }
        k = k + 1;
    }
    proof {
        if k < n {
            assert(a[k - pos - 1] == s[k as int]);
        }
        lemma_lead_delims_at(a, k - pos - 1);
    }
    let tail = slice_to_vec(slice_subrange(acc.as_slice(), k, n));
    assert(tail@ =~= after_line(s));
    *acc = tail;
    Some(line)
}

/// An accumulation buffer that turns byte chunks into lines.
pub struct Framer {
    acc: Vec<u8>,
}

/// What one chunk yields: the lines completed by it, and whether what was
/// left without a boundary went over `MAX_ACC_BYTES` and was discarded.
pub struct Frames {
    pub lines: Vec<String>,
    pub overflowed: bool,
}

impl View for Framer {
    type V = Seq<u8>;

    closed spec fn view(&self) -> Seq<u8> {
        self.acc@
    }
}

impl Framer {
    /// The buffer holds no boundary byte and stays within the ceiling.
    pub open spec fn wf(&self) -> bool {
        self@.len() <= MAX_ACC_BYTES && !has_boundary(self@)
    }

    pub fn new() -> (r: Framer)
        ensures
            r@ == Seq::<u8>::empty(),
            r.wf(),
    {
        Framer { acc: Vec::new() }
    }

    /// Appends `chunk` and takes off every line it completes. Where what is
    /// left without a boundary exceeds the ceiling, it is discarded.
    pub fn push(&mut self, chunk: &[u8]) -> (r: Frames)
        requires
            old(self).wf(),
        ensures
            final(self).wf(),
            texts(r.lines@) == framed_lines(old(self)@ + chunk@),
            r.overflowed == (remainder(old(self)@ + chunk@).len() > MAX_ACC_BYTES),
            r.overflowed ==> final(self)@ == Seq::<u8>::empty(),
            !r.overflowed ==> final(self)@ == remainder(old(self)@ + chunk@),
    {
        let mut lines: Vec<String> = Vec::new();
        let ghost joined = self.acc@ + chunk@;
        let mut i: usize = 0;
        while i < chunk.len()
            invariant
                i <= chunk@.len(),
                self.acc@ == old(self)@ + chunk@.subrange(0, i as int),
            decreases chunk@.len() - i,
        {
            self.acc.push(chunk[i]);
            assert(chunk@.subrange(0, i + 1) =~= chunk@.subrange(0, i as int).push(chunk@[i as int]));
            i = i + 1;
        }
        assert(chunk@.subrange(0, i as int) =~= chunk@);
        let mut done = false;
        while !done
            invariant
                texts(lines@) + framed_lines(self.acc@) == framed_lines(joined),
                remainder(self.acc@) == remainder(joined),
                self.acc@.len() <= joined.len(),
                done ==> !has_boundary(self.acc@),
            decreases self.acc@.len() + (if done { 0int } else { 1int }),
        {
            let ghost before = self.acc@;
            match try_pop_line(&mut self.acc) {
                None => {
                    done = true;
                },
                Some(t) => {
                    proof {
                        lemma_after_line_shorter(before);
                    }
                    if !t.as_str().is_empty() {
                        let ghost prev = lines@;
                        lines.push(t);
                        assert(texts(lines@) =~= texts(prev).push(t@));
                        assert(texts(lines@) + framed_lines(self.acc@) =~= texts(prev) + (seq![t@]
                            + framed_lines(self.acc@)));
                    }
                },
            }
        }
        proof {
            assert(framed_lines(self.acc@) == Seq::<Seq<char>>::empty());
            assert(texts(lines@) =~= framed_lines(joined));
        }
        if self.acc.len() > MAX_ACC_BYTES {
            self.acc = Vec::new();
            return Frames { lines, overflowed: true };
        }
        Frames { lines, overflowed: false }
    }
}

} // verus!
