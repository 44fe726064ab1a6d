//! Locating the frontmatter and body regions inside a raw document buffer.
//!
//! A document may open with a three-byte `---` delimiter; the frontmatter then
//! runs until the next occurrence of the same delimiter, found with a sliding
//! three-byte window and no escaping.  A delimiter sequence inside the
//! frontmatter content is indistinguishable from the real terminator and ends
//! the region early; that is an accepted limitation of the format.

use vstd::prelude::*;

verus! {

/// A half-open interval of byte offsets into a single document buffer.
#[derive(Clone, Copy, Debug, PartialEq, Eq, Structural)]
pub struct ByteRange {
    pub start: usize,
    pub end: usize,
}

/// The frontmatter and body regions located within one document buffer.
///
/// When no frontmatter delimiter is present the `frontmatter` range is empty
/// and `body` spans the whole buffer.
#[derive(Clone, Copy, Debug, PartialEq, Eq, Structural)]
pub struct ContentRanges {
    pub frontmatter: ByteRange,
    pub body: ByteRange,
}

/// The three-byte frontmatter delimiter `---` stands at offset `i` of `s`.
pub open spec fn delim_at(s: Seq<u8>, i: int) -> bool {
    &&& 0 <= i
    &&& i + 3 <= s.len()
    &&& s[i] == 45u8
    &&& s[i + 1] == 45u8
    &&& s[i + 2] == 45u8
}

/// Where the sliding-window scan that starts at offset `i` stops: the first
/// delimiter occurrence at or after `i`, or the end of the buffer when no
/// occurrence follows.
pub open spec fn scan_from(s: Seq<u8>, i: int) -> int
    recommends
        0 <= i,
    decreases s.len() - i,
{
    if i + 3 > s.len() {
        s.len() as int
    } else if delim_at(s, i) {
        i
    } else {
        scan_from(s, i + 1)
    }
}

/// Where the frontmatter of a delimited buffer ends: the scan for the closing
/// delimiter starts right after the opening one, and an unclosed frontmatter
/// extends to the end of the buffer.
pub open spec fn frontmatter_end(s: Seq<u8>) -> int {
    scan_from(s, 3)
}

/// Where the body of a delimited buffer starts: right after the closing
/// delimiter, clipped to the end of the buffer when the delimiter was never
/// closed.
pub open spec fn body_start(s: Seq<u8>) -> int {
    if frontmatter_end(s) + 3 > s.len() {
        s.len() as int
    } else {
        frontmatter_end(s) + 3
    }
}

/// Locate the frontmatter and body regions of `content`.
///
/// Total: every buffer, including the empty one, yields a pair of ranges.
pub fn get_content_ranges(content: &[u8]) -> (r: ContentRanges)
    ensures
        !delim_at(content@, 0) ==> r.frontmatter == (ByteRange { start: 0, end: 0 })
            && r.body.start == 0 && r.body.end == content@.len(),
        delim_at(content@, 0) ==> r.frontmatter.start == 3 && r.frontmatter.end
            == frontmatter_end(content@) && r.body.start == body_start(content@) && r.body.end
            == content@.len(),
        r.frontmatter.start <= r.frontmatter.end <= r.body.start <= r.body.end == content@.len(),
{
    let n = content.len();
    if n < 3 || content[0] != 45 || content[1] != 45 || content[2] != 45 {
        return ContentRanges {
            frontmatter: ByteRange { start: 0, end: 0 },
            body: ByteRange { start: 0, end: n },
        };
    }
    let ghost s = content@;
    let mut i: usize = 3;
    let mut fm_end: usize = n;
    loop
        invariant
            3 <= i <= n,
            n == s.len(),
            s == content@,
            frontmatter_end(s) == scan_from(s, i as int),
        ensures
            frontmatter_end(s) == fm_end,
            3 <= fm_end <= n,
        decreases n - i,
    {
        if n - i < 3 {
            fm_end = n;
            break ;
        }
        if content[i] == 45 && content[i + 1] == 45 && content[i + 2] == 45 {
            fm_end = i;
            break ;
        }
        i = i + 1;
    }
    let body_s = if n - fm_end < 3 {
        n
    } else {
        fm_end + 3
    };
    ContentRanges {
        frontmatter: ByteRange { start: 3, end: fm_end },
        body: ByteRange { start: body_s, end: n },
    }
}

/// The scan starting at `i` stops exactly at `j`, the first delimiter
/// occurrence at or after `i`.
pub proof fn lemma_scan_finds_first(s: Seq<u8>, i: int, j: int)
    requires
        0 <= i <= j,
        delim_at(s, j),
        forall|k: int| i <= k < j ==> !delim_at(s, k),
    ensures
        scan_from(s, i) == j,
    decreases j - i,
{
    if i < j {
        lemma_scan_finds_first(s, i + 1, j);
    }
}

/// The delimiter occurs somewhere in `f`.
pub open spec fn has_delim(f: Seq<u8>) -> bool {
    exists|j: int| delim_at(f, j)
}

/// An ASCII whitespace byte, as removed by trimming.
pub open spec fn is_ws_byte(b: u8) -> bool {
    b == 9u8 || b == 10u8 || b == 11u8 || b == 12u8 || b == 13u8 || b == 32u8
}

/// `s[lo..hi]` with ASCII whitespace removed from both ends.
pub open spec fn trim_from(s: Seq<u8>, lo: int, hi: int) -> Seq<u8>
    recommends
        0 <= lo,
        hi <= s.len(),
    decreases hi - lo,
{
    if lo >= hi {
        Seq::empty()
    } else if is_ws_byte(s[lo]) {
        trim_from(s, lo + 1, hi)
    } else if is_ws_byte(s[hi - 1]) {
        trim_from(s, lo, hi - 1)
    } else {
        s.subrange(lo, hi)
    }
}

/// `s` with ASCII whitespace removed from both ends.
pub open spec fn trim_bytes(s: Seq<u8>) -> Seq<u8> {
    trim_from(s, 0, s.len() as int)
}

/// The three delimiter bytes `---`.
pub open spec fn dashes() -> Seq<u8> {
    seq![45u8, 45u8, 45u8]
}

/// A single newline byte.
pub open spec fn nl() -> Seq<u8> {
    seq![10u8]
}

/// What a body part contributes to a delimited document: a newline and the
/// body when one is present, nothing otherwise.
pub open spec fn body_tail(b: Option<Seq<u8>>) -> Seq<u8> {
    match b {
        Some(bb) => nl() + bb,
        None => Seq::empty(),
    }
}

/// A document assembled from a frontmatter `f` and an optional body `b`:
/// `---`, newline, `f`, newline, `---`, and, when present, newline and `b`.
pub open spec fn framed(f: Seq<u8>, b: Option<Seq<u8>>) -> Seq<u8> {
    dashes() + nl() + f + nl() + dashes() + body_tail(b)
}

/// Trimming strips a single leading and trailing newline around a sequence
/// whose own ends are not whitespace.
proof fn lemma_trim_nl_wrapped(x: Seq<u8>)
    requires
        x.len() > 0 ==> !is_ws_byte(x[0]) && !is_ws_byte(x[x.len() - 1]),
    ensures
        trim_bytes(nl() + x + nl()) == x,
{
    let s = nl() + x + nl();
    let n = s.len() as int;
    assert(trim_bytes(s) == trim_from(s, 1, n));
    if x.len() == 0 {
        assert(is_ws_byte(s[1]));
        assert(trim_from(s, 1, n) == trim_from(s, 2, n));
        assert(trim_from(s, 2, n) =~= x);
    } else {
        assert(s[1] == x[0]);
        assert(s[n - 1] == 10u8);
        assert(trim_from(s, 1, n) == trim_from(s, 1, n - 1));
        assert(s[n - 2] == x[x.len() - 1]);
        assert(trim_from(s, 1, n - 1) == s.subrange(1, n - 1));
        assert(s.subrange(1, n - 1) =~= x);
    }
}

/// Trimming strips a single leading newline before a sequence whose own ends
/// are not whitespace.
proof fn lemma_trim_nl_led(x: Seq<u8>)
    requires
        x.len() > 0 ==> !is_ws_byte(x[0]) && !is_ws_byte(x[x.len() - 1]),
    ensures
        trim_bytes(nl() + x) == x,
{
    let s = nl() + x;
    let n = s.len() as int;
    assert(trim_bytes(s) == trim_from(s, 1, n));
    if x.len() == 0 {
        assert(trim_from(s, 1, n) =~= x);
    } else {
        assert(s[1] == x[0]);
        assert(s[n - 1] == x[x.len() - 1]);
        assert(trim_from(s, 1, n) == s.subrange(1, n));
        assert(s.subrange(1, n) =~= x);
    }
}

/// A document assembled from a frontmatter `f` and an optional body `b` scans
/// back to them: the frontmatter region holds exactly `f` between its two
/// newlines and trims to `f`, and the body region holds the body, when one is
/// present, behind its newline and trims to it.  Holds for every `f` whose
/// ends are not whitespace and which does not itself contain the delimiter;
/// a delimiter inside `f` would end the region early, and whitespace at the
/// ends of `f` would be trimmed away with the newlines.
pub proof fn lemma_framed_document_ranges(f: Seq<u8>, b: Option<Seq<u8>>)
    requires
        !has_delim(f),
        f.len() > 0 ==> !is_ws_byte(f[0]) && !is_ws_byte(f[f.len() - 1]),
        match b {
            Some(bb) => bb.len() > 0 ==> !is_ws_byte(bb[0]) && !is_ws_byte(bb[bb.len() - 1]),
            None => true,
        },
    ensures
        delim_at(framed(f, b), 0),
        frontmatter_end(framed(f, b)) == f.len() + 5,
        framed(f, b).subrange(3, f.len() + 5 as int) == nl() + f + nl(),
        trim_bytes(framed(f, b).subrange(3, f.len() + 5 as int)) == f,
        body_start(framed(f, b)) == f.len() + 8,
        framed(f, b).subrange(f.len() + 8 as int, framed(f, b).len() as int) == body_tail(b),
        trim_bytes(framed(f, b).subrange(f.len() + 8 as int, framed(f, b).len() as int)) == (match b {
            Some(bb) => bb,
            None => Seq::<u8>::empty(),
        }),
{
    let s = framed(f, b);
    let flen = f.len() as int;
    assert(s.len() == flen + 8 + body_tail(b).len());
    assert(s[0] == 45u8 && s[1] == 45u8 && s[2] == 45u8);
    assert(s[3] == 10u8);
    assert(forall|j: int| 0 <= j < flen ==> s[4 + j] == f[j]);
    assert(s[flen + 4] == 10u8);
    assert(s[flen + 5] == 45u8 && s[flen + 6] == 45u8 && s[flen + 7] == 45u8);
    assert(delim_at(s, 0));
    assert(delim_at(s, flen + 5));
    assert forall|k: int| 3 <= k < flen + 5 implies !delim_at(s, k) by {
        if delim_at(s, k) {
            if k == 3 {
                assert(s[3] == 10u8);
            } else if k <= flen + 1 {
                assert(s[k] == f[k - 4] && s[k + 1] == f[k - 3] && s[k + 2] == f[k - 2]);
                assert(delim_at(f, k - 4));
                assert(has_delim(f));
            } else if k == flen + 2 {
                assert(s[k + 2] == 10u8);
            } else if k == flen + 3 {
                assert(s[k + 1] == 10u8);
            } else {
                assert(s[k] == 10u8);
            }
        }
    }
    lemma_scan_finds_first(s, 3, flen + 5);
    assert(s.subrange(3, flen + 5) =~= nl() + f + nl());
    lemma_trim_nl_wrapped(f);
    assert(body_start(s) == flen + 8);
    assert(s.subrange(flen + 8, s.len() as int) =~= body_tail(b));
    match b {
        Some(bb) => {
            lemma_trim_nl_led(bb);
        },
        None => {
            assert(trim_bytes(Seq::<u8>::empty()) =~= Seq::<u8>::empty());
        },
    }
}

} // verus!
