//! Pure text transforms that turn arbitrary tag strings into identifier
//! fragments: camel-case type names, snake-case constant names, and a
//! first-letter capitalizer.
//!
//! The byte-emitting transforms stream into a byte sink as UTF-8.  Only ASCII
//! case folding is applied: non-ASCII characters pass through unmodified, and
//! still count as valid run characters.

use vstd::prelude::*;
use vstd::string::StrSliceExecFns;
use vstd::string::StringExecFns;
use vstd::utf8::encode_utf8;

use crate::bytesink::push_char_utf8;
use crate::chars::boundary_char;
use crate::chars::is_boundary_char;
use crate::chars::lower_char;
use crate::chars::push_char;
use crate::chars::to_lower_char;
use crate::chars::to_upper_char;
use crate::chars::upper_char;

verus! {

/// The bytes the camel-case transform emits for the characters of `s` when it
/// starts in state `upper`: boundary characters are dropped and force the next
/// run character to upper case, every other character is emitted as the UTF-8
/// encoding of its folded form.
pub open spec fn camel_rec(s: Seq<char>, upper: bool) -> Seq<u8>
    decreases s.len(),
{
    if s.len() == 0 {
        Seq::empty()
    } else if is_boundary_char(s[0]) {
        camel_rec(s.drop_first(), true)
    } else if upper {
        encode_utf8(seq![upper_char(s[0])]) + camel_rec(s.drop_first(), false)
    } else {
        encode_utf8(seq![s[0]]) + camel_rec(s.drop_first(), false)
    }
}

/// The camel-case form of `s` as UTF-8 bytes: every maximal run of
/// non-boundary characters has its first character folded to upper case, the
/// rest copied through, and the boundary characters themselves are dropped.
pub open spec fn camel_bytes(s: Seq<char>) -> Seq<u8> {
    camel_rec(s, true)
}

/// The bytes the snake-case transform emits for one character: a single
/// underscore for a boundary character, the UTF-8 encoding of the
/// ASCII-lowercased character otherwise.
pub open spec fn snake_char_bytes(c: char) -> Seq<u8> {
    if is_boundary_char(c) {
        seq![95u8]
    } else {
        encode_utf8(seq![lower_char(c)])
    }
}

/// The snake-case form of `s` as UTF-8 bytes: each boundary character
/// replaced by exactly one underscore, nothing collapsed, every other
/// character copied through ASCII-lowercased.
pub open spec fn snake_bytes(s: Seq<char>) -> Seq<u8>
    decreases s.len(),
{
    if s.len() == 0 {
        Seq::empty()
    } else {
        snake_char_bytes(s[0]) + snake_bytes(s.drop_first())
    }
}

/// `s` with its first character folded to upper case when it is a lower-case
/// ASCII letter; the remainder, and every other first character, is untouched.
pub open spec fn spec_capitalize(s: Seq<char>) -> Seq<char> {
    if s.len() == 0 {
        s
    } else if 'A' <= s[0] && s[0] <= 'Z' {
        s
    } else {
        seq![upper_char(s[0])] + s.drop_first()
    }
}

/// Append the camel-case form of `string` to the byte sink `out`.
pub fn write_camel_case(string: &str, out: &mut Vec<u8>)
    ensures
        final(out)@ == old(out)@ + camel_bytes(string@),
{
    let n = string.unicode_len();
    proof {
        assert(string@.subrange(0, n as int) =~= string@);
    }
    let mut upper = true;
    let mut i: usize = 0;
    while i < n
        invariant
            i <= n,
            n == string@.len(),
            old(out)@ + camel_bytes(string@) == out@ + camel_rec(
                string@.subrange(i as int, n as int),
                upper,
            ),
        decreases n - i,
    {
        let c = string.get_char(i);
        proof {
            assert(string@.subrange(i as int, n as int).drop_first() =~= string@.subrange(
                i + 1 as int,
                n as int,
            ));
        }
        if boundary_char(c) {
            upper = true;
        } else {
            let fc = if upper {
                to_upper_char(c)
            } else {
                c
            };
            let ghost before = out@;
            push_char_utf8(out, fc);
            proof {
                assert(before + (encode_utf8(seq![fc]) + camel_rec(
                    string@.subrange(i + 1 as int, n as int),
                    false,
                )) =~= out@ + camel_rec(string@.subrange(i + 1 as int, n as int), false));
            }
            upper = false;
        }
        i = i + 1;
    }
    proof {
        assert(string@.subrange(n as int, n as int) =~= Seq::<char>::empty());
    }
}

/// Append the snake-case form of `string` to the byte sink `out`.
pub fn write_snake_case(string: &str, out: &mut Vec<u8>)
    ensures
        final(out)@ == old(out)@ + snake_bytes(string@),
{
    let n = string.unicode_len();
    proof {
        assert(string@.subrange(0, n as int) =~= string@);
    }
    let mut i: usize = 0;
    while i < n
        invariant
            i <= n,
            n == string@.len(),
            old(out)@ + snake_bytes(string@) == out@ + snake_bytes(
                string@.subrange(i as int, n as int),
            ),
        decreases n - i,
    {
        let c = string.get_char(i);
        proof {
            assert(string@.subrange(i as int, n as int).drop_first() =~= string@.subrange(
                i + 1 as int,
                n as int,
            ));
        }
        let ghost before = out@;
        if boundary_char(c) {
            out.push(95u8);
            proof {
                assert(out@ =~= before + seq![95u8]);
            }
        } else {
            let lc = to_lower_char(c);
            push_char_utf8(out, lc);
        }
        proof {
            assert(before + (snake_char_bytes(string@[i as int]) + snake_bytes(
                string@.subrange(i + 1 as int, n as int),
            )) =~= out@ + snake_bytes(string@.subrange(i + 1 as int, n as int)));
        }
        i = i + 1;
    }
    proof {
        assert(string@.subrange(n as int, n as int) =~= Seq::<char>::empty());
    }
}

/// The first character folded to upper case when it is a lower-case ASCII
/// letter; the rest of the string is returned unchanged.
pub fn capitalize(string: &str) -> (r: String)
    ensures
        r@ == spec_capitalize(string@),
{
    let n = string.unicode_len();
    if n == 0 {
        return string.to_owned();
    }
    let c = string.get_char(0);
    let u = c as u32;
    if 65 <= u && u <= 90 {
        return string.to_owned();
    }
    let uc = to_upper_char(c);
    let mut r = String::new();
    push_char(&mut r, uc);
    let rest = string.substring_char(1, n);
    r.append(rest);
    proof {
        assert(string@.drop_first() =~= string@.subrange(1, n as int));
        assert(r@ =~= spec_capitalize(string@));
    }
    r
}

} // verus!
