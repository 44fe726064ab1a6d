//! Appending text to a byte sink: UTF-8 bytes of a string, and the decimal
//! digits of an index.

use vstd::prelude::*;
use vstd::utf8::char_is_scalar;
use vstd::utf8::encode_scalar;
use vstd::utf8::encode_utf8;

verus! {

/// Append the UTF-8 encoding of the single character `c` to `out`.
pub fn push_char_utf8(out: &mut Vec<u8>, c: char)
    ensures
        final(out)@ == old(out)@ + encode_utf8(seq![c]),
{
    let u = c as u32;
    proof {
        char_is_scalar(c);
        assert(seq![c].drop_first() =~= Seq::<char>::empty());
        assert(seq![c][0] == c);
        assert(encode_utf8(Seq::<char>::empty()) =~= Seq::<u8>::empty());
        assert(encode_utf8(seq![c]) =~= encode_scalar(u));
    }
    if u <= 0x7F {
        out.push((u & 0x7F) as u8);
        proof {
            assert(out@ =~= old(out)@ + encode_scalar(u));
        }
    } else if u <= 0x7FF {
        out.push(0xC0 | ((u >> 6) & 0x1F) as u8);
        out.push(0x80 | (u & 0x3F) as u8);
        proof {
            assert(out@ =~= old(out)@ + encode_scalar(u));
        }
    } else if u <= 0xFFFF {
        out.push(0xE0 | ((u >> 12) & 0x0F) as u8);
        out.push(0x80 | ((u >> 6) & 0x3F) as u8);
        out.push(0x80 | (u & 0x3F) as u8);
        proof {
            assert(out@ =~= old(out)@ + encode_scalar(u));
        }
    } else {
        out.push(0xF0 | ((u >> 18) & 0x7) as u8);
        out.push(0x80 | ((u >> 12) & 0x3F) as u8);
        out.push(0x80 | ((u >> 6) & 0x3F) as u8);
        out.push(0x80 | (u & 0x3F) as u8);
        proof {
            assert(out@ =~= old(out)@ + encode_scalar(u));
        }
    }
}

/// The ASCII decimal digits of `n`, most significant first.
pub open spec fn dec_digits(n: nat) -> Seq<u8>
    decreases n,
{
    if n < 10 {
        seq![(48 + n) as u8]
    } else {
        dec_digits(n / 10) + seq![(48 + n % 10) as u8]
    }
}

/// Append the UTF-8 bytes of `s` to `out`.
pub fn push_str_bytes(out: &mut Vec<u8>, s: &str)
    ensures
        final(out)@ == old(out)@ + encode_utf8(s@),
{
    let b: &[u8] = s.as_bytes();
    let n = b.len();
    let mut j: usize = 0;
    while j < n
        invariant
            j <= n,
            n == b@.len(),
            b@ == encode_utf8(s@),
            out@ == old(out)@ + b@.subrange(0, j as int),
        decreases n - j,
    {
        out.push(b[j]);
        proof {
            assert(b@.subrange(0, j + 1 as int) =~= b@.subrange(0, j as int).push(b@[j as int]));
        }
        j = j + 1;
    }
    proof {
        assert(b@.subrange(0, n as int) =~= b@);
    }
}

/// Append the decimal digits of `n` to `out`.
pub fn push_usize_dec(out: &mut Vec<u8>, n: usize)
    ensures
        final(out)@ == old(out)@ + dec_digits(n as nat),
{
    let mut digits: Vec<u8> = Vec::new();
    let ghost mut tail: Seq<u8> = Seq::empty();
    let mut m = n;
    proof {
        assert(dec_digits(n as nat) =~= dec_digits(m as nat) + tail);
    }
    loop
        invariant_except_break
            dec_digits(n as nat) == dec_digits(m as nat) + tail,
        invariant
            tail.len() == digits@.len(),
            forall|j: int| 0 <= j < tail.len() ==> tail[j] == digits@[digits@.len() - 1 - j],
        ensures
            dec_digits(n as nat) == tail,
            tail.len() == digits@.len(),
            forall|j: int| 0 <= j < tail.len() ==> tail[j] == digits@[digits@.len() - 1 - j],
        decreases m,
    {
        let d: u8 = ((m % 10) as u8) + 48;
        digits.push(d);
        proof {
            let prev = tail;
            tail = seq![d] + tail;
            if m < 10 {
                assert(dec_digits(m as nat) =~= seq![d]);
                assert(dec_digits(n as nat) =~= tail);
            } else {
                assert(dec_digits(m as nat) == dec_digits((m as nat) / 10) + seq![d]);
                assert(dec_digits((m / 10) as nat) + tail =~= dec_digits(m as nat) + prev);
            }
        }
        if m < 10 {
            break ;
        }
        m = m / 10;
    }
    let len = digits.len();
    let mut k = len;
    proof {
        assert(out@ =~= out@ + tail.subrange(0, 0));
    }
    while k > 0
        invariant
            k <= len,
            len == digits@.len(),
            tail.len() == len,
            dec_digits(n as nat) == tail,
            forall|j: int| 0 <= j < tail.len() ==> tail[j] == digits@[digits@.len() - 1 - j],
            out@ == old(out)@ + tail.subrange(0, len - k),
        decreases k,
    {
        let d = digits[k - 1];
        out.push(d);
        proof {
            assert(tail.subrange(0, len - (k - 1)) =~= tail.subrange(0, len - k).push(
                tail[len - k],
            ));
        }
        k = k - 1;
    }
    proof {
        assert(tail.subrange(0, len as int) =~= tail);
    }
}

} // verus!
