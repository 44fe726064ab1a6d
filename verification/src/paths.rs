//! Deriving a generated-module file path from a source content path: one
//! leading separator is stripped, every remaining separator becomes an
//! underscore, the extension of the generated module follows the source
//! extension, and the result is joined onto the output directory.

use vstd::prelude::*;
use vstd::string::StrSliceExecFns;
use vstd::string::StringExecFns;
use vstd::utf8::encode_utf8;

use crate::bytesink::push_str_bytes;
use crate::chars::push_char;

verus! {

/// `s` without one leading path separator, when it has one.
pub open spec fn strip_one_sep(s: Seq<char>) -> Seq<char> {
    if s.len() > 0 && s[0] == '/' {
        s.drop_first()
    } else {
        s
    }
}

/// `s` with every path separator replaced by an underscore.
pub open spec fn seps_to_underscores(s: Seq<char>) -> Seq<char> {
    Seq::new(s.len(), |i: int| if s[i] == '/' {
        '_'
    } else {
        s[i]
    })
}

/// The source path names a document with the extended markup extension.
pub open spec fn has_mdx_ext(s: Seq<char>) -> bool {
    &&& s.len() >= 4
    &&& s[s.len() - 4] == '.'
    &&& s[s.len() - 3] == 'm'
    &&& s[s.len() - 2] == 'd'
    &&& s[s.len() - 1] == 'x'
}

/// The file name of the generated module for the source path `s`: separators
/// flattened to underscores and the generated extension appended.
pub open spec fn mapped_file_name(s: Seq<char>) -> Seq<char> {
    seps_to_underscores(strip_one_sep(s)) + (if has_mdx_ext(s) {
        ".tsx"@
    } else {
        ".ts"@
    })
}

/// `file` joined onto the directory `outdir`: a separator is inserted unless
/// the directory is empty or already ends in one.
pub open spec fn joined(outdir: Seq<char>, file: Seq<char>) -> Seq<char> {
    if outdir.len() == 0 {
        file
    } else if outdir[outdir.len() - 1] == '/' {
        outdir + file
    } else {
        outdir + seq!['/'] + file
    }
}

/// The full path of the generated module for source path `path` under the
/// output directory `outdir`.
pub open spec fn spec_output_path(outdir: Seq<char>, path: Seq<char>) -> Seq<char> {
    joined(outdir, mapped_file_name(path))
}

/// Derive the generated-module path for `path` under `outdir`.
///
/// Pure and total: no error path.
pub fn output_path(outdir: &str, path: &str) -> (r: String)
    ensures
        r@ == spec_output_path(outdir@, path@),
{
    let mut r = String::new();
    r.append(outdir);
    let on = outdir.unicode_len();
    if on > 0 && outdir.get_char(on - 1) != '/' {
        push_char(&mut r, '/');
    }
    let ghost base = r@;
    let n = path.unicode_len();
    let start: usize = if n > 0 && path.get_char(0) == '/' {
        1
    } else {
        0
    };
    let ghost stripped = strip_one_sep(path@);
    proof {
        assert(stripped =~= path@.subrange(start as int, n as int));
        assert(seps_to_underscores(stripped).subrange(0, 0) =~= Seq::<char>::empty());
        assert(r@ =~= base + seps_to_underscores(stripped).subrange(0, 0));
    }
    let mut i: usize = start;
    while i < n
        invariant
            start <= i <= n,
            n == path@.len(),
            stripped == strip_one_sep(path@),
            stripped =~= path@.subrange(start as int, n as int),
            r@ == base + seps_to_underscores(stripped).subrange(0, i - start),
        decreases n - i,
    {
        let c = path.get_char(i);
        if c == '/' {
            push_char(&mut r, '_');
        } else {
            push_char(&mut r, c);
        }
        proof {
            assert(stripped[i - start] == path@[i as int]);
            assert(seps_to_underscores(stripped).subrange(0, i + 1 - start)
                =~= seps_to_underscores(stripped).subrange(0, i - start).push(
                if path@[i as int] == '/' {
                    '_'
                } else {
                    path@[i as int]
                },
            ));
        }
        i = i + 1;
    }
    proof {
        assert(seps_to_underscores(stripped).subrange(0, n - start) =~= seps_to_underscores(
            stripped,
        ));
    }
    let is_mdx = n >= 4 && path.get_char(n - 4) == '.' && path.get_char(n - 3) == 'm'
        && path.get_char(n - 2) == 'd' && path.get_char(n - 1) == 'x';
    assert(is_mdx == has_mdx_ext(path@));
    if is_mdx {
        r.append(".tsx");
    } else {
        r.append(".ts");
    }
    proof {
        assert(r@ =~= spec_output_path(outdir@, path@));
    }
    r
}

/// Stream the generated-module path for `path` under `outdir` into the byte
/// sink `out`, as UTF-8.
pub fn write_output_path(outdir: &str, path: &str, out: &mut Vec<u8>)
    ensures
        final(out)@ == old(out)@ + encode_utf8(spec_output_path(outdir@, path@)),
{
    let p = output_path(outdir, path);
    push_str_bytes(out, p.as_str());
}

} // verus!
