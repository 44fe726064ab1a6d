//! Emission of one generated taxonomy module: import lines for every
//! generated document module, one exported constant array per tag, and one
//! exported merged type alias per tag, in a fixed, byte-deterministic order.
//!
//! The emitter builds the module's bytes; it touches no file itself.  Tags
//! appear in the order of the taxonomy list, and each tag's documents appear
//! in the order of its id list; ids are positions in the output-path list.

use vstd::prelude::*;
use vstd::utf8::encode_utf8;

use crate::bytesink::dec_digits;
use crate::bytesink::push_str_bytes;
use crate::bytesink::push_usize_dec;
use crate::casing::camel_bytes;
use crate::casing::snake_bytes;
use crate::casing::write_camel_case;
use crate::casing::write_snake_case;

verus! {

/// The views of an ordered list of generated-module paths.
pub open spec fn paths_view(ps: Seq<String>) -> Seq<Seq<char>> {
    Seq::new(ps.len(), |i: int| ps[i]@)
}

/// The views of an ordered tag-to-document-ids list.
pub open spec fn taxonomies_view(ts: Seq<(String, Vec<usize>)>) -> Seq<(Seq<char>, Seq<usize>)> {
    Seq::new(ts.len(), |i: int| (ts[i].0@, ts[i].1@))
}

/// The import line binding positional alias `i` to the generated module at
/// path `p`.
pub open spec fn import_line(i: nat, p: Seq<char>) -> Seq<u8> {
    encode_utf8("import q"@) + dec_digits(i) + encode_utf8(" from \"./"@) + encode_utf8(p)
        + encode_utf8("\";\n"@)
}

/// The import lines for the paths from position `i` on, in list order.
pub open spec fn import_lines_from(ps: Seq<Seq<char>>, i: int) -> Seq<u8>
    decreases ps.len() - i,
{
    if i < 0 || i >= ps.len() {
        Seq::empty()
    } else {
        import_line(i as nat, ps[i]) + import_lines_from(ps, i + 1)
    }
}

/// The aliases after the first inside one constant array literal, each with
/// its comma.
pub open spec fn array_items_from(ids: Seq<usize>, i: int) -> Seq<u8>
    decreases ids.len() - i,
{
    if i < 0 || i >= ids.len() {
        Seq::empty()
    } else {
        encode_utf8(", q"@) + dec_digits(ids[i] as nat) + array_items_from(ids, i + 1)
    }
}

/// The contents of one constant array literal: the aliases of the tag's ids,
/// in id-list order; empty for an empty id list.
pub open spec fn array_items(ids: Seq<usize>) -> Seq<u8> {
    if ids.len() == 0 {
        Seq::empty()
    } else {
        encode_utf8(" q"@) + dec_digits(ids[0] as nat) + array_items_from(ids, 1)
    }
}

/// The union operands after the first inside one type alias, each with its
/// alternation.
pub open spec fn union_items_from(ids: Seq<usize>, i: int) -> Seq<u8>
    decreases ids.len() - i,
{
    if i < 0 || i >= ids.len() {
        Seq::empty()
    } else {
        encode_utf8(" | typeof q"@) + dec_digits(ids[i] as nat) + union_items_from(ids, i + 1)
    }
}

/// The union of the compile-time types of the tag's aliases, in id-list
/// order; empty for an empty id list.
pub open spec fn union_items(ids: Seq<usize>) -> Seq<u8> {
    if ids.len() == 0 {
        Seq::empty()
    } else {
        encode_utf8("typeof q"@) + dec_digits(ids[0] as nat) + union_items_from(ids, 1)
    }
}

/// The exported constant declaration for one tag: its snake-case name, its
/// camel-case element type, and its alias array.
pub open spec fn const_line(tag: Seq<char>, ids: Seq<usize>) -> Seq<u8> {
    encode_utf8("export const "@) + snake_bytes(tag) + encode_utf8(": "@) + camel_bytes(tag)
        + encode_utf8("[] = ["@) + array_items(ids) + encode_utf8("];\n"@)
}

/// The exported type alias for one tag: its camel-case name and the merge
/// helper applied to the union of its aliases' types.
pub open spec fn type_line(tag: Seq<char>, ids: Seq<usize>) -> Seq<u8> {
    encode_utf8("export type "@) + camel_bytes(tag) + encode_utf8(" = Merge<"@) + union_items(ids)
        + encode_utf8(">;\n"@)
}

/// The constant declarations for the tags from position `i` on, in list
/// order.
pub open spec fn const_lines_from(ts: Seq<(Seq<char>, Seq<usize>)>, i: int) -> Seq<u8>
    decreases ts.len() - i,
{
    if i < 0 || i >= ts.len() {
        Seq::empty()
    } else {
        const_line(ts[i].0, ts[i].1) + const_lines_from(ts, i + 1)
    }
}

/// The type aliases for the tags from position `i` on, in list order.
pub open spec fn type_lines_from(ts: Seq<(Seq<char>, Seq<usize>)>, i: int) -> Seq<u8>
    decreases ts.len() - i,
{
    if i < 0 || i >= ts.len() {
        Seq::empty()
    } else {
        type_line(ts[i].0, ts[i].1) + type_lines_from(ts, i + 1)
    }
}

/// The whole generated module: the fixed merge-helper import, one import per
/// output path, a blank line, the constant block, a blank line, and the type
/// block.
pub open spec fn module_bytes(ps: Seq<Seq<char>>, ts: Seq<(Seq<char>, Seq<usize>)>) -> Seq<u8> {
    encode_utf8("import type { Merge } from \"./generated-helpers\";\n"@) + import_lines_from(
        ps,
        0,
    ) + encode_utf8("\n"@) + const_lines_from(ts, 0) + encode_utf8("\n"@) + type_lines_from(ts, 0)
}

/// Build the generated taxonomy module for `taxonomies` over `output_paths`.
///
/// Returns the module's bytes, or nothing when the taxonomy list is empty:
/// an empty taxonomy list must cause no output at all.  The result is a
/// function of the inputs alone, so two calls on equal inputs yield
/// byte-identical output.
pub fn generate(output_paths: &Vec<String>, taxonomies: &Vec<(String, Vec<usize>)>) -> (r: Option<
    Vec<u8>,
>)
    ensures
        (r is Some) <==> taxonomies@.len() > 0,
        r matches Some(v) ==> v@ == module_bytes(
            paths_view(output_paths@),
            taxonomies_view(taxonomies@),
        ),
{
    if taxonomies.len() == 0 {
        return None;
    }
    let ghost ps = paths_view(output_paths@);
    let ghost ts = taxonomies_view(taxonomies@);
    let mut out: Vec<u8> = Vec::new();
    push_str_bytes(&mut out, "import type { Merge } from \"./generated-helpers\";\n");
    let ghost ck_header = out@;
    proof {
        assert(ck_header =~= encode_utf8("import type { Merge } from \"./generated-helpers\";\n"@));
    }
    let np = output_paths.len();
    let mut i: usize = 0;
    while i < np
        invariant
            i <= np,
            np == output_paths@.len(),
            ps == paths_view(output_paths@),
            ck_header + import_lines_from(ps, 0) == out@ + import_lines_from(ps, i as int),
        decreases np - i,
    {
        let ghost o0 = out@;
        push_str_bytes(&mut out, "import q");
        push_usize_dec(&mut out, i);
        push_str_bytes(&mut out, " from \"./");
        push_str_bytes(&mut out, output_paths[i].as_str());
        push_str_bytes(&mut out, "\";\n");
        proof {
            assert(ps[i as int] == output_paths@[i as int]@);
            assert(out@ =~= o0 + import_line(i as nat, ps[i as int]));
            assert(import_lines_from(ps, i as int) == import_line(i as nat, ps[i as int])
                + import_lines_from(ps, i + 1));
            assert(ck_header + import_lines_from(ps, 0) =~= out@ + import_lines_from(ps, i + 1));
        }
        i = i + 1;
    }
    push_str_bytes(&mut out, "\n");
    let ghost ck_imports = out@;
    proof {
        assert(import_lines_from(ps, np as int) =~= Seq::<u8>::empty());
        assert(ck_imports =~= ck_header + import_lines_from(ps, 0) + encode_utf8("\n"@));
    }
    let nt = taxonomies.len();
    let mut t: usize = 0;
    while t < nt
        invariant
            t <= nt,
            nt == taxonomies@.len(),
            ts == taxonomies_view(taxonomies@),
            ck_imports + const_lines_from(ts, 0) == out@ + const_lines_from(ts, t as int),
        decreases nt - t,
    {
        let ghost o0 = out@;
        push_str_bytes(&mut out, "export const ");
        write_snake_case(taxonomies[t].0.as_str(), &mut out);
        push_str_bytes(&mut out, ": ");
        write_camel_case(taxonomies[t].0.as_str(), &mut out);
        push_str_bytes(&mut out, "[] = [");
        let ghost o1 = out@;
        let nids = taxonomies[t].1.len();
        proof {
            assert(ts[t as int].1 == taxonomies@[t as int].1@);
        }
        if nids > 0 {
            push_str_bytes(&mut out, " q");
            let id0 = taxonomies[t].1[0];
            push_usize_dec(&mut out, id0);
            let mut j: usize = 1;
            proof {
                assert(o1 + array_items(ts[t as int].1) =~= out@ + array_items_from(
                    ts[t as int].1,
                    1,
                ));
            }
            while j < nids
                invariant
                    1 <= j <= nids,
                    t < nt,
                    nt == taxonomies@.len(),
                    ts == taxonomies_view(taxonomies@),
                    nids == taxonomies@[t as int].1@.len(),
                    ts[t as int].1 == taxonomies@[t as int].1@,
                    o1 + array_items(ts[t as int].1) == out@ + array_items_from(
                        ts[t as int].1,
                        j as int,
                    ),
                decreases nids - j,
            {
                let ghost o2 = out@;
                push_str_bytes(&mut out, ", q");
                let idj = taxonomies[t].1[j];
                push_usize_dec(&mut out, idj);
                proof {
                    assert(out@ =~= o2 + (encode_utf8(", q"@) + dec_digits(
                        ts[t as int].1[j as int] as nat,
                    )));
                    assert(o1 + array_items(ts[t as int].1) =~= out@ + array_items_from(
                        ts[t as int].1,
                        j + 1,
                    ));
                }
                j = j + 1;
            }
            proof {
                assert(array_items_from(ts[t as int].1, nids as int) =~= Seq::<u8>::empty());
            }
        } else {
            proof {
                assert(array_items(ts[t as int].1) =~= Seq::<u8>::empty());
            }
        }
        push_str_bytes(&mut out, "];\n");
        proof {
            assert(ts[t as int].0 == taxonomies@[t as int].0@);
            assert(out@ =~= o0 + const_line(ts[t as int].0, ts[t as int].1));
            assert(const_lines_from(ts, t as int) == const_line(ts[t as int].0, ts[t as int].1)
                + const_lines_from(ts, t + 1));
            assert(ck_imports + const_lines_from(ts, 0) =~= out@ + const_lines_from(ts, t + 1));
        }
        t = t + 1;
    }
    push_str_bytes(&mut out, "\n");
    let ghost ck_consts = out@;
    proof {
        assert(const_lines_from(ts, nt as int) =~= Seq::<u8>::empty());
        assert(ck_consts =~= ck_imports + const_lines_from(ts, 0) + encode_utf8("\n"@));
    }
    let mut t2: usize = 0;
    while t2 < nt
        invariant
            t2 <= nt,
            nt == taxonomies@.len(),
            ts == taxonomies_view(taxonomies@),
            ck_consts + type_lines_from(ts, 0) == out@ + type_lines_from(ts, t2 as int),
        decreases nt - t2,
    {
        let ghost o0 = out@;
        push_str_bytes(&mut out, "export type ");
        write_camel_case(taxonomies[t2].0.as_str(), &mut out);
        push_str_bytes(&mut out, " = Merge<");
        let ghost o1 = out@;
        let nids = taxonomies[t2].1.len();
        proof {
            assert(ts[t2 as int].1 == taxonomies@[t2 as int].1@);
        }
        if nids > 0 {
            push_str_bytes(&mut out, "typeof q");
            let id0 = taxonomies[t2].1[0];
            push_usize_dec(&mut out, id0);
            let mut j: usize = 1;
            proof {
                assert(o1 + union_items(ts[t2 as int].1) =~= out@ + union_items_from(
                    ts[t2 as int].1,
                    1,
                ));
            }
            while j < nids
                invariant
                    1 <= j <= nids,
                    t2 < nt,
                    nt == taxonomies@.len(),
                    ts == taxonomies_view(taxonomies@),
                    nids == taxonomies@[t2 as int].1@.len(),
                    ts[t2 as int].1 == taxonomies@[t2 as int].1@,
                    o1 + union_items(ts[t2 as int].1) == out@ + union_items_from(
                        ts[t2 as int].1,
                        j as int,
                    ),
                decreases nids - j,
            {
                let ghost o2 = out@;
                push_str_bytes(&mut out, " | typeof q");
                let idj = taxonomies[t2].1[j];
                push_usize_dec(&mut out, idj);
                proof {
                    assert(out@ =~= o2 + (encode_utf8(" | typeof q"@) + dec_digits(
                        ts[t2 as int].1[j as int] as nat,
                    )));
                    assert(o1 + union_items(ts[t2 as int].1) =~= out@ + union_items_from(
                        ts[t2 as int].1,
                        j + 1,
                    ));
                }
                j = j + 1;
            }
            proof {
                assert(union_items_from(ts[t2 as int].1, nids as int) =~= Seq::<u8>::empty());
            }
        } else {
            proof {
                assert(union_items(ts[t2 as int].1) =~= Seq::<u8>::empty());
            }
        }
        push_str_bytes(&mut out, ">;\n");
        proof {
            assert(ts[t2 as int].0 == taxonomies@[t2 as int].0@);
            assert(out@ =~= o0 + type_line(ts[t2 as int].0, ts[t2 as int].1));
            assert(type_lines_from(ts, t2 as int) == type_line(ts[t2 as int].0, ts[t2 as int].1)
                + type_lines_from(ts, t2 + 1));
            assert(ck_consts + type_lines_from(ts, 0) =~= out@ + type_lines_from(ts, t2 + 1));
        }
        t2 = t2 + 1;
    }
    proof {
        assert(type_lines_from(ts, nt as int) =~= Seq::<u8>::empty());
        assert(out@ =~= module_bytes(ps, ts));
    }
    Some(out)
}

} // verus!
