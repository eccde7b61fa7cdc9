//! The correctness laws of the compiled artifacts.
//!
//! Everything here is proved of the very model that [`StructConfig::compile`]
//! pins its results to, so each law holds of every compiled index program
//! and query configuration: the prefix table and the emitted terms agree
//! (the central symmetry of the whole crate), facet slots follow declaration
//! order, and every emitted term is fenced off by a position gap.

use crate::program::StepSpec;
use crate::schema::{
    facet_steps, field_is_faceted, field_is_indexed, full_text_steps, has_unnamed, index_steps,
    lookup_prefix, payload_steps, prefix_entries, query_prefix, spec_steps, FieldSpec, StructSpec,
};
use vstd::prelude::*;

verus! {

/// The field a step reads, where it reads one.
pub open spec fn step_field(s: StepSpec) -> int {
    match s {
        StepSpec::Facet { field, .. } => field,
        StepSpec::Term { field, .. } => field,
        _ => -1,
    }
}

/// The slot a facet step stores into.
pub open spec fn step_slot(s: StepSpec) -> int {
    match s {
        StepSpec::Facet { slot, .. } => slot,
        _ => -1,
    }
}

/// The prefix a term step indexes under, the root written as the empty
/// prefix, as the query side writes it.
pub open spec fn op_prefix(p: Option<Seq<char>>) -> Seq<char> {
    match p {
        Some(q) => q,
        None => Seq::empty(),
    }
}

/// Some term step of the program indexes field text under this prefix.
pub open spec fn program_uses_prefix(steps: Seq<StepSpec>, p: Seq<char>) -> bool {
    exists|k: int|
        0 <= k < steps.len() && (#[trigger] steps[k]) is Term && op_prefix(steps[k]->Term_prefix)
            == p
}

/// Some entry of the prefix table resolves a query name to this prefix.
pub open spec fn config_maps_prefix(entries: Seq<(Seq<char>, Seq<char>)>, p: Seq<char>) -> bool {
    exists|k: int| 0 <= k < entries.len() && (#[trigger] entries[k]).1 == p
}

/// How many faceted fields a declaration has.
pub open spec fn facet_count(fields: Seq<FieldSpec>) -> int {
    facet_steps(fields, 0, 0).len() as int
}

/// The facet steps for the fields from position `i` on assign consecutive
/// slots starting at `slot`, one per faceted field, in declaration order.
pub proof fn lemma_facet_steps(fields: Seq<FieldSpec>, i: int, slot: int)
    requires
        0 <= i <= fields.len(),
    ensures
        forall|k: int|
            0 <= k < facet_steps(fields, i, slot).len() ==> {
                &&& (#[trigger] facet_steps(fields, i, slot)[k]) is Facet
                &&& step_slot(facet_steps(fields, i, slot)[k]) == slot + k
                &&& i <= step_field(facet_steps(fields, i, slot)[k]) < fields.len()
                &&& field_is_faceted(fields[step_field(facet_steps(fields, i, slot)[k])])
            },
        forall|k1: int, k2: int|
            0 <= k1 < k2 < facet_steps(fields, i, slot).len() ==> step_field(
                #[trigger] facet_steps(fields, i, slot)[k1],
            ) < step_field(#[trigger] facet_steps(fields, i, slot)[k2]),
        forall|j: int|
            i <= j < fields.len() && field_is_faceted(#[trigger] fields[j]) ==> exists|k: int|
                0 <= k < facet_steps(fields, i, slot).len() && step_field(
                    facet_steps(fields, i, slot)[k],
                ) == j,
    decreases fields.len() - i,
{
    if i < fields.len() {
        lemma_facet_steps(fields, i + 1, if field_is_faceted(fields[i]) {
            slot + 1
        } else {
            slot
        });
        let s = facet_steps(fields, i, slot);
        if field_is_faceted(fields[i]) {
            let rest = facet_steps(fields, i + 1, slot + 1);
            assert(s == seq![
                StepSpec::Facet { slot, field: i, custom: fields[i].facet_fn },
            ] + rest);
            assert forall|k: int| 0 <= k < s.len() implies {
                &&& (#[trigger] s[k]) is Facet
                &&& step_slot(s[k]) == slot + k
                &&& i <= step_field(s[k]) < fields.len()
                &&& field_is_faceted(fields[step_field(s[k])])
            } by {
                if k > 0 {
                    assert(s[k] == rest[k - 1]);
                }
            }
            assert forall|j: int|
                i <= j < fields.len() && field_is_faceted(#[trigger] fields[j]) implies exists|
                k: int,
            | 0 <= k < s.len() && step_field(s[k]) == j by {
                if j == i {
                    assert(step_field(s[0]) == i);
                } else {
                    let k0 = choose|k0: int|
                        0 <= k0 < rest.len() && step_field(rest[k0]) == j;
                    assert(s[k0 + 1] == rest[k0]);
                    assert(step_field(s[k0 + 1]) == j);
                }
            }
        } else {
            let rest = facet_steps(fields, i + 1, slot);
            assert(s == rest);
            assert forall|j: int|
                i <= j < fields.len() && field_is_faceted(#[trigger] fields[j]) implies exists|
                k: int,
            | 0 <= k < s.len() && step_field(s[k]) == j by {
                let k0 = choose|k0: int| 0 <= k0 < rest.len() && step_field(rest[k0]) == j;
                assert(step_field(s[k0]) == j);
            }
        }
    }
}

/// The term steps for the fields from position `i` on: exactly the indexed
/// fields emit, each term carries its field's declared prefix, and a
/// position gap follows every term at once.
pub proof fn lemma_index_steps(fields: Seq<FieldSpec>, i: int)
    requires
        0 <= i <= fields.len(),
    ensures
        forall|k: int|
            0 <= k < index_steps(fields, i).len() && (#[trigger] index_steps(fields, i)[k])
                is Term ==> {
                &&& i <= step_field(index_steps(fields, i)[k]) < fields.len()
                &&& field_is_indexed(fields[step_field(index_steps(fields, i)[k])])
                &&& index_steps(fields, i)[k]->Term_prefix == fields[step_field(
                    index_steps(fields, i)[k],
                )].prefix
            },
        forall|j: int|
            i <= j < fields.len() && field_is_indexed(#[trigger] fields[j]) ==> exists|k: int|
                0 <= k < index_steps(fields, i).len() && index_steps(fields, i)[k]
                    == (StepSpec::Term {
                    field: j,
                    prefix: fields[j].prefix,
                    custom: fields[j].index_fn,
                }),
        forall|k: int|
            0 <= k < index_steps(fields, i).len() && (#[trigger] index_steps(fields, i)[k])
                is Term ==> k + 1 < index_steps(fields, i).len() && index_steps(fields, i)[k + 1]
                is Pos,
    decreases fields.len() - i,
{
    if i < fields.len() {
        lemma_index_steps(fields, i + 1);
        let s = index_steps(fields, i);
        let rest = index_steps(fields, i + 1);
        if field_is_indexed(fields[i]) {
            let head = seq![
                StepSpec::Term { field: i, prefix: fields[i].prefix, custom: fields[i].index_fn },
                StepSpec::Pos,
            ];
            assert(s == head + rest);
            assert forall|k: int|
                0 <= k < s.len() && (#[trigger] s[k]) is Term implies {
                &&& i <= step_field(s[k]) < fields.len()
                &&& field_is_indexed(fields[step_field(s[k])])
                &&& s[k]->Term_prefix == fields[step_field(s[k])].prefix
                &&& k + 1 < s.len() && s[k + 1] is Pos
            } by {
                if k >= 2 {
                    assert(s[k] == rest[k - 2]);
                    assert(rest[k - 2] is Term);
                    assert(k - 2 + 1 < rest.len() && rest[k - 2 + 1] is Pos);
                    assert(s[k + 1] == rest[k - 1]);
                } else {
                    assert(k == 0);
                    assert(s[1] is Pos);
                }
            }
            assert forall|j: int|
                i <= j < fields.len() && field_is_indexed(#[trigger] fields[j]) implies exists|
                k: int,
            |
                0 <= k < s.len() && s[k] == (StepSpec::Term {
                    field: j,
                    prefix: fields[j].prefix,
                    custom: fields[j].index_fn,
                }) by {
                if j == i {
                    assert(s[0] == (StepSpec::Term {
                        field: i,
                        prefix: fields[i].prefix,
                        custom: fields[i].index_fn,
                    }));
                } else {
                    let k0 = choose|k0: int|
                        0 <= k0 < rest.len() && rest[k0] == (StepSpec::Term {
                            field: j,
                            prefix: fields[j].prefix,
                            custom: fields[j].index_fn,
                        });
                    assert(s[k0 + 2] == rest[k0]);
                }
            }
        } else {
            assert(s == rest);
            assert forall|j: int|
                i <= j < fields.len() && field_is_indexed(#[trigger] fields[j]) implies exists|
                k: int,
            |
                0 <= k < s.len() && s[k] == (StepSpec::Term {
                    field: j,
                    prefix: fields[j].prefix,
                    custom: fields[j].index_fn,
                }) by {
                let k0 = choose|k0: int|
                    0 <= k0 < rest.len() && rest[k0] == (StepSpec::Term {
                        field: j,
                        prefix: fields[j].prefix,
                        custom: fields[j].index_fn,
                    });
                assert(s[k0] == rest[k0]);
            }
        }
    }
}

/// The entry maps the name or the alias of some indexed, named field at or
/// after `lo` to that field's query prefix.
pub open spec fn entry_from_field(fields: Seq<FieldSpec>, lo: int, e: (Seq<char>, Seq<char>)) -> bool {
    exists|j: int|
        lo <= j < fields.len() && field_is_indexed(#[trigger] fields[j]) && fields[j].name is Some
            && (e == (fields[j].name->Some_0, query_prefix(fields[j])) || (fields[j].alias is Some
            && e == (fields[j].alias->Some_0, query_prefix(fields[j]))))
}

proof fn lemma_entry_from_field_widen(fields: Seq<FieldSpec>, lo: int, e: (Seq<char>, Seq<char>))
    requires
        entry_from_field(fields, lo + 1, e),
    ensures
        entry_from_field(fields, lo, e),
{
    let j = choose|j: int|
        lo + 1 <= j < fields.len() && field_is_indexed(#[trigger] fields[j]) && fields[j].name
            is Some && (e == (fields[j].name->Some_0, query_prefix(fields[j])) || (fields[j].alias
            is Some && e == (fields[j].alias->Some_0, query_prefix(fields[j]))));
    assert(lo <= j < fields.len() && field_is_indexed(fields[j]) && fields[j].name is Some && (e
        == (fields[j].name->Some_0, query_prefix(fields[j])) || (fields[j].alias is Some && e == (
    fields[j].alias->Some_0,
    query_prefix(fields[j]),
    ))));
}

/// The prefix table for the fields from position `i` on: every entry comes
/// from an indexed, named field (its name, or its alias, to its query
/// prefix), and every indexed, named field contributes its name entry and,
/// if aliased, its alias entry.
pub proof fn lemma_prefix_entries(fields: Seq<FieldSpec>, i: int)
    requires
        0 <= i <= fields.len(),
    ensures
        forall|k: int|
            0 <= k < prefix_entries(fields, i).len() ==> entry_from_field(
                fields,
                i,
                #[trigger] prefix_entries(fields, i)[k],
            ),
        forall|j: int|
            i <= j < fields.len() && field_is_indexed(#[trigger] fields[j]) && fields[j].name
                is Some ==> prefix_entries(fields, i).contains(
                (fields[j].name->Some_0, query_prefix(fields[j])),
            ),
        forall|j: int|
            i <= j < fields.len() && field_is_indexed(#[trigger] fields[j]) && fields[j].name
                is Some && fields[j].alias is Some ==> prefix_entries(fields, i).contains(
                (fields[j].alias->Some_0, query_prefix(fields[j])),
            ),
    decreases fields.len() - i,
{
    if i < fields.len() {
        lemma_prefix_entries(fields, i + 1);
        let s = prefix_entries(fields, i);
        let rest = prefix_entries(fields, i + 1);
        if field_is_indexed(fields[i]) && fields[i].name is Some {
            let head: Seq<(Seq<char>, Seq<char>)> = match fields[i].alias {
                Some(a) => seq![
                    (fields[i].name->Some_0, query_prefix(fields[i])),
                    (a, query_prefix(fields[i])),
                ],
                None => seq![(fields[i].name->Some_0, query_prefix(fields[i]))],
            };
            assert(s == head + rest);
            assert forall|k: int| 0 <= k < s.len() implies entry_from_field(
                fields,
                i,
                #[trigger] s[k],
            ) by {
                if k >= head.len() {
                    assert(s[k] == rest[k - head.len()]);
                    assert(entry_from_field(fields, i + 1, s[k]));
                    lemma_entry_from_field_widen(fields, i, s[k]);
                } else {
                    assert(field_is_indexed(fields[i]) && fields[i].name is Some);
                    assert(s[k] == head[k]);
                    if k == 0 {
                        assert(s[k] == (fields[i].name->Some_0, query_prefix(fields[i])));
                    } else {
                        assert(fields[i].alias is Some && s[k] == (
                            fields[i].alias->Some_0,
                            query_prefix(fields[i]),
                        ));
                    }
                }
            }
            assert(s[0] == (fields[i].name->Some_0, query_prefix(fields[i])));
            assert forall|j: int|
                i <= j < fields.len() && field_is_indexed(#[trigger] fields[j]) && fields[j].name
                    is Some implies s.contains(
                (fields[j].name->Some_0, query_prefix(fields[j])),
            ) by {
                if j == i {
                    assert(s[0] == (fields[j].name->Some_0, query_prefix(fields[j])));
                } else {
                    let k0 = choose|k0: int|
                        0 <= k0 < rest.len() && rest[k0] == (
                            fields[j].name->Some_0,
                            query_prefix(fields[j]),
                        );
                    assert(s[head.len() + k0] == rest[k0]);
                }
            }
            assert forall|j: int|
                i <= j < fields.len() && field_is_indexed(#[trigger] fields[j]) && fields[j].name
                    is Some && fields[j].alias is Some implies s.contains(
                (fields[j].alias->Some_0, query_prefix(fields[j])),
            ) by {
                if j == i {
                    assert(s[1] == (fields[j].alias->Some_0, query_prefix(fields[j])));
                } else {
                    let k0 = choose|k0: int|
                        0 <= k0 < rest.len() && rest[k0] == (
                            fields[j].alias->Some_0,
                            query_prefix(fields[j]),
                        );
                    assert(s[head.len() + k0] == rest[k0]);
                }
            }
        } else {
            assert(s == rest);
            assert forall|k: int| 0 <= k < s.len() implies entry_from_field(
                fields,
                i,
                #[trigger] s[k],
            ) by {
                assert(s[k] == rest[k]);
                assert(entry_from_field(fields, i + 1, s[k]));
                lemma_entry_from_field_widen(fields, i, s[k]);
            }
            assert forall|j: int|
                i <= j < fields.len() && field_is_indexed(#[trigger] fields[j]) && fields[j].name
                    is Some implies s.contains(
                (fields[j].name->Some_0, query_prefix(fields[j])),
            ) by {
                let k0 = choose|k0: int|
                    0 <= k0 < rest.len() && rest[k0] == (
                        fields[j].name->Some_0,
                        query_prefix(fields[j]),
                    );
                assert(s[k0] == rest[k0]);
            }
            assert forall|j: int|
                i <= j < fields.len() && field_is_indexed(#[trigger] fields[j]) && fields[j].name
                    is Some && fields[j].alias is Some implies s.contains(
                (fields[j].alias->Some_0, query_prefix(fields[j])),
            ) by {
                let k0 = choose|k0: int|
                    0 <= k0 < rest.len() && rest[k0] == (
                        fields[j].alias->Some_0,
                        query_prefix(fields[j]),
                    );
                assert(s[k0] == rest[k0]);
            }
        }
    }
}

/// Prefix symmetry.  In any compiled schema whose fields are all named:
/// every indexed field's name, and its alias if it has one, resolves in the
/// prefix table to the very prefix its term step indexes under; and a
/// prefix is indexed under by some term step of the program if and only if
/// some entry of the table resolves to it.
pub proof fn lemma_prefix_symmetry(s: StructSpec)
    requires
        !has_unnamed(s.fields),
    ensures
        forall|j: int|
            0 <= j < s.fields.len() && field_is_indexed(#[trigger] s.fields[j]) ==> prefix_entries(
                s.fields,
                0,
            ).contains((s.fields[j].name->Some_0, query_prefix(s.fields[j]))),
        forall|j: int|
            0 <= j < s.fields.len() && field_is_indexed(#[trigger] s.fields[j]) && s.fields[j].alias
                is Some ==> prefix_entries(s.fields, 0).contains(
                (s.fields[j].alias->Some_0, query_prefix(s.fields[j])),
            ),
        forall|p: Seq<char>|
            program_uses_prefix(index_steps(s.fields, 0), p) <==> config_maps_prefix(
                prefix_entries(s.fields, 0),
                p,
            ),
        forall|p: Seq<char>|
            program_uses_prefix(spec_steps(s), p) <==> config_maps_prefix(
                prefix_entries(s.fields, 0),
                p,
            ),
{
    lemma_index_steps(s.fields, 0);
    lemma_prefix_entries(s.fields, 0);
    let b = index_steps(s.fields, 0);
    let entries = prefix_entries(s.fields, 0);
    assert forall|j: int|
        0 <= j < s.fields.len() && field_is_indexed(#[trigger] s.fields[j]) implies s.fields[j].name
        is Some by {
        assert(!(s.fields[j].name is None));
    }
    assert forall|p: Seq<char>| program_uses_prefix(b, p) implies config_maps_prefix(
        entries,
        p,
    ) by {
        let k = choose|k: int|
            0 <= k < b.len() && (#[trigger] b[k]) is Term && op_prefix(b[k]->Term_prefix) == p;
        let j = step_field(b[k]);
        assert(field_is_indexed(s.fields[j]));
        assert(op_prefix(s.fields[j].prefix) == query_prefix(s.fields[j]));
        let e = (s.fields[j].name->Some_0, query_prefix(s.fields[j]));
        assert(entries.contains(e));
        let k2 = choose|k2: int| 0 <= k2 < entries.len() && entries[k2] == e;
        assert(entries[k2].1 == p);
    }
    assert forall|p: Seq<char>| config_maps_prefix(entries, p) implies program_uses_prefix(
        b,
        p,
    ) by {
        let k = choose|k: int| 0 <= k < entries.len() && (#[trigger] entries[k]).1 == p;
        assert(entry_from_field(s.fields, 0, entries[k]));
        let j = choose|j: int|
            0 <= j < s.fields.len() && field_is_indexed(s.fields[j]) && s.fields[j].name is Some
                && ((entries[k]) == (s.fields[j].name->Some_0, query_prefix(s.fields[j])) || (
            s.fields[j].alias is Some && entries[k] == (
                s.fields[j].alias->Some_0,
                query_prefix(s.fields[j]),
            )));
        assert(p == query_prefix(s.fields[j]));
        let t = StepSpec::Term {
            field: j,
            prefix: s.fields[j].prefix,
            custom: s.fields[j].index_fn,
        };
        let k2 = choose|k2: int| 0 <= k2 < b.len() && b[k2] == t;
        assert(b[k2] is Term && op_prefix(b[k2]->Term_prefix) == p);
    }
    lemma_terms_of_program(s);
}

/// The term steps of the whole program are exactly those of its field
/// segment, so a prefix is used by the program exactly when a term step of
/// that segment uses it.
proof fn lemma_terms_of_program(s: StructSpec)
    ensures
        forall|p: Seq<char>|
            program_uses_prefix(spec_steps(s), p) <==> program_uses_prefix(
                index_steps(s.fields, 0),
                p,
            ),
{
    lemma_facet_steps(s.fields, 0, 0);
    let a = facet_steps(s.fields, 0, 0);
    let b = index_steps(s.fields, 0);
    let c = full_text_steps(s);
    let d = payload_steps(s);
    let w = spec_steps(s);
    assert(w == a + b + c + d);
    assert forall|p: Seq<char>| program_uses_prefix(w, p) implies program_uses_prefix(b, p) by {
        let k = choose|k: int|
            0 <= k < w.len() && (#[trigger] w[k]) is Term && op_prefix(w[k]->Term_prefix) == p;
        if k < a.len() {
            assert(w[k] == a[k]);
            assert(a[k] is Facet);
        } else if k < a.len() + b.len() {
            assert(w[k] == b[k - a.len()]);
        } else if k < a.len() + b.len() + c.len() {
            assert(w[k] == c[k - a.len() - b.len()]);
            assert(c[k - a.len() - b.len()] is FullText);
        } else {
            assert(w[k] == d[k - a.len() - b.len() - c.len()]);
            assert(d[k - a.len() - b.len() - c.len()] is Payload);
        }
    }
    assert forall|p: Seq<char>| program_uses_prefix(b, p) implies program_uses_prefix(w, p) by {
        let k = choose|k: int|
            0 <= k < b.len() && (#[trigger] b[k]) is Term && op_prefix(b[k]->Term_prefix) == p;
        assert(w[a.len() + k] == b[k]);
    }
}

/// Resolving a query name by its first matching entry is sound and
/// complete for the table: what it returns is an entry of the table, and it
/// returns nothing exactly when no entry carries the name.
pub proof fn lemma_lookup_prefix(entries: Seq<(Seq<char>, Seq<char>)>, key: Seq<char>)
    ensures
        lookup_prefix(entries, key) matches Some(p) ==> entries.contains((key, p)),
        lookup_prefix(entries, key) is None <==> (forall|k: int|
            0 <= k < entries.len() ==> (#[trigger] entries[k]).0 != key),
    decreases entries.len(),
{
    if entries.len() > 0 {
        let rest = entries.drop_first();
        lemma_lookup_prefix(rest, key);
        if entries[0].0 == key {
            assert(entries[0] == (key, entries[0].1));
            assert(entries.contains((key, entries[0].1)));
        } else {
            match lookup_prefix(entries, key) {
                Some(p) => {
                    let k0 = choose|k0: int| 0 <= k0 < rest.len() && rest[k0] == (key, p);
                    assert(entries[k0 + 1] == rest[k0]);
                    assert(entries[k0 + 1].0 == key);
                },
                None => {
                    assert forall|k: int| 0 <= k < entries.len() implies (#[trigger] entries[k]).0
                        != key by {
                        if k > 0 {
                            assert(entries[k] == rest[k - 1]);
                        }
                    }
                },
            }
        }
    }
}

/// Facet slot stability.  The facet steps of a compiled program are its
/// first steps, one per faceted field in declaration order, and the k-th of
/// them stores slot k.  The program is a function of the declaration alone,
/// so compiling the same declaration twice assigns identical slots to
/// identical fields.
pub proof fn lemma_facet_slot_stability(s: StructSpec)
    ensures
        forall|k: int|
            0 <= k < facet_count(s.fields) ==> (#[trigger] spec_steps(s)[k]) is Facet && step_slot(
                spec_steps(s)[k],
            ) == k && field_is_faceted(s.fields[step_field(spec_steps(s)[k])]),
        forall|k1: int, k2: int|
            0 <= k1 < k2 < facet_count(s.fields) ==> step_field(#[trigger] spec_steps(s)[k1])
                < step_field(#[trigger] spec_steps(s)[k2]),
{
    lemma_facet_steps(s.fields, 0, 0);
    let a = facet_steps(s.fields, 0, 0);
    let w = spec_steps(s);
    assert(w == a + index_steps(s.fields, 0) + full_text_steps(s) + payload_steps(s));
    assert forall|k: int| 0 <= k < facet_count(s.fields) implies (#[trigger] w[k]) is Facet
        && step_slot(w[k]) == k && field_is_faceted(s.fields[step_field(w[k])]) by {
        assert(w[k] == a[k]);
    }
    assert forall|k1: int, k2: int| 0 <= k1 < k2 < facet_count(s.fields) implies step_field(
        #[trigger] w[k1],
    ) < step_field(#[trigger] w[k2]) by {
        assert(w[k1] == a[k1]);
        assert(w[k2] == a[k2]);
    }
}

/// Position-increment isolation.  In any compiled program, every term step
/// is at once followed by a position gap, so the last term of one field and
/// the first term of the next are never adjacent, and no phrase can span
/// the two fields.
pub proof fn lemma_position_increment_isolation(s: StructSpec)
    ensures
        forall|k: int|
            0 <= k < spec_steps(s).len() && (#[trigger] spec_steps(s)[k]) is Term ==> k + 1
                < spec_steps(s).len() && spec_steps(s)[k + 1] is Pos,
{
    lemma_facet_steps(s.fields, 0, 0);
    lemma_index_steps(s.fields, 0);
    let a = facet_steps(s.fields, 0, 0);
    let b = index_steps(s.fields, 0);
    let c = full_text_steps(s);
    let d = payload_steps(s);
    let w = spec_steps(s);
    assert(w == a + b + c + d);
    assert forall|k: int| 0 <= k < w.len() && (#[trigger] w[k]) is Term implies k + 1 < w.len()
        && w[k + 1] is Pos by {
        if k < a.len() {
            assert(w[k] == a[k]);
            assert(a[k] is Facet);
        } else if k < a.len() + b.len() {
            let m = k - a.len();
            assert(w[k] == b[m]);
            assert(m + 1 < b.len() && b[m + 1] is Pos);
            assert(w[k + 1] == b[m + 1]);
        } else if k < a.len() + b.len() + c.len() {
            assert(w[k] == c[k - a.len() - b.len()]);
            assert(c[k - a.len() - b.len()] is FullText);
        } else {
            assert(w[k] == d[k - a.len() - b.len() - c.len()]);
            assert(d[k - a.len() - b.len() - c.len()] is Payload);
        }
    }
}

} // verus!
