use vstd::prelude::*;
use crate::decode::{
    decode_document, decode_entries, decode_entry, decode_node, decode_nodes, decode_scalar,
};
use crate::doc::{
    DocumentView, EntryView, NodeView, ScalarView, document_height, node_height, nodes_height,
};
use crate::encode::{build_node_spec, pairs_height, value_height, values_height};
use crate::value::{ValueView, record_has_key, record_insert};

verus! {

/// No two pairs of a record carry the same key.
pub open spec fn distinct_keys(pairs: Seq<(Seq<char>, ValueView)>) -> bool {
    forall|i: int, j: int| 0 <= i < j < pairs.len() ==> pairs[i].0 != pairs[j].0
}

/// Every record anywhere inside the value has unique keys: the well-
/// formedness invariant of the generic value model.
pub open spec fn wf_value(v: ValueView) -> bool
    decreases value_height(v),
{
    match v {
        ValueView::List { vals, .. } => wf_values(vals),
        ValueView::Record { pairs, .. } => distinct_keys(pairs) && wf_pairs(pairs),
        _ => true,
    }
}

pub open spec fn wf_values(s: Seq<ValueView>) -> bool
    decreases values_height(s),
{
    if s.len() == 0 {
        true
    } else {
        wf_values(s.drop_last()) && wf_value(s.last())
    }
}

pub open spec fn wf_pairs(s: Seq<(Seq<char>, ValueView)>) -> bool
    decreases pairs_height(s),
{
    if s.len() == 0 {
        true
    } else {
        wf_pairs(s.drop_last()) && wf_value(s.last().1)
    }
}

/// A sequence of values is well-formed when each element is.
pub proof fn lemma_wf_values_pointwise(s: Seq<ValueView>)
    requires
        forall|i: int| 0 <= i < s.len() ==> wf_value(#[trigger] s[i]),
    ensures
        wf_values(s),
    decreases s.len(),
{
    if s.len() > 0 {
        assert(forall|i: int| 0 <= i < s.drop_last().len() ==> s.drop_last()[i] == s[i]);
        lemma_wf_values_pointwise(s.drop_last());
    }
}

/// A sequence of pairs is well-formed when each pair's value is.
pub proof fn lemma_wf_pairs_pointwise(s: Seq<(Seq<char>, ValueView)>)
    requires
        forall|i: int| 0 <= i < s.len() ==> wf_value((#[trigger] s[i]).1),
    ensures
        wf_pairs(s),
    decreases s.len(),
{
    if s.len() > 0 {
        assert(forall|i: int| 0 <= i < s.drop_last().len() ==> s.drop_last()[i] == s[i]);
        lemma_wf_pairs_pointwise(s.drop_last());
    }
}

/// Each pair of a well-formed sequence has a well-formed value.
pub proof fn lemma_wf_pairs_elem(s: Seq<(Seq<char>, ValueView)>, i: int)
    requires
        wf_pairs(s),
        0 <= i < s.len(),
    ensures
        wf_value(s[i].1),
    decreases s.len(),
{
    if i < s.len() - 1 {
        lemma_wf_pairs_elem(s.drop_last(), i);
    }
}

/// Inserting a well-formed value into a record with unique keys keeps the
/// keys unique and every value well-formed.
pub proof fn lemma_record_insert_wf(
    pairs: Seq<(Seq<char>, ValueView)>,
    k: Seq<char>,
    v: ValueView,
)
    requires
        distinct_keys(pairs),
        wf_pairs(pairs),
        wf_value(v),
    ensures
        distinct_keys(record_insert(pairs, k, v)),
        wf_pairs(record_insert(pairs, k, v)),
    decreases pairs.len(),
{
    if record_has_key(pairs, k) {
        let i = choose|i: int| 0 <= i < pairs.len() && pairs[i].0 == k;
        assert forall|j: int| 0 <= j < i implies pairs[j].0 != k by {
            assert(pairs[j].0 != pairs[i].0);
        }
        crate::value::lemma_record_insert_found(pairs, k, v, i);
        let out = pairs.update(i, (k, v));
        assert(distinct_keys(out)) by {
            assert forall|a: int, b: int| 0 <= a < b < out.len() implies out[a].0 != out[b].0 by {
                assert(out[a].0 == pairs[a].0 && out[b].0 == pairs[b].0);
            }
        }
        assert forall|j: int| 0 <= j < out.len() implies wf_value((#[trigger] out[j]).1) by {
            if j != i {
                lemma_wf_pairs_elem(pairs, j);
            }
        }
        lemma_wf_pairs_pointwise(out);
    } else {
        crate::value::lemma_record_insert_fresh(pairs, k, v);
        let out = pairs.push((k, v));
        assert(distinct_keys(out)) by {
            assert forall|a: int, b: int| 0 <= a < b < out.len() implies out[a].0 != out[b].0 by {
                if b < out.len() - 1 {
                    assert(out[a].0 == pairs[a].0 && out[b].0 == pairs[b].0);
                } else {
                    assert(out[a].0 == pairs[a].0 && out[b].0 == k);
                    assert(!record_has_key(pairs, k));
                }
            }
        }
        assert forall|j: int| 0 <= j < out.len() implies wf_value((#[trigger] out[j]).1) by {
            if j < out.len() - 1 {
                lemma_wf_pairs_elem(pairs, j);
            }
        }
        lemma_wf_pairs_pointwise(out);
    }
}

/// A decoded entry is well-formed.
pub proof fn lemma_decode_entry_wf(e: EntryView)
    ensures
        wf_value(decode_entry(e)),
{
    let v = decode_scalar(e.value, e.span);
    assert(wf_value(v)) by {
        match e.value {
            ScalarView::Str(_) => {},
            ScalarView::Bool(_) => {},
            ScalarView::Null => {},
            ScalarView::Int(_) => {},
            ScalarView::Number(_) => {},
        }
    }
    match e.name {
        Option::Some(nm) => {
            let pairs = seq![(nm, v)];
            assert(pairs.drop_last() =~= Seq::<(Seq<char>, ValueView)>::empty());
            reveal_with_fuel(wf_pairs, 2);
            assert(wf_pairs(pairs));
        },
        Option::None => {},
    }
}

/// A decoded node is well-formed: in particular, the two-key wrapper record
/// and every record below it have unique keys.
pub proof fn lemma_decode_node_wf(n: NodeView)
    ensures
        wf_value(decode_node(n)),
    decreases node_height(n), 0int, 0int,
{
    assert forall|i: int| 0 <= i < n.entries.len() implies wf_value(
        #[trigger] decode_entries(n.entries)[i],
    ) by {
        lemma_decode_entry_wf(n.entries[i]);
    }
    lemma_wf_values_pointwise(decode_entries(n.entries));
    match n.children {
        Option::Some(children) => {
            lemma_decode_nodes_wf(children.nodes);
            if n.entries.len() > 0 {
                let evalue = if n.entries.len() == 1 {
                    decode_entry(n.entries[0])
                } else {
                    ValueView::List {
                        vals: decode_entries(n.entries),
                        span: crate::value::Span::spec_unknown(),
                    }
                };
                if n.entries.len() == 1 {
                    lemma_decode_entry_wf(n.entries[0]);
                }
                let child = ValueView::Record {
                    pairs: decode_nodes(children.nodes),
                    span: children.span,
                };
                let pairs = seq![("entries"@, evalue), ("children"@, child)];
                assert(pairs[0].0 != pairs[1].0) by {
                    reveal_strlit("entries");
                    reveal_strlit("children");
                    assert("entries"@.len() == 7);
                    assert("children"@.len() == 8);
                }
                reveal_with_fuel(wf_pairs, 4);
                assert(wf_pairs(pairs.drop_last()) && wf_value(pairs.last().1));
            }
        },
        Option::None => {
            if n.entries.len() == 1 {
                lemma_decode_entry_wf(n.entries[0]);
            }
        },
    }
}

/// The record pairs a node sequence decodes to have unique keys and
/// well-formed values.
pub proof fn lemma_decode_nodes_wf(s: Seq<NodeView>)
    ensures
        distinct_keys(decode_nodes(s)),
        wf_pairs(decode_nodes(s)),
    decreases nodes_height(s), 0int, s.len(),
{
    if s.len() > 0 {
        lemma_decode_nodes_wf(s.drop_last());
        lemma_decode_node_wf(s.last());
        lemma_record_insert_wf(
            decode_nodes(s.drop_last()),
            s.last().name,
            decode_node(s.last()),
        );
    }
}

/// A decoded document is well-formed: every record it contains, at any
/// depth, has unique keys.
pub proof fn law_decoded_document_well_formed(d: DocumentView)
    ensures
        wf_value(decode_document(d)),
{
    lemma_decode_nodes_wf(d.nodes);
}

/// Nodes with pairwise distinct names decode to one record pair per node,
/// keyed by node name, in node order.
pub proof fn lemma_decode_nodes_distinct(s: Seq<NodeView>)
    requires
        forall|i: int, j: int| 0 <= i < j < s.len() ==> s[i].name != s[j].name,
    ensures
        decode_nodes(s).len() == s.len(),
        forall|i: int| 0 <= i < s.len() ==> decode_nodes(s)[i].0 == s[i].name,
    decreases s.len(),
{
    if s.len() > 0 {
        lemma_decode_nodes_distinct(s.drop_last());
        let prefix = decode_nodes(s.drop_last());
        assert(!record_has_key(prefix, s.last().name)) by {
            assert forall|i: int| 0 <= i < prefix.len() implies prefix[i].0 != s.last().name by {
                assert(prefix[i].0 == s.drop_last()[i].name);
                assert(s.drop_last()[i] == s[i]);
            }
        }
        crate::value::lemma_record_insert_fresh(prefix, s.last().name, decode_node(s.last()));
        assert forall|i: int| 0 <= i < s.len() implies decode_nodes(s)[i].0 == s[i].name by {
            if i < s.len() - 1 {
                assert(decode_nodes(s)[i] == prefix[i]);
                assert(s.drop_last()[i] == s[i]);
            }
        }
    }
}

/// A document whose nodes carry only positional scalar arguments, no
/// properties and no children, and whose node names are pairwise distinct,
/// decodes to a record with exactly one pair per node, keyed by node name.
pub proof fn law_flat_document_keys(d: DocumentView)
    requires
        forall|i: int| 0 <= i < d.nodes.len() ==> (#[trigger] d.nodes[i]).children is None,
        forall|i: int, j: int|
            0 <= i < d.nodes.len() && 0 <= j < d.nodes[i].entries.len() ==> (#[trigger] d.nodes[i].entries[j]).name is None,
        forall|i: int, j: int| 0 <= i < j < d.nodes.len() ==> d.nodes[i].name != d.nodes[j].name,
    ensures
        decode_document(d) matches ValueView::Record { pairs, span }
            && pairs.len() == d.nodes.len()
            && span == d.span
            && (forall|i: int| 0 <= i < d.nodes.len() ==> pairs[i].0 == d.nodes[i].name),
{
    lemma_decode_nodes_distinct(d.nodes);
}

/// A node with exactly one positional string argument and no children
/// decodes to that bare string value, not a one-element list.
pub proof fn law_single_string_argument(n: NodeView)
    requires
        n.children is None,
        n.entries.len() == 1,
        n.entries[0].name is None,
        n.entries[0].value matches ScalarView::Str(_),
    ensures
        decode_node(n) == (ValueView::Str {
            val: n.entries[0].value->Str_0,
            span: n.entries[0].span,
        }),
{
}

/// A node with two or more positional arguments and no children decodes to
/// a list of the per-argument decoded values, order-preserving.
pub proof fn law_many_arguments_list(n: NodeView)
    requires
        n.children is None,
        n.entries.len() >= 2,
        forall|j: int| 0 <= j < n.entries.len() ==> (#[trigger] n.entries[j]).name is None,
    ensures
        decode_node(n) matches ValueView::List { vals, .. }
            && vals.len() == n.entries.len()
            && (forall|j: int|
                0 <= j < n.entries.len() ==> vals[j] == decode_entry(n.entries[j])),
{
}

/// A node with zero entries and no children decodes to the empty marker,
/// and encoding that marker back under the node's name gives again a node
/// with zero entries and no children.
pub proof fn law_empty_node_round_trip(n: NodeView)
    requires
        n.entries.len() == 0,
        n.children is None,
    ensures
        decode_node(n) matches ValueView::Nothing { .. },
        build_node_spec(n.name, decode_node(n)) matches Result::Ok(m)
            && m.name == n.name
            && m.entries.len() == 0
            && m.children is None,
{
}

/// A node with children but no entries decodes directly to the children's
/// record: no wrapper keys appear.
pub proof fn law_children_only_node(n: NodeView)
    requires
        n.entries.len() == 0,
        n.children matches Option::Some(_),
    ensures
        decode_node(n) == (ValueView::Record {
            pairs: decode_nodes(n.children->Some_0.nodes),
            span: n.children->Some_0.span,
        }),
{
}

/// A node with exactly one entry and children decodes to a two-key record:
/// the entry's value under `entries` and the children's record under
/// `children`.
pub proof fn law_entries_and_children_node(n: NodeView)
    requires
        n.entries.len() == 1,
        n.children matches Option::Some(_),
    ensures
        decode_node(n) matches ValueView::Record { pairs, span }
            && pairs.len() == 2
            && pairs[0].0 == "entries"@
            && pairs[0].1 == decode_entry(n.entries[0])
            && pairs[1].0 == "children"@
            && pairs[1].1 == (ValueView::Record {
                pairs: decode_nodes(n.children->Some_0.nodes),
                span: n.children->Some_0.span,
            })
            && span == n.span,
{
}

/// A named property entry always decodes to a single-key record wrapping
/// the decoded scalar, never to a bare value.
pub proof fn law_property_entry_wrapped(e: EntryView)
    requires
        e.name matches Option::Some(_),
    ensures
        decode_entry(e) matches ValueView::Record { pairs, span }
            && pairs.len() == 1
            && pairs[0].0 == e.name->Some_0
            && pairs[0].1 == decode_scalar(e.value, e.span)
            && span == e.span,
{
}

/// A node whose sole entry is a named property, with no children, decodes
/// to that property's single-key record.
pub proof fn law_sole_property_node(n: NodeView)
    requires
        n.children is None,
        n.entries.len() == 1,
        n.entries[0].name matches Option::Some(_),
    ensures
        decode_node(n) matches ValueView::Record { pairs, .. }
            && pairs.len() == 1
            && pairs[0].0 == n.entries[0].name->Some_0
            && pairs[0].1 == decode_scalar(n.entries[0].value, n.entries[0].span),
{
}

} // verus!
