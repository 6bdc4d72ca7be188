use vstd::prelude::*;
use crate::doc::{
    Document, DocumentView, Entry, EntryView, Node, NodeView, Scalar, ScalarView, document_height,
    entries_view, lemma_entries_view, lemma_nodes_height_elem, lemma_nodes_view, node_height,
    nodes_height,
};
use crate::num::{
    check_float_text, i128_decimal, int_decimal, int_text_value, is_float_text, is_i64_text,
    parse_i64_text,
};
use crate::value::{
    Record, Span, Value, ValueView, lemma_values_view, pairs_view, record_insert, values_view,
};

verus! {

/// How one scalar of the document decodes: strings, booleans and null map
/// directly; an integer maps to `Int` when it fits, and to its decimal text
/// as a `Float` otherwise; numeric text maps to `Int` when it is in-range
/// integer text, to `Float` when it is float literal text, and falls back to
/// the text itself as a `Str`.
pub open spec fn decode_scalar(s: ScalarView, span: Span) -> ValueView {
    match s {
        ScalarView::Str(t) => ValueView::Str { val: t, span },
        ScalarView::Bool(b) => ValueView::Bool { val: b, span },
        ScalarView::Null => ValueView::Nothing { span },
        ScalarView::Int(i) => if i64::MIN <= i <= i64::MAX {
            ValueView::Int { val: i as i64, span }
        } else {
            ValueView::Float { text: int_decimal(i as int), span }
        },
        ScalarView::Number(t) => if is_i64_text(t) {
            ValueView::Int { val: int_text_value(t) as i64, span }
        } else if is_float_text(t) {
            ValueView::Float { text: t, span }
        } else {
            ValueView::Str { val: t, span }
        },
    }
}

/// How one entry decodes: a positional argument is its scalar's value; a
/// named property wraps that value in a single-key record.
pub open spec fn decode_entry(e: EntryView) -> ValueView {
    let v = decode_scalar(e.value, e.span);
    match e.name {
        Option::Some(n) => ValueView::Record { pairs: seq![(n, v)], span: e.span },
        Option::None => v,
    }
}

pub open spec fn decode_entries(s: Seq<EntryView>) -> Seq<ValueView> {
    Seq::new(s.len(), |i: int| decode_entry(s[i]))
}

/// How one node decodes. Without children: no entries is the empty marker,
/// one entry is that entry's bare value, several entries are a list. With
/// children: no entries is the children's record directly; otherwise a
/// two-key record holds the entry value (bare or list) under `entries` and
/// the children's record under `children`.
pub open spec fn decode_node(n: NodeView) -> ValueView
    decreases node_height(n), 0int, 0int,
{
    match n.children {
        Option::Some(children) => {
            let child = ValueView::Record {
                pairs: decode_nodes(children.nodes),
                span: children.span,
            };
            if n.entries.len() == 0 {
                child
            } else {
                let evalue = if n.entries.len() == 1 {
                    decode_entry(n.entries[0])
                } else {
                    ValueView::List { vals: decode_entries(n.entries), span: Span::spec_unknown() }
                };
                ValueView::Record {
                    pairs: seq![("entries"@, evalue), ("children"@, child)],
                    span: n.span,
                }
            }
        },
        Option::None => {
            if n.entries.len() == 0 {
                ValueView::Nothing { span: Span::spec_unknown() }
            } else if n.entries.len() == 1 {
                decode_entry(n.entries[0])
            } else {
                ValueView::List { vals: decode_entries(n.entries), span: Span::spec_unknown() }
            }
        },
    }
}

/// The record pairs a node sequence decodes to, in node order, with a later
/// duplicate name overwriting the earlier pair in place (last write wins).
pub open spec fn decode_nodes(s: Seq<NodeView>) -> Seq<(Seq<char>, ValueView)>
    decreases nodes_height(s), 0int, s.len(),
{
    if s.len() == 0 {
        Seq::empty()
    } else {
        record_insert(decode_nodes(s.drop_last()), s.last().name, decode_node(s.last()))
    }
}

/// How a document decodes: a record of node-name to node value, spanning the
/// document's extent.
pub open spec fn decode_document(d: DocumentView) -> ValueView
    decreases document_height(d), 1int, 0int,
{
    ValueView::Record { pairs: decode_nodes(d.nodes), span: d.span }
}

/// Decodes one entry.
pub fn parse_entry(e: &Entry) -> (r: Value)
    ensures
        r@ == decode_entry(e@),
{
    let value = match &e.value {
        Scalar::Str(t) => Value::Str { val: t.clone(), span: e.span },
        Scalar::Bool(b) => Value::Bool { val: *b, span: e.span },
        Scalar::Null => Value::Nothing { span: e.span },
        Scalar::Int(i) => {
            if i64::MIN as i128 <= *i && *i <= i64::MAX as i128 {
                Value::Int { val: *i as i64, span: e.span }
            } else {
                Value::Float { text: i128_decimal(*i), span: e.span }
            }
        },
        Scalar::Number(t) => {
            match parse_i64_text(t.as_str()) {
                Option::Some(v) => Value::Int { val: v, span: e.span },
                Option::None => {
                    if check_float_text(t.as_str()) {
                        Value::Float { text: t.clone(), span: e.span }
                    } else {
                        Value::Str { val: t.clone(), span: e.span }
                    }
                },
            }
        },
    };
    match &e.name {
        Option::Some(nm) => {
            let ghost gv = value@;
            proof {
                assert(gv == decode_scalar(e@.value, e@.span));
            }
            let mut pairs: Vec<(String, Value)> = Vec::new();
            pairs.push((nm.clone(), value));
            let r = Value::Record { val: Record { pairs }, span: e.span };
            proof {
                reveal_with_fuel(pairs_view, 3);
                assert(pairs_view(pairs@) =~= seq![(nm@, gv)]);
                assert(r@ == decode_entry(e@));
            }
            r
        },
        Option::None => value,
    }
}

/// Decodes every entry of a slice, in order.
fn parse_entries(entries: &Vec<Entry>) -> (vs: Vec<Value>)
    ensures
        values_view(vs@) == decode_entries(entries_view(entries@)),
{
    proof {
        lemma_entries_view(entries@);
    }
    let mut vs: Vec<Value> = Vec::new();
    let mut i: usize = 0;
    while i < entries.len()
        invariant
            0 <= i <= entries@.len(),
            vs@.len() == i,
            forall|j: int| 0 <= j < i ==> #[trigger] vs@[j]@ == decode_entry(entry_view_at(
                entries@,
                j,
            )),
        decreases entries@.len() - i,
    {
        let v = parse_entry(&entries[i]);
        vs.push(v);
        i = i + 1;
    }
    proof {
        lemma_values_view(vs@);
        lemma_entries_view(entries@);
        assert forall|j: int| 0 <= j < vs@.len() implies values_view(vs@)[j] == decode_entries(
            entries_view(entries@),
        )[j] by {
            assert(vs@[j]@ == decode_entry(entry_view_at(entries@, j)));
        }
        assert(values_view(vs@) =~= decode_entries(entries_view(entries@)));
    }
    vs
}

/// The view of the entry at index `i`.
pub open spec fn entry_view_at(s: Seq<Entry>, i: int) -> EntryView {
    crate::doc::entry_view(s[i])
}

/// Decodes one node.
pub fn parse_node(n: &Node) -> (r: Value)
    ensures
        r@ == decode_node(n@),
    decreases node_height(n@), 1int, 0int,
{
    proof {
        lemma_entries_view(n.entries@);
    }
    match &n.children {
        Option::Some(children) => {
            let child = parse_document(children);
            if n.entries.len() == 0 {
                child
            } else {
                let evalue = if n.entries.len() == 1 {
                    parse_entry(&n.entries[0])
                } else {
                    let vs = parse_entries(&n.entries);
                    Value::List { vals: vs, span: Span::unknown() }
                };
                let ghost ge = evalue@;
                let ghost gc = child@;
                let mut pairs: Vec<(String, Value)> = Vec::new();
                pairs.push((String::from_str("entries"), evalue));
                pairs.push((String::from_str("children"), child));
                let r = Value::Record { val: Record { pairs }, span: n.span };
                proof {
                    reveal_with_fuel(pairs_view, 4);
                    assert(pairs@.len() == 2);
                    assert(pairs_view(pairs@) =~= seq![("entries"@, ge), ("children"@, gc)]);
                    assert(r@->Record_pairs =~= decode_node(n@)->Record_pairs);
                    assert(r@ == decode_node(n@));
                }
                r
            }
        },
        Option::None => {
            if n.entries.len() == 0 {
                Value::Nothing { span: Span::unknown() }
            } else if n.entries.len() == 1 {
                parse_entry(&n.entries[0])
            } else {
                let vs = parse_entries(&n.entries);
                Value::List { vals: vs, span: Span::unknown() }
            }
        },
    }
}

/// Decodes a whole document into a record value keyed by node name.
pub fn parse_document(d: &Document) -> (r: Value)
    ensures
        r@ == decode_document(d@),
    decreases document_height(d@), 0int, 0int,
{
    proof {
        lemma_nodes_view(d.nodes@);
    }
    let mut record = Record::new();
    let mut i: usize = 0;
    while i < d.nodes.len()
        invariant
            0 <= i <= d.nodes@.len(),
            d@.nodes.len() == d.nodes@.len(),
            forall|j: int| 0 <= j < d.nodes@.len() ==> d@.nodes[j] == crate::doc::node_view(
                d.nodes@[j],
            ),
            record@ == decode_nodes(d@.nodes.take(i as int)),
        decreases d.nodes@.len() - i,
    {
        proof {
            lemma_nodes_height_elem(d@.nodes, i as int);
        }
        let node = &d.nodes[i];
        let v = parse_node(node);
        record.insert(node.name.clone(), v);
        proof {
            let s = d@.nodes.take(i + 1);
            assert(s.drop_last() =~= d@.nodes.take(i as int));
            assert(s.last() == d@.nodes[i as int]);
            assert(record@ == decode_nodes(s));
        }
        i = i + 1;
    }
    proof {
        assert(d@.nodes.take(d.nodes@.len() as int) =~= d@.nodes);
    }
    Value::Record { val: record, span: d.span }
}

} // verus!
