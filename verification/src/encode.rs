use vstd::prelude::*;
use crate::doc::{
    Document, DocumentView, Entry, EntryView, Node, NodeView, Scalar, ScalarView, entries_view,
    nodes_view,
};
use crate::error::{Error, ErrorKind};
use crate::value::{
    Span, Value, ValueView, lemma_pairs_view, lemma_values_view, pairs_view, values_view,
};

verus! {

/// The extent a value carries.
pub open spec fn value_span(v: ValueView) -> Span {
    match v {
        ValueView::Nothing { span } => span,
        ValueView::Bool { span, .. } => span,
        ValueView::Int { span, .. } => span,
        ValueView::Float { span, .. } => span,
        ValueView::Str { span, .. } => span,
        ValueView::List { span, .. } => span,
        ValueView::Record { span, .. } => span,
    }
}

/// The scalar a value encodes to, for the shapes an entry can carry; `None`
/// for lists and records.
pub open spec fn scalar_of_value(v: ValueView) -> Option<ScalarView> {
    match v {
        ValueView::Str { val, .. } => Option::Some(ScalarView::Str(val)),
        ValueView::Int { val, .. } => Option::Some(ScalarView::Int(val as i128)),
        ValueView::Float { text, .. } => Option::Some(ScalarView::Number(text)),
        ValueView::Bool { val, .. } => Option::Some(ScalarView::Bool(val)),
        ValueView::Nothing { .. } => Option::Some(ScalarView::Null),
        _ => Option::None,
    }
}

/// How one value encodes to an entry: a single-key record becomes a named
/// property whose value must be a scalar shape; a bare scalar becomes a
/// positional argument; anything else is refused.
pub open spec fn build_entry_spec(v: ValueView) -> Result<EntryView, ErrorKind> {
    match v {
        ValueView::Record { pairs, span } => {
            if pairs.len() != 1 {
                Result::Err(ErrorKind::EntryNotOneKey)
            } else {
                match scalar_of_value(pairs[0].1) {
                    Option::Some(sc) => Result::Ok(
                        EntryView { name: Option::Some(pairs[0].0), value: sc, span },
                    ),
                    Option::None => Result::Err(ErrorKind::EntryValueUnsupported),
                }
            }
        },
        ValueView::List { .. } => Result::Err(ErrorKind::EntryValueUnsupported),
        _ => Result::Ok(
            EntryView {
                name: Option::None,
                value: scalar_of_value(v)->Some_0,
                span: value_span(v),
            },
        ),
    }
}

/// The entries a sequence of values encodes to, failing at the first value
/// no entry can carry.
pub open spec fn build_entries_spec(vals: Seq<ValueView>) -> Result<Seq<EntryView>, ErrorKind>
    decreases vals.len(),
{
    if vals.len() == 0 {
        Result::Ok(Seq::empty())
    } else {
        match build_entries_spec(vals.drop_last()) {
            Result::Ok(es) => match build_entry_spec(vals.last()) {
                Result::Ok(e) => Result::Ok(es.push(e)),
                Result::Err(k) => Result::Err(k),
            },
            Result::Err(k) => Result::Err(k),
        }
    }
}

/// Height of a value model, counting list elements and record pairs, so that
/// the encoder's mutual recursion has a decreasing measure.
pub open spec fn value_height(v: ValueView) -> nat
    decreases v,
{
    match v {
        ValueView::List { vals, .. } => 1 + values_height(vals),
        ValueView::Record { pairs, .. } => 1 + pairs_height(pairs),
        _ => 1,
    }
}

pub open spec fn values_height(s: Seq<ValueView>) -> nat
    decreases s,
{
    if s.len() == 0 {
        0
    } else {
        values_height(s.drop_last()) + value_height(s.last()) + 1
    }
}

pub open spec fn pairs_height(s: Seq<(Seq<char>, ValueView)>) -> nat
    decreases s,
{
    if s.len() == 0 {
        0
    } else {
        pairs_height(s.drop_last()) + value_height(s.last().1) + 1
    }
}

/// Every pair's value is lower than the whole pair sequence.
pub proof fn lemma_pairs_height_elem(s: Seq<(Seq<char>, ValueView)>, i: int)
    requires
        0 <= i < s.len(),
    ensures
        value_height(s[i].1) < pairs_height(s),
    decreases s,
{
    if i < s.len() - 1 {
        lemma_pairs_height_elem(s.drop_last(), i);
    }
}

/// Whether a record has exactly the two keys `entries` and `children`, in
/// that order: the shape the decoder gives a node that carries both entries
/// and children, which the encoder inverts.
pub open spec fn is_entries_children_form(pairs: Seq<(Seq<char>, ValueView)>) -> bool {
    pairs.len() == 2 && pairs[0].0 == "entries"@ && pairs[1].0 == "children"@
}

/// How one value encodes to a node. The empty marker gives a node with no
/// entries and no children; a scalar gives one positional entry; a list
/// gives one entry per element. A record of the two-key `entries`/`children`
/// shape is taken apart into entries (one, or one per list element) and a
/// nested children document; any other record becomes the node's children
/// document directly, with no entries.
pub open spec fn build_node_spec(name: Seq<char>, v: ValueView) -> Result<NodeView, ErrorKind>
    decreases value_height(v), 3int,
{
    match v {
        ValueView::Nothing { span } => Result::Ok(
            NodeView { name, entries: Seq::empty(), children: Option::None, span },
        ),
        ValueView::List { vals, span } => match build_entries_spec(vals) {
            Result::Ok(es) => Result::Ok(
                NodeView { name, entries: es, children: Option::None, span },
            ),
            Result::Err(k) => Result::Err(k),
        },
        ValueView::Record { pairs, span } => {
            if is_entries_children_form(pairs) {
                let es_r = match pairs[0].1 {
                    ValueView::List { vals: evs, .. } => build_entries_spec(evs),
                    _ => match build_entry_spec(pairs[0].1) {
                        Result::Ok(e) => Result::Ok(seq![e]),
                        Result::Err(k) => Result::Err(k),
                    },
                };
                match es_r {
                    Result::Ok(es) => match build_document_spec(pairs.last().1) {
                        Result::Ok(d) => Result::Ok(
                            NodeView { name, entries: es, children: Option::Some(d), span },
                        ),
                        Result::Err(k) => Result::Err(k),
                    },
                    Result::Err(k) => Result::Err(k),
                }
            } else {
                match build_document_spec(v) {
                    Result::Ok(d) => Result::Ok(
                        NodeView { name, entries: Seq::empty(), children: Option::Some(d), span },
                    ),
                    Result::Err(k) => Result::Err(k),
                }
            }
        },
        _ => match build_entry_spec(v) {
            Result::Ok(e) => Result::Ok(
                NodeView {
                    name,
                    entries: seq![e],
                    children: Option::None,
                    span: value_span(v),
                },
            ),
            Result::Err(k) => Result::Err(k),
        },
    }
}

/// The nodes a record's pairs encode to, in pair order, failing at the first
/// pair whose value cannot become a node.
pub open spec fn build_nodes_spec(pairs: Seq<(Seq<char>, ValueView)>) -> Result<
    Seq<NodeView>,
    ErrorKind,
>
    decreases pairs_height(pairs), 1int,
{
    if pairs.len() == 0 {
        Result::Ok(Seq::empty())
    } else {
        match build_nodes_spec(pairs.drop_last()) {
            Result::Ok(ns) => match build_node_spec(pairs.last().0, pairs.last().1) {
                Result::Ok(n) => Result::Ok(ns.push(n)),
                Result::Err(k) => Result::Err(k),
            },
            Result::Err(k) => Result::Err(k),
        }
    }
}

/// How a value encodes to a whole document: it must be a record, and each of
/// its pairs becomes one node, in order.
pub open spec fn build_document_spec(v: ValueView) -> Result<DocumentView, ErrorKind>
    decreases value_height(v), 2int,
{
    match v {
        ValueView::Record { pairs, span } => match build_nodes_spec(pairs) {
            Result::Ok(ns) => Result::Ok(DocumentView { nodes: ns, span }),
            Result::Err(k) => Result::Err(k),
        },
        _ => Result::Err(ErrorKind::ExpectedRecord),
    }
}

/// The scalar shape of a value, if it has one.
fn scalar_of(v: &Value) -> (r: Option<Scalar>)
    ensures
        match scalar_of_value(v@) {
            Option::Some(sv) => r matches Option::Some(sc) && sc@ == sv,
            Option::None => r is None,
        },
{
    match v {
        Value::Str { val, .. } => Option::Some(Scalar::Str(val.clone())),
        Value::Int { val, .. } => Option::Some(Scalar::Int(*val as i128)),
        Value::Float { text, .. } => Option::Some(Scalar::Number(text.clone())),
        Value::Bool { val, .. } => Option::Some(Scalar::Bool(*val)),
        Value::Nothing { .. } => Option::Some(Scalar::Null),
        _ => Option::None,
    }
}

/// The extent of a value.
fn span_of(v: &Value) -> (r: Span)
    ensures
        r == value_span(v@),
{
    match v {
        Value::Nothing { span } => *span,
        Value::Bool { span, .. } => *span,
        Value::Int { span, .. } => *span,
        Value::Float { span, .. } => *span,
        Value::Str { span, .. } => *span,
        Value::List { span, .. } => *span,
        Value::Record { span, .. } => *span,
    }
}

/// Encodes one value as an entry.
pub fn build_entry(v: &Value) -> (r: Result<Entry, Error>)
    ensures
        match build_entry_spec(v@) {
            Result::Ok(ev) => r matches Result::Ok(e) && e@ == ev,
            Result::Err(k) => r matches Result::Err(err) && err.kind == k && err.detail@
                == Seq::<char>::empty(),
        },
{
    match v {
        Value::Record { val, span } => {
            proof {
                lemma_pairs_view(val.pairs@);
            }
            if val.pairs.len() != 1 {
                return Result::Err(Error::new(ErrorKind::EntryNotOneKey));
            }
            let pair = &val.pairs[0];
            match scalar_of(&pair.1) {
                Option::Some(sc) => Result::Ok(
                    Entry { name: Option::Some(pair.0.clone()), value: sc, span: *span },
                ),
                Option::None => Result::Err(Error::new(ErrorKind::EntryValueUnsupported)),
            }
        },
        Value::List { .. } => Result::Err(Error::new(ErrorKind::EntryValueUnsupported)),
        _ => {
            let span = span_of(v);
            match scalar_of(v) {
                Option::Some(sc) => Result::Ok(Entry { name: Option::None, value: sc, span }),
                Option::None => Result::Err(Error::new(ErrorKind::EntryValueUnsupported)),
            }
        },
    }
}

/// When the values up to `i` encode and the value at `i` does not, the whole
/// sequence fails with that value's error.
proof fn lemma_build_entries_err(vals: Seq<ValueView>, i: int, k: ErrorKind)
    requires
        0 <= i < vals.len(),
        build_entries_spec(vals.take(i)) is Ok,
        build_entry_spec(vals[i]) == Result::<EntryView, ErrorKind>::Err(k),
    ensures
        build_entries_spec(vals) == Result::<Seq<EntryView>, ErrorKind>::Err(k),
    decreases vals.len(),
{
    if i == vals.len() - 1 {
        assert(vals.take(i) =~= vals.drop_last());
    } else {
        assert(vals.drop_last().take(i) =~= vals.take(i));
        assert(vals.drop_last()[i] == vals[i]);
        lemma_build_entries_err(vals.drop_last(), i, k);
    }
}

/// Encodes every element of a list of values as entries.
fn build_entries(vals: &Vec<Value>) -> (r: Result<Vec<Entry>, Error>)
    ensures
        match build_entries_spec(values_view(vals@)) {
            Result::Ok(es) => r matches Result::Ok(v) && entries_view(v@) == es,
            Result::Err(k) => r matches Result::Err(err) && err.kind == k && err.detail@
                == Seq::<char>::empty(),
        },
{
    let ghost vv = values_view(vals@);
    proof {
        lemma_values_view(vals@);
    }
    let mut es: Vec<Entry> = Vec::new();
    let mut i: usize = 0;
    while i < vals.len()
        invariant
            0 <= i <= vals@.len(),
            vv == values_view(vals@),
            vv.len() == vals@.len(),
            forall|j: int| 0 <= j < vals@.len() ==> vv[j] == crate::value::value_view(vals@[j]),
            build_entries_spec(vv.take(i as int)) == Result::<Seq<EntryView>, ErrorKind>::Ok(
                entries_view(es@),
            ),
        decreases vals@.len() - i,
    {
        match build_entry(&vals[i]) {
            Result::Ok(e) => {
                let ghost ge = e@;
                let ghost old_es = es@;
                es.push(e);
                proof {
                    let s = vv.take(i + 1);
                    assert(s.drop_last() =~= vv.take(i as int));
                    assert(s.last() == vv[i as int]);
                    assert(crate::value::value_view(vals@[i as int]) == vv[i as int]);
                    assert(build_entry_spec(vv[i as int]) == Result::<EntryView, ErrorKind>::Ok(
                        ge,
                    ));
                    assert(es@.drop_last() =~= old_es);
                    assert(crate::doc::entry_view(es@.last()) == ge);
                    assert(entries_view(es@) == entries_view(old_es).push(ge));
                    assert(build_entries_spec(s) == Result::<Seq<EntryView>, ErrorKind>::Ok(
                        entries_view(es@),
                    ));
                }
            },
            Result::Err(err) => {
                proof {
                    lemma_build_entries_err(vv, i as int, err.kind);
                }
                return Result::Err(err);
            },
        }
        i = i + 1;
    }
    proof {
        assert(vv.take(vals@.len() as int) =~= vv);
    }
    Result::Ok(es)
}

/// When the pairs up to `i` encode and the pair at `i` does not, the whole
/// record fails with that pair's error.
proof fn lemma_build_nodes_err(pairs: Seq<(Seq<char>, ValueView)>, i: int, k: ErrorKind)
    requires
        0 <= i < pairs.len(),
        build_nodes_spec(pairs.take(i)) is Ok,
        build_node_spec(pairs[i].0, pairs[i].1) == Result::<NodeView, ErrorKind>::Err(k),
    ensures
        build_nodes_spec(pairs) == Result::<Seq<NodeView>, ErrorKind>::Err(k),
    decreases pairs.len(),
{
    if i == pairs.len() - 1 {
        assert(pairs.take(i) =~= pairs.drop_last());
    } else {
        assert(pairs.drop_last().take(i) =~= pairs.take(i));
        assert(pairs.drop_last()[i] == pairs[i]);
        lemma_build_nodes_err(pairs.drop_last(), i, k);
    }
}

/// Encodes one named value as a node.
pub fn build_node(name: &str, v: &Value) -> (r: Result<Node, Error>)
    ensures
        match build_node_spec(name@, v@) {
            Result::Ok(nv) => r matches Result::Ok(n) && n@ == nv,
            Result::Err(k) => r matches Result::Err(err) && err.kind == k && err.detail@
                == Seq::<char>::empty(),
        },
    decreases value_height(v@), 3int,
{
    match v {
        Value::Nothing { span } => {
            let n = Node {
                name: name.to_owned(),
                entries: Vec::new(),
                children: Option::None,
                span: *span,
            };
            proof {
                assert(n@.entries =~= Seq::<EntryView>::empty());
            }
            Result::Ok(n)
        },
        Value::List { vals, span } => {
            match build_entries(vals) {
                Result::Ok(es) => Result::Ok(
                    Node {
                        name: name.to_owned(),
                        entries: es,
                        children: Option::None,
                        span: *span,
                    },
                ),
                Result::Err(err) => Result::Err(err),
            }
        },
        Value::Record { val, span } => {
            proof {
                lemma_pairs_view(val.pairs@);
            }
            let ename = String::from_str("entries");
            let cname = String::from_str("children");
            let form = val.pairs.len() == 2 && val.pairs[0].0 == ename && val.pairs[1].0 == cname;
            if form {
                let es = match &val.pairs[0].1 {
                    Value::List { vals: evs, .. } => {
                        match build_entries(evs) {
                            Result::Ok(es) => es,
                            Result::Err(err) => {
                                return Result::Err(err);
                            },
                        }
                    },
                    ev => {
                        match build_entry(ev) {
                            Result::Ok(e) => {
                                let ghost ge = e@;
                                let mut es: Vec<Entry> = Vec::new();
                                es.push(e);
                                proof {
                                    reveal_with_fuel(entries_view, 3);
                                    assert(entries_view(es@) =~= seq![ge]);
                                }
                                es
                            },
                            Result::Err(err) => {
                                return Result::Err(err);
                            },
                        }
                    },
                };
                proof {
                    lemma_pairs_height_elem(v@->Record_pairs, 1);
                }
                match build_document(&val.pairs[1].1) {
                    Result::Ok(child) => Result::Ok(
                        Node {
                            name: name.to_owned(),
                            entries: es,
                            children: Option::Some(child),
                            span: *span,
                        },
                    ),
                    Result::Err(err) => Result::Err(err),
                }
            } else {
                match build_document(v) {
                    Result::Ok(child) => {
                        let n = Node {
                            name: name.to_owned(),
                            entries: Vec::new(),
                            children: Option::Some(child),
                            span: *span,
                        };
                        proof {
                            assert(n@.entries =~= Seq::<EntryView>::empty());
                        }
                        Result::Ok(n)
                    },
                    Result::Err(err) => Result::Err(err),
                }
            }
        },
        _ => {
            match build_entry(v) {
                Result::Ok(e) => {
                    let span = span_of(v);
                    let ghost ge = e@;
                    let mut es: Vec<Entry> = Vec::new();
                    es.push(e);
                    let n = Node {
                        name: name.to_owned(),
                        entries: es,
                        children: Option::None,
                        span,
                    };
                    proof {
                        reveal_with_fuel(entries_view, 3);
                        assert(n@.entries =~= seq![ge]);
                    }
                    Result::Ok(n)
                },
                Result::Err(err) => Result::Err(err),
            }
        },
    }
}

/// Encodes a record value as a whole document, one node per pair.
pub fn build_document(v: &Value) -> (r: Result<Document, Error>)
    ensures
        match build_document_spec(v@) {
            Result::Ok(dv) => r matches Result::Ok(d) && d@ == dv,
            Result::Err(k) => r matches Result::Err(err) && err.kind == k && err.detail@
                == Seq::<char>::empty(),
        },
    decreases value_height(v@), 2int,
{
    match v {
        Value::Record { val, span } => {
            let ghost pv = pairs_view(val.pairs@);
            proof {
                lemma_pairs_view(val.pairs@);
            }
            let mut ns: Vec<Node> = Vec::new();
            let mut i: usize = 0;
            while i < val.pairs.len()
                invariant
                    0 <= i <= val.pairs@.len(),
                    pv == pairs_view(val.pairs@),
                    pv.len() == val.pairs@.len(),
                    forall|j: int| 0 <= j < val.pairs@.len() ==> pv[j] == (
                        val.pairs@[j].0@,
                        crate::value::value_view(val.pairs@[j].1),
                    ),
                    value_height(v@) == 1 + crate::encode::pairs_height(pv),
                    v@ matches ValueView::Record { pairs, .. } && pairs == pv,
                    build_nodes_spec(pv.take(i as int)) == Result::<Seq<NodeView>, ErrorKind>::Ok(
                        nodes_view(ns@),
                    ),
                decreases val.pairs@.len() - i,
            {
                proof {
                    lemma_pairs_height_elem(pv, i as int);
                }
                let pair = &val.pairs[i];
                match build_node(pair.0.as_str(), &pair.1) {
                    Result::Ok(n) => {
                        let ghost gn = n@;
                        let ghost old_ns = ns@;
                        ns.push(n);
                        proof {
                            let s = pv.take(i + 1);
                            assert(s.drop_last() =~= pv.take(i as int));
                            assert(s.last() == pv[i as int]);
                            assert(crate::value::value_view(val.pairs@[i as int].1) == pv[
                                i as int
                            ].1);
                            assert(build_node_spec(pv[i as int].0, pv[i as int].1)
                                == Result::<NodeView, ErrorKind>::Ok(gn));
                            assert(ns@.drop_last() =~= old_ns);
                            assert(crate::doc::node_view(ns@.last()) == gn);
                            assert(nodes_view(ns@) == nodes_view(old_ns).push(gn));
                            assert(build_nodes_spec(s) == Result::<Seq<NodeView>, ErrorKind>::Ok(
                                nodes_view(ns@),
                            ));
                        }
                    },
                    Result::Err(err) => {
                        proof {
                            lemma_build_nodes_err(pv, i as int, err.kind);
                        }
                        return Result::Err(err);
                    },
                }
                i = i + 1;
            }
            proof {
                assert(pv.take(val.pairs@.len() as int) =~= pv);
            }
            Result::Ok(Document { nodes: ns, span: *span })
        },
        _ => Result::Err(Error::new(ErrorKind::ExpectedRecord)),
    }
}

} // verus!
