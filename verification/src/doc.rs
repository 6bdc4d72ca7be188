use vstd::prelude::*;
use crate::value::Span;

verus! {

/// Mathematical model of a document scalar.
#[allow(inconsistent_fields)]
pub enum ScalarView {
    Str(Seq<char>),
    Bool(bool),
    Null,
    Int(i128),
    Number(Seq<char>),
}

/// One scalar carried by an entry of the document format. `Number` holds the
/// canonical literal text of a numeric value that is not known to be an
/// integer (for example a float literal, or one of the keyword forms the
/// renderer emits); `Int` holds an integer value directly.
#[allow(inconsistent_fields)]
pub enum Scalar {
    Str(String),
    Bool(bool),
    Null,
    Int(i128),
    Number(String),
}

pub open spec fn scalar_view(s: Scalar) -> ScalarView {
    match s {
        Scalar::Str(t) => ScalarView::Str(t@),
        Scalar::Bool(b) => ScalarView::Bool(b),
        Scalar::Null => ScalarView::Null,
        Scalar::Int(i) => ScalarView::Int(i),
        Scalar::Number(t) => ScalarView::Number(t@),
    }
}

impl View for Scalar {
    type V = ScalarView;

    open spec fn view(&self) -> ScalarView {
        scalar_view(*self)
    }
}

pub struct EntryView {
    pub name: Option<Seq<char>>,
    pub value: ScalarView,
    pub span: Span,
}

/// One entry of a node: a positional argument (no name) or a named property.
pub struct Entry {
    pub name: Option<String>,
    pub value: Scalar,
    pub span: Span,
}

pub open spec fn entry_view(e: Entry) -> EntryView {
    EntryView {
        name: match e.name {
            Option::Some(n) => Option::Some(n@),
            Option::None => Option::None,
        },
        value: scalar_view(e.value),
        span: e.span,
    }
}

impl View for Entry {
    type V = EntryView;

    open spec fn view(&self) -> EntryView {
        entry_view(*self)
    }
}

pub struct NodeView {
    pub name: Seq<char>,
    pub entries: Seq<EntryView>,
    pub children: Option<DocumentView>,
    pub span: Span,
}

/// One node of a document: a name, ordered entries, and optional children.
pub struct Node {
    pub name: String,
    pub entries: Vec<Entry>,
    pub children: Option<Document>,
    pub span: Span,
}

pub struct DocumentView {
    pub nodes: Seq<NodeView>,
    pub span: Span,
}

/// A document: an ordered sequence of nodes with a source extent.
pub struct Document {
    pub nodes: Vec<Node>,
    pub span: Span,
}

pub open spec fn entries_view(s: Seq<Entry>) -> Seq<EntryView>
    decreases s,
{
    if s.len() == 0 {
        Seq::empty()
    } else {
        entries_view(s.drop_last()).push(entry_view(s.last()))
    }
}

/// The views of an entry sequence, element by element.
pub proof fn lemma_entries_view(s: Seq<Entry>)
    ensures
        entries_view(s).len() == s.len(),
        forall|i: int| 0 <= i < s.len() ==> entries_view(s)[i] == entry_view(s[i]),
    decreases s,
{
    if s.len() > 0 {
        lemma_entries_view(s.drop_last());
    }
}

pub open spec fn node_view(n: Node) -> NodeView
    decreases n,
{
    NodeView {
        name: n.name@,
        entries: entries_view(n.entries@),
        children: match n.children {
            Option::Some(d) => Option::Some(document_view(d)),
            Option::None => Option::None,
        },
        span: n.span,
    }
}

pub open spec fn document_view(d: Document) -> DocumentView
    decreases d,
{
    DocumentView { nodes: nodes_view(d.nodes@), span: d.span }
}

pub open spec fn nodes_view(s: Seq<Node>) -> Seq<NodeView>
    decreases s,
{
    if s.len() == 0 {
        Seq::empty()
    } else {
        nodes_view(s.drop_last()).push(node_view(s.last()))
    }
}

/// The views of a node sequence, element by element.
pub proof fn lemma_nodes_view(s: Seq<Node>)
    ensures
        nodes_view(s).len() == s.len(),
        forall|i: int| 0 <= i < s.len() ==> nodes_view(s)[i] == node_view(s[i]),
    decreases s,
{
    if s.len() > 0 {
        lemma_nodes_view(s.drop_last());
    }
}

impl View for Node {
    type V = NodeView;

    open spec fn view(&self) -> NodeView {
        node_view(*self)
    }
}

impl View for Document {
    type V = DocumentView;

    open spec fn view(&self) -> DocumentView {
        document_view(*self)
    }
}

/// Height of a node model: one more than the height of its children, so that
/// recursion over the tree has a decreasing measure.
pub open spec fn node_height(n: NodeView) -> nat
    decreases n,
{
    match n.children {
        Option::Some(d) => 1 + document_height(d),
        Option::None => 1,
    }
}

pub open spec fn document_height(d: DocumentView) -> nat
    decreases d,
{
    1 + nodes_height(d.nodes)
}

pub open spec fn nodes_height(s: Seq<NodeView>) -> nat
    decreases s,
{
    if s.len() == 0 {
        0
    } else {
        nodes_height(s.drop_last()) + node_height(s.last())
    }
}

/// Every node of a sequence is at most as high as the whole sequence.
pub proof fn lemma_nodes_height_elem(s: Seq<NodeView>, i: int)
    requires
        0 <= i < s.len(),
    ensures
        node_height(s[i]) <= nodes_height(s),
    decreases s,
{
    if i < s.len() - 1 {
        lemma_nodes_height_elem(s.drop_last(), i);
    }
}

} // verus!
