use vstd::prelude::*;
use crate::doc::{Document, DocumentView, Entry, Node, Scalar};
use crate::value::Span;

verus! {

#[verifier::external_type_specification]
#[verifier::external_body]
pub struct ExKdlDocument(kdl::KdlDocument);

#[verifier::external_type_specification]
#[verifier::external_body]
pub struct ExKdlNode(kdl::KdlNode);

#[verifier::external_type_specification]
#[verifier::external_body]
pub struct ExKdlEntry(kdl::KdlEntry);

#[verifier::external_type_specification]
#[verifier::external_body]
pub struct ExKdlValue(kdl::KdlValue);

#[verifier::external_type_specification]
#[verifier::external_body]
pub struct ExSourceSpan(miette::SourceSpan);

/// The document model that parsing text under the modern dialect yields, or
/// nothing when the text is not a valid document of that dialect.
pub uninterp spec fn v2_doc(s: Seq<char>) -> Option<DocumentView>;

/// The document model that parsing text under the legacy dialect yields, or
/// nothing when the text is not a valid document of that dialect.
pub uninterp spec fn v1_doc(s: Seq<char>) -> Option<DocumentView>;

/// The canonical text that rendering a document model yields.
pub uninterp spec fn kdl_text(d: DocumentView) -> Seq<char>;

/// Converts a parsed tree into the library's document model; each extent is
/// the item's offset extended by its textual length.
#[verifier::external_body]
fn doc_from_kdl(d: &kdl::KdlDocument) -> Document {
    let start = d.span().offset();
    Document {
        nodes: d.nodes().iter().map(node_from_kdl).collect(),
        span: Span { start, end: start + d.len() },
    }
}

/// Converts one parsed node, its entries and its children.
#[verifier::external_body]
fn node_from_kdl(n: &kdl::KdlNode) -> Node {
    let start = n.span().offset();
    Node {
        name: n.name().value().to_string(),
        entries: n.entries().iter().map(entry_from_kdl).collect(),
        children: n.children().map(doc_from_kdl),
        span: Span { start, end: start + n.len() },
    }
}

/// Converts one parsed entry; strings, booleans and null move over directly,
/// any other scalar is carried as its canonical text.
#[verifier::external_body]
fn entry_from_kdl(e: &kdl::KdlEntry) -> Entry {
    let start = e.span().offset();
    Entry {
        name: e.name().map(|i| i.value().to_string()),
        value: match e.value() {
            kdl::KdlValue::String(s) => Scalar::Str(s.clone()),
            kdl::KdlValue::Bool(b) => Scalar::Bool(*b),
            kdl::KdlValue::Null => Scalar::Null,
            other => Scalar::Number(other.to_string()),
        },
        span: Span { start, end: start + e.len() },
    }
}

/// Converts an extent to the parser's span type.
#[verifier::external_body]
fn source_span(s: Span) -> miette::SourceSpan {
    miette::SourceSpan::new(s.start.into(), s.end.saturating_sub(s.start))
}

/// Builds a fresh tree from the library's document model.
#[verifier::external_body]
fn kdl_doc_of(d: &Document) -> kdl::KdlDocument {
    let mut doc = kdl::KdlDocument::new();
    doc.set_span(source_span(d.span));
    *doc.nodes_mut() = d.nodes.iter().map(kdl_node_of).collect();
    doc
}

/// Builds one node, with the name kept verbatim as its representation.
#[verifier::external_body]
fn kdl_node_of(n: &Node) -> kdl::KdlNode {
    let mut ident = kdl::KdlIdentifier::from(n.name.as_str());
    ident.set_repr(n.name.as_str());
    let mut node = kdl::KdlNode::new(ident);
    node.set_span(source_span(n.span));
    node.clear_children();
    *node.entries_mut() = n.entries.iter().map(kdl_entry_of).collect();
    if let Some(children) = &n.children {
        node.set_children(kdl_doc_of(children));
    }
    node
}

/// Builds one entry, positional or named.
#[verifier::external_body]
fn kdl_entry_of(e: &Entry) -> kdl::KdlEntry {
    let value = kdl_value_of(&e.value);
    let mut entry = match &e.name {
        Some(name) => kdl::KdlEntry::new_prop(name.as_str(), value),
        None => kdl::KdlEntry::new(value),
    };
    entry.set_span(source_span(e.span));
    entry
}

/// Builds one scalar; numeric text is read back through the document
/// format's own literal parser, and text no literal matches stays a string.
#[verifier::external_body]
fn kdl_value_of(s: &Scalar) -> kdl::KdlValue {
    match s {
        Scalar::Str(t) => kdl::KdlValue::String(t.clone()),
        Scalar::Bool(b) => kdl::KdlValue::Bool(*b),
        Scalar::Null => kdl::KdlValue::Null,
        Scalar::Int(i) => kdl::KdlValue::Integer(*i),
        Scalar::Number(t) => t
            .parse::<kdl::KdlEntry>()
            .map(|e| e.value().clone())
            .unwrap_or_else(|_| kdl::KdlValue::String(t.clone())),
    }
}

/// Relies on `kdl::KdlDocument`'s `FromStr`, the modern dialect's parser:
/// whether it accepts, and what tree it yields, depend on the text alone.
#[verifier::external_body]
pub fn parse_v2_text(s: &str) -> (r: Result<Document, String>)
    ensures
        r is Ok <==> v2_doc(s@) is Some,
        r matches Ok(d) ==> d@ == v2_doc(s@)->Some_0,
{
    match s.parse::<kdl::KdlDocument>() {
        Ok(d) => Ok(doc_from_kdl(&d)),
        Err(e) => Err(e.to_string()),
    }
}

/// Relies on `kdl::KdlDocument::parse_v1`, the legacy dialect's parser:
/// whether it accepts, and what tree it yields, depend on the text alone.
#[verifier::external_body]
pub fn parse_v1_text(s: &str) -> (r: Result<Document, String>)
    ensures
        r is Ok <==> v1_doc(s@) is Some,
        r matches Ok(d) ==> d@ == v1_doc(s@)->Some_0,
{
    match kdl::KdlDocument::parse_v1(s) {
        Ok(d) => Ok(doc_from_kdl(&d)),
        Err(e) => Err(e.to_string()),
    }
}

/// Relies on `kdl`'s `Display` for documents: the text of a tree built
/// freshly from the model, with default representations, is a function of
/// the model alone.
#[verifier::external_body]
pub fn render_document(d: &Document) -> (r: String)
    ensures
        r@ == kdl_text(d@),
{
    kdl_doc_of(d).to_string()
}

} // verus!
