//! XML spreadsheets, parsed by `sxd_document` and queried by `sxd_xpath`.

use crate::cells::{clone_cell, opt_text, texts};
use crate::text::decimal;
use sxd_document::dom::Text;
use sxd_document::Package;
use sxd_xpath::nodeset::Node;
use sxd_xpath::{Context, Factory, Value};
use vstd::prelude::*;

verus! {

/// The prefix under which the queries name the spreadsheet namespace.
pub const SHEET_PREFIX: &'static str = "doc";

/// The namespace of the spreadsheet's elements.
pub const SHEET_NAMESPACE: &'static str = "urn:schemas-microsoft-com:office:spreadsheet";

/// The query for the texts of the header row.
pub const HEADER_PATH: &'static str =
    "doc:Workbook/doc:Worksheet/doc:Table/doc:Row[1]/doc:Cell/doc:Data/text()";

/// The query for the data cells of a column, up to the column's position.
pub const COLUMN_PATH_START: &'static str =
    "doc:Workbook/doc:Worksheet/doc:Table/doc:Row[position()>1]/doc:Cell[";

/// The query for the data cells of a column, after the column's position.
pub const COLUMN_PATH_END: &'static str = "]/doc:Data";

/// The prefix under which the queries name the spreadsheet namespace.
pub open spec fn sheet_prefix() -> Seq<char> {
    SHEET_PREFIX@
}

/// The namespace of the spreadsheet's elements.
pub open spec fn sheet_namespace() -> Seq<char> {
    SHEET_NAMESPACE@
}

/// The query for the texts of the header row.
pub open spec fn header_path() -> Seq<char> {
    HEADER_PATH@
}

/// The query for the data cells at a position, counted from one, in the rows
/// below the header row.
pub open spec fn column_path(position: nat) -> Seq<char> {
    COLUMN_PATH_START@ + decimal(position) + COLUMN_PATH_END@
}

/// Whether a path is one of the reader's queries: the header query, or the
/// query for the column at some position. Every name test in them has the
/// prefix `doc`.
pub open spec fn is_sheet_query(path: Seq<char>) -> bool {
    path == header_path() || exists|position: nat| path == #[trigger] column_path(position)
}

/// A parsed XML document of `sxd_document`.
#[verifier::external_type_specification]
#[verifier::external_body]
pub struct ExPackage(sxd_document::Package);

/// The text that a document was parsed from. The documents of this library
/// come from `parse_document` alone, and what a query selects in one is stated
/// as what the parser and the query make of this text.
pub uninterp spec fn document_source(document: Package) -> Seq<char>;

/// What `sxd_document` says of a text that it does not parse as an XML
/// document: the `Display` text of the parser's error. `None` where it parses
/// the text.
pub uninterp spec fn xml_parse_error(text: Seq<char>) -> Option<Seq<char>>;

/// What the XPath expression `path` selects in the document parsed from `text`,
/// evaluated at the document's root with `prefix` bound to the namespace `uri`.
/// `None` where the expression does not compile or its evaluation fails;
/// `Some(None)` where its value is no node set; else the nodes in document
/// order, each as a pair: the node's text if it is a text node, and its
/// children in order, each as its text if it is a text node.
pub uninterp spec fn xml_selection(
    text: Seq<char>,
    path: Seq<char>,
    prefix: Seq<char>,
    uri: Seq<char>,
) -> Option<Option<Seq<(Option<Seq<char>>, Seq<Option<Seq<char>>>)>>>;

/// What a list of selected nodes holds.
pub open spec fn node_views(nodes: Seq<(Option<String>, Vec<Option<String>>)>) -> Seq<
    (Option<Seq<char>>, Seq<Option<Seq<char>>>),
> {
    Seq::new(nodes.len(), |i: int| (opt_text(nodes[i].0), texts(nodes[i].1@)))
}

/// What a selection holds.
pub open spec fn selection_view(
    selection: Option<Option<Vec<(Option<String>, Vec<Option<String>>)>>>,
) -> Option<Option<Seq<(Option<Seq<char>>, Seq<Option<Seq<char>>>)>>> {
    match selection {
        Some(Some(nodes)) => Some(Some(node_views(nodes@))),
        Some(None) => Some(None),
        None => None,
    }
}

/// The selected nodes' own texts.
pub open spec fn own_texts(nodes: Seq<(Option<Seq<char>>, Seq<Option<Seq<char>>>)>) -> Seq<
    Option<Seq<char>>,
> {
    Seq::new(nodes.len(), |i: int| nodes[i].0)
}

/// The text of a node's first child: missing where the node has no child or
/// the first child is no text node.
pub open spec fn first_text(children: Seq<Option<Seq<char>>>) -> Option<Seq<char>> {
    if children.len() > 0 {
        children[0]
    } else {
        None
    }
}

/// The texts of the selected nodes' first children.
pub open spec fn child_texts(nodes: Seq<(Option<Seq<char>>, Seq<Option<Seq<char>>>)>) -> Seq<
    Option<Seq<char>>,
> {
    Seq::new(nodes.len(), |i: int| first_text(nodes[i].1))
}

/// Parses a text with `sxd_document::parser::parse`. Whether that succeeds,
/// and the error's text where it does not, depend on the text alone.
#[verifier::external_body]
pub(crate) fn parse_document(text: &str) -> (document: Result<Package, String>)
    ensures
        match document {
            Ok(d) => xml_parse_error(text@) is None && document_source(d) == text@,
            Err(e) => xml_parse_error(text@) == Some(e@),
        },
{
    sxd_document::parser::parse(text).map_err(|e| e.to_string())
}

/// Evaluates one of the reader's queries on a document: `Factory::build`, then
/// `XPath::evaluate` at the document's root in a `Context` that binds the
/// queries' prefix, then `Nodeset::document_order`. Each selected node is
/// handed out as its text and its children's texts, read with `Node::text` and
/// `Node::children`. The result depends on the document, the expression and
/// the binding alone. A name test with a prefix that the context does not bind
/// makes `XPath::evaluate` panic, so only the reader's queries are admitted,
/// under their prefix.
#[verifier::external_body]
pub(crate) fn select_nodes(document: &Package, path: &str, prefix: &str, uri: &str) -> (selection:
    Option<Option<Vec<(Option<String>, Vec<Option<String>>)>>>)
    requires
        prefix@ == sheet_prefix(),
        is_sheet_query(path@),
    ensures
        selection_view(selection) == xml_selection(
            document_source(*document),
            path@,
            prefix@,
            uri@,
        ),
{
    let xpath = Factory::new().build(path).ok()??;
    let mut context = Context::new();
    context.set_namespace(prefix, uri);
    let value = xpath.evaluate(&context, document.as_document().root()).ok()?;
    let Value::Nodeset(nodes) = value else { return Some(None) };
    let text = |t: Option<Text>| t.map(|t| t.text().to_string());
    let pair = |n: &Node| (text(n.text()), n.children().iter().map(|c| text(c.text())).collect());
    Some(Some(nodes.document_order().iter().map(pair).collect()))
}

/// The selected nodes' own texts.
pub fn node_texts(nodes: &Vec<(Option<String>, Vec<Option<String>>)>) -> (cells: Vec<
    Option<String>,
>)
    ensures
        texts(cells@) == own_texts(node_views(nodes@)),
{
    let mut cells: Vec<Option<String>> = Vec::new();
    let mut i: usize = 0;
    while i < nodes.len()
        invariant
            i <= nodes.len(),
            cells.len() == i,
            forall|k: int| 0 <= k < i ==> opt_text(cells@[k]) == opt_text(nodes@[k].0),
        decreases nodes.len() - i,
    {
        cells.push(clone_cell(&nodes[i].0));
        i += 1;
    }
    proof {
        assert(texts(cells@) =~= own_texts(node_views(nodes@)));
    }
    cells
}

/// The texts of the selected nodes' first children.
pub fn first_child_texts(nodes: &Vec<(Option<String>, Vec<Option<String>>)>) -> (cells: Vec<
    Option<String>,
>)
    ensures
        texts(cells@) == child_texts(node_views(nodes@)),
{
    let mut cells: Vec<Option<String>> = Vec::new();
    let mut i: usize = 0;
    while i < nodes.len()
        invariant
            i <= nodes.len(),
            cells.len() == i,
            forall|k: int|
                0 <= k < i ==> opt_text(cells@[k]) == first_text(texts((#[trigger] nodes@[k]).1@)),
        decreases nodes.len() - i,
    {
        let children = &nodes[i].1;
        if children.len() > 0 {
            cells.push(clone_cell(&children[0]));
        } else {
            cells.push(None);
        }
        i += 1;
    }
    proof {
        assert(texts(cells@) =~= child_texts(node_views(nodes@)));
    }
    cells
}

} // verus!
