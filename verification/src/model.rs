//! The document model the editor displays: identifiers for open documents,
//! the items that make up one rendered line, and their display widths.
use vstd::prelude::*;

use crate::node::NodeType;
use crate::width::{str_display_width, str_width_of};

verus! {

/// Identifies a document inside the application. Always positive, so that an
/// absent document can be told apart from any real one.
#[derive(Debug, Clone, Copy, PartialEq, Eq, Structural, PartialOrd, Ord, Hash)]
pub struct DocumentId(pub usize);

impl DocumentId {
    /// Identifiers are positive.
    pub open spec fn wf(&self) -> bool {
        self.0 >= 1
    }
}

impl Default for DocumentId {
    /// The first document identifier.
    fn default() -> (r: DocumentId)
        ensures
            r.0 == 1,
            r.wf(),
    {
        DocumentId(1)
    }
}

/// The state of the document display area as a whole.
pub struct EditorModel {
    /// The identifier the next opened document will get.
    pub next_document_id: DocumentId,
}

impl Default for EditorModel {
    fn default() -> (r: EditorModel)
        ensures
            r.next_document_id.0 == 1,
    {
        EditorModel { next_document_id: DocumentId::default() }
    }
}

/// One inline element of a rendered line.
#[derive(Clone)]
pub struct InLineItem {
    /// The text shown.
    pub content: String,
    /// Link target, if the item is a reference.
    pub link: Option<String>,
    /// The style name the theme resolves, if any.
    pub style: Option<String>,
    /// Whether a soft line break follows the item.
    pub line_break: bool,
}

impl InLineItem {
    /// A title item: plain content styled as a document heading.
    pub fn default_title(content: String) -> (r: InLineItem)
        ensures
            r.content@ == content@,
            r.link is None,
            r.style matches Some(s) && s@ == "node.heading.title"@,
            !r.line_break,
    {
        InLineItem {
            content,
            link: None,
            style: Some(String::from_str("node.heading.title")),
            line_break: false,
        }
    }
}

/// One rendered line: its inline items and layout attributes.
#[derive(Clone)]
pub struct DocumentLine {
    /// The inline items the line renders.
    pub content: Vec<InLineItem>,
    /// The node kind the line came from.
    pub node_type: NodeType,
    /// Whether the line ends a soft break inside a block.
    pub break_line: bool,
    /// The surrounding container's node kind.
    pub container: NodeType,
    /// Indent kept when a list item wraps.
    pub indent_width: usize,
}

impl DocumentLine {
    /// A line holding one item; a soft break on the item carries over.
    pub fn default_with_item(item: InLineItem) -> (r: DocumentLine)
        ensures
            r.content@.len() == 1,
            r.content@[0].content@ == item.content@,
            r.break_line == item.line_break,
            r.node_type == NodeType::Default,
            r.container == NodeType::Default,
            r.indent_width == 0,
    {
        let flag = item.line_break;
        let mut content: Vec<InLineItem> = Vec::new();
        content.push(item);
        DocumentLine {
            content,
            node_type: NodeType::Default,
            break_line: flag,
            container: NodeType::Default,
            indent_width: 0,
        }
    }

    /// A line holding the given items.
    pub fn default_with_items(items: Vec<InLineItem>) -> (r: DocumentLine)
        ensures
            r.content@ == items@,
            !r.break_line,
            r.node_type == NodeType::Default,
            r.container == NodeType::Default,
            r.indent_width == 0,
    {
        DocumentLine {
            content: items,
            node_type: NodeType::Default,
            break_line: false,
            container: NodeType::Default,
            indent_width: 0,
        }
    }
}

/// The display width of a sequence of inline items: the sum of their
/// contents' widths.
pub open spec fn spec_items_width(items: Seq<InLineItem>) -> nat
    decreases items.len(),
{
    if items.len() == 0 {
        0
    } else {
        spec_items_width(items.drop_last()) + str_width_of(items.last().content@)
    }
}

/// The display width of one inline item's content.
pub fn calculate_item_width(item: &InLineItem) -> (r: usize)
    ensures
        r == str_width_of(item.content@),
        r <= 3 * item.content@.len(),
{
    str_display_width(item.content.as_str())
}

/// The display width of a row of inline items.
pub fn calculate_items_width(items: &Vec<InLineItem>) -> (r: usize)
    requires
        spec_items_bytes_bound(items@) <= usize::MAX,
    ensures
        r == spec_items_width(items@),
{
    let mut width: usize = 0;
    let mut i: usize = 0;
    proof {
        assert(items@.take(0) =~= Seq::<InLineItem>::empty());
    }
    while i < items.len()
        invariant
            i <= items@.len(),
            spec_items_bytes_bound(items@) <= usize::MAX,
            width == spec_items_width(items@.take(i as int)),
            width <= spec_items_bytes_bound(items@.take(i as int)),
        decreases items@.len() - i,
    {
        proof {
            assert(items@.take(i as int + 1).drop_last() =~= items@.take(i as int));
            assert(items@.take(i as int + 1).last() == items@[i as int]);
            lemma_items_bytes_bound_monotone(items@, i as int + 1);
            lemma_items_bytes_bound_monotone(items@, i as int);
        }
        let w = calculate_item_width(&items[i]);
        width = width + w;
        i = i + 1;
    }
    proof {
        assert(items@.take(items@.len() as int) =~= items@);
    }
    width
}

/// The display width of a whole line.
pub fn calculate_line_width(line: &DocumentLine) -> (r: usize)
    requires
        spec_items_bytes_bound(line.content@) <= usize::MAX,
    ensures
        r == spec_items_width(line.content@),
{
    calculate_items_width(&line.content)
}

/// An overflow bound on a row's total width: three columns per character.
pub open spec fn spec_items_bytes_bound(items: Seq<InLineItem>) -> nat
    decreases items.len(),
{
    if items.len() == 0 {
        0
    } else {
        spec_items_bytes_bound(items.drop_last()) + 3 * items.last().content@.len()
    }
}

proof fn lemma_items_bytes_bound_monotone(items: Seq<InLineItem>, i: int)
    requires
        0 <= i <= items.len(),
    ensures
        spec_items_bytes_bound(items.take(i)) <= spec_items_bytes_bound(items),
    decreases items.len() - i,
{
    if i < items.len() {
        lemma_items_bytes_bound_monotone(items, i + 1);
        assert(items.take(i + 1).drop_last() =~= items.take(i));
        assert(items.take(i + 1).last() == items[i]);
        assert(spec_items_bytes_bound(items.take(i)) <= spec_items_bytes_bound(items.take(i + 1)));
    } else {
        assert(items.take(i) =~= items);
    }
}

} // verus!
