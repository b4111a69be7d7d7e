//! Locating documentable identifiers: the syntax tree is consumed as a flat,
//! document-ordered sequence of nodes, each carrying its leading trivia; an
//! identifier whose leading trivia holds a block comment yields a `DocItem`.
use crate::comment::parse_doc_comment;
use crate::comment::parsed_doc_comment;
use crate::comment::DocComment;
use crate::comment::DocCommentView;
use vstd::prelude::*;

verus! {

/// One item of a node's leading trivia: a comment (block-style when
/// `multiline` is set) or anything else (whitespace, line markers).
pub enum TriviaItem {
    Comment { multiline: bool, content: String },
    Other,
}

/// The mathematical shape of a trivia item.
pub ghost enum TriviaView {
    Comment { multiline: bool, content: Seq<char> },
    Other,
}

impl DeepView for TriviaItem {
    type V = TriviaView;

    open spec fn deep_view(&self) -> TriviaView {
        match self {
            TriviaItem::Comment { multiline, content } => TriviaView::Comment {
                multiline: *multiline,
                content: content@,
            },
            TriviaItem::Other => TriviaView::Other,
        }
    }
}

/// One node of the source syntax tree, reduced to what extraction reads:
/// an identifier definition carries its leading trivia and its name; every
/// other node kind is opaque.
pub enum SourceNode {
    Ident { leading: Vec<TriviaItem>, name: String },
    Other,
}

/// The mathematical shape of a source node.
pub ghost enum SourceNodeView {
    Ident { leading: Seq<TriviaView>, name: Seq<char> },
    Other,
}

impl DeepView for SourceNode {
    type V = SourceNodeView;

    open spec fn deep_view(&self) -> SourceNodeView {
        match self {
            SourceNode::Ident { leading, name } => SourceNodeView::Ident {
                leading: leading.deep_view(),
                name: name@,
            },
            SourceNode::Other => SourceNodeView::Other,
        }
    }
}

/// An extracted, still-uncategorized documentation unit: an identifier's name
/// together with its parsed documentation comment.
#[derive(Debug)]
pub struct DocItem {
    pub name: String,
    pub comment: DocComment,
}

/// The mathematical shape of a documentation item.
pub ghost struct DocItemView {
    pub name: Seq<char>,
    pub comment: DocCommentView,
}

impl DeepView for DocItem {
    type V = DocItemView;

    open spec fn deep_view(&self) -> DocItemView {
        DocItemView { name: self.name@, comment: self.comment@ }
    }
}

/// The content of the first block comment among the leading trivia, if any.
pub open spec fn first_block_comment(ts: Seq<TriviaView>) -> Option<Seq<char>>
    decreases ts.len(),
{
    if ts.len() == 0 {
        None
    } else {
        match ts[0] {
            TriviaView::Comment { multiline, content } => if multiline {
                Some(content)
            } else {
                first_block_comment(ts.drop_first())
            },
            TriviaView::Other => first_block_comment(ts.drop_first()),
        }
    }
}

/// Scan the leading trivia in order and return the content of the first
/// block-style comment, or `None` if no block comment is present. No
/// content-based filtering is applied: every block comment is a candidate.
pub fn retrieve_doc_comment(leading: &Vec<TriviaItem>) -> (r: Option<String>)
    ensures
        (r is Some) == (first_block_comment(leading.deep_view()) is Some),
        r matches Some(s) ==> first_block_comment(leading.deep_view()) == Some(s@),
{
    let ghost dv = leading.deep_view();
    let mut i: usize = 0;
    proof {
        assert(dv.skip(0) =~= dv);
    }
    while i < leading.len()
        invariant
            0 <= i <= leading.len(),
            dv == leading.deep_view(),
            dv.len() == leading.len(),
            first_block_comment(dv.skip(i as int)) == first_block_comment(dv),
        decreases leading.len() - i,
    {
        proof {
            assert(dv.skip(i as int)[0] == dv[i as int]);
            assert(dv[i as int] == leading@[i as int].deep_view());
            assert(dv.skip(i as int).drop_first() =~= dv.skip(i as int + 1));
        }
        match &leading[i] {
            TriviaItem::Comment { multiline, content } => {
                if *multiline {
                    return Some(content.clone());
                }
            },
            TriviaItem::Other => {},
        }
        i = i + 1;
    }
    proof {
        assert(dv.skip(i as int).len() == 0);
    }
    None
}

/// The documentation item that a node yields: an identifier definition whose
/// leading trivia holds a block comment becomes a name paired with the parsed
/// comment; every other node yields nothing.
pub open spec fn doc_item_of(node: SourceNodeView) -> Option<DocItemView> {
    match node {
        SourceNodeView::Ident { leading, name } => match first_block_comment(leading) {
            Some(content) => Some(
                DocItemView { name: name, comment: parsed_doc_comment(content) },
            ),
            None => None,
        },
        SourceNodeView::Other => None,
    }
}

/// Transform a node into a `DocItem` if it is an identifier definition with a
/// leading block comment; a node without documentation is silently omitted.
pub fn retrieve_doc_item(node: &SourceNode) -> (r: Option<DocItem>)
    ensures
        (r is Some) == (doc_item_of(node.deep_view()) is Some),
        r matches Some(item) ==> doc_item_of(node.deep_view()) == Some(item.deep_view()),
{
    match node {
        SourceNode::Ident { leading, name } => match retrieve_doc_comment(leading) {
            Some(content) => Some(
                DocItem { name: name.clone(), comment: parse_doc_comment(content.as_str()) },
            ),
            None => None,
        },
        SourceNode::Other => None,
    }
}

/// The documentation items of a node sequence, in document order: each node's
/// item, if it yields one, with undocumented nodes omitted.
pub open spec fn extracted_items(nodes: Seq<SourceNodeView>) -> Seq<DocItemView>
    decreases nodes.len(),
{
    if nodes.len() == 0 {
        Seq::empty()
    } else {
        let rest = extracted_items(nodes.drop_first());
        match doc_item_of(nodes[0]) {
            Some(item) => seq![item] + rest,
            None => rest,
        }
    }
}

/// Walk the node sequence once, in order, and collect the `DocItem` of every
/// documented identifier definition.
pub fn extract_doc_items(nodes: &Vec<SourceNode>) -> (items: Vec<DocItem>)
    ensures
        items.deep_view() == extracted_items(nodes.deep_view()),
{
    let ghost dv = nodes.deep_view();
    let mut items: Vec<DocItem> = Vec::new();
    let mut i: usize = 0;
    proof {
        assert(dv.skip(0) =~= dv);
        assert(items.deep_view() =~= Seq::<DocItemView>::empty());
    }
    while i < nodes.len()
        invariant
            0 <= i <= nodes.len(),
            dv == nodes.deep_view(),
            dv.len() == nodes.len(),
            extracted_items(dv) == items.deep_view() + extracted_items(dv.skip(i as int)),
        decreases nodes.len() - i,
    {
        proof {
            assert(dv.skip(i as int)[0] == dv[i as int]);
            assert(dv[i as int] == nodes@[i as int].deep_view());
            assert(dv.skip(i as int).drop_first() =~= dv.skip(i as int + 1));
        }
        let ghost items_before = items.deep_view();
        match retrieve_doc_item(&nodes[i]) {
            Some(item) => {
                items.push(item);
                proof {
                    assert(items.deep_view() =~= items_before.push(item.deep_view()));
                    assert(extracted_items(dv.skip(i as int)) == seq![item.deep_view()]
                        + extracted_items(dv.skip(i as int + 1)));
                    assert(items_before.push(item.deep_view()) + extracted_items(
                        dv.skip(i as int + 1),
                    ) =~= items_before + extracted_items(dv.skip(i as int)));
                }
            },
            None => {},
        }
        i = i + 1;
    }
    proof {
        assert(dv.skip(i as int).len() == 0);
        assert(extracted_items(dv.skip(i as int)) == Seq::<DocItemView>::empty());
        assert(items.deep_view() + Seq::<DocItemView>::empty() =~= items.deep_view());
    }
    items
}

/// A node sequence in which no node yields a documentation item extracts to
/// nothing.
pub proof fn lemma_no_documented_idents(nodes: Seq<SourceNodeView>)
    requires
        forall|i: int| 0 <= i < nodes.len() ==> #[trigger] doc_item_of(nodes[i]) is None,
    ensures
        extracted_items(nodes) == Seq::<DocItemView>::empty(),
    decreases nodes.len(),
{
    if nodes.len() > 0 {
        assert(doc_item_of(nodes[0]) is None);
        assert forall|i: int| 0 <= i < nodes.drop_first().len() implies #[trigger] doc_item_of(
            nodes.drop_first()[i],
        ) is None by {
            assert(nodes.drop_first()[i] == nodes[i + 1]);
        }
        lemma_no_documented_idents(nodes.drop_first());
    }
}

} // verus!
