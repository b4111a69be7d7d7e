use nixdoc::extract::extract_doc_items;
use nixdoc::extract::retrieve_doc_comment;
use nixdoc::extract::retrieve_doc_item;
use nixdoc::extract::SourceNode;
use nixdoc::extract::TriviaItem;

fn block(content: &str) -> TriviaItem {
    TriviaItem::Comment { multiline: true, content: content.to_string() }
}

fn line(content: &str) -> TriviaItem {
    TriviaItem::Comment { multiline: false, content: content.to_string() }
}

#[test]
fn no_trivia_yields_nothing() {
    assert_eq!(retrieve_doc_comment(&vec![]), None);
}

#[test]
fn trivia_without_block_comment_yields_nothing() {
    let leading = vec![TriviaItem::Other, line("just a line comment"), TriviaItem::Other];
    assert_eq!(retrieve_doc_comment(&leading), None);
}

#[test]
fn first_block_comment_wins() {
    let leading = vec![
        TriviaItem::Other,
        line("noise"),
        block(" first "),
        block(" second "),
    ];
    // content is returned verbatim, surrounding trivia is irrelevant
    assert_eq!(retrieve_doc_comment(&leading), Some(" first ".to_string()));
}

#[test]
fn every_block_comment_is_a_candidate() {
    // no content-based filtering: a block comment without any marker counts
    let leading = vec![block("plain words")];
    assert_eq!(retrieve_doc_comment(&leading), Some("plain words".to_string()));
}

#[test]
fn documented_ident_becomes_item() {
    let node = SourceNode::Ident {
        leading: vec![block(" the answer ")],
        name: "answer".to_string(),
    };
    let item = retrieve_doc_item(&node).unwrap();
    assert_eq!(item.name, "answer");
    assert_eq!(item.comment.doc, "the answer");
}

#[test]
fn undocumented_ident_is_omitted() {
    let node = SourceNode::Ident { leading: vec![TriviaItem::Other], name: "b".to_string() };
    assert!(retrieve_doc_item(&node).is_none());
}

#[test]
fn non_ident_node_is_omitted() {
    assert!(retrieve_doc_item(&SourceNode::Other).is_none());
}

#[test]
fn extraction_keeps_document_order_and_omits_undocumented() {
    let nodes = vec![
        SourceNode::Ident { leading: vec![block("first")], name: "a".to_string() },
        SourceNode::Ident { leading: vec![], name: "b".to_string() },
        SourceNode::Other,
        SourceNode::Ident { leading: vec![block("third")], name: "c".to_string() },
    ];
    let items = extract_doc_items(&nodes);
    let names: Vec<&str> = items.iter().map(|i| i.name.as_str()).collect();
    assert_eq!(names, vec!["a", "c"]);
    assert_eq!(items[0].comment.doc, "first");
    assert_eq!(items[1].comment.doc, "third");
}

#[test]
fn extraction_of_empty_sequence_is_empty() {
    let items = extract_doc_items(&vec![]);
    assert_eq!(items.len(), 0);
}
