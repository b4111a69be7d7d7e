//! The source-language parser, consumed as a black box: it turns a source
//! text into a syntax tree whose nodes are visited in a stable, insertion
//! order. Only the parse call is outside code; the node sequence it yields is
//! plain data that the verified extraction walks.
use crate::extract::SourceNode;
use crate::extract::SourceNodeView;
use crate::extract::TriviaItem;
use vstd::prelude::*;

verus! {

/// What parsing a source text yields: the flat, document-ordered node
/// sequence of its syntax tree, or the parse error's message. The parser is
/// deterministic, so the result is a function of the source text alone.
pub uninterp spec fn nix_source_nodes(src: Seq<char>) -> Result<Seq<SourceNodeView>, Seq<char>>;

/// The mathematical shape of a parse result: the nodes' views on success, the
/// message's characters on failure.
pub open spec fn nodes_result_view(r: Result<Vec<SourceNode>, String>) -> Result<
    Seq<SourceNodeView>,
    Seq<char>,
> {
    match r {
        Ok(nodes) => Ok(nodes.deep_view()),
        Err(m) => Err(m@),
    }
}

/// Relies on rnix::parse and on the arena of the syntax tree it returns:
/// iterating the arena yields every node once, in insertion order; an
/// identifier node carries its name and its leading trivia, where a comment
/// item knows whether it is block-style (multiline) and holds its content
/// with the delimiters stripped.
#[verifier::external_body]
pub(crate) fn parse_nix_nodes(source: &str) -> (r: Result<Vec<SourceNode>, String>)
    ensures
        nodes_result_view(r) == nix_source_nodes(source@),
{
    let ast = match rnix::parse(source) {
        Ok(ast) => ast,
        Err(e) => return Err(e.to_string()),
    };
    Ok(ast.arena.into_iter().map(|node| match &node.data {
        rnix::parser::Data::Ident(meta, name) => SourceNode::Ident {
            name: name.clone(),
            leading: meta.leading.iter().map(|t| match t {
                rnix::tokenizer::Trivia::Comment { multiline, content, .. } => TriviaItem::Comment { multiline: *multiline, content: content.to_string() },
                _ => TriviaItem::Other,
            }).collect(),
        },
        _ => SourceNode::Other,
    }).collect())
}

} // verus!
