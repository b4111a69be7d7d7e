//! Documentation extraction for Nix library source files: identifiers
//! preceded by a block comment are collected in document order, the comment
//! is parsed into a description with an optional type signature and example,
//! and every documented identifier is rendered as one section of a DocBook
//! document under a wrapping section for the whole category.
pub mod comment;
pub mod entry;
pub mod extract;
pub mod markup;
pub mod nix;

use crate::entry::entries_of;
use crate::entry::manual_entries;
use crate::entry::manual_events;
use crate::entry::write_manual;
use crate::extract::extract_doc_items;
use crate::extract::extracted_items;
use crate::markup::open_depth;
use crate::markup::writer_events;
use crate::markup::xml_into_output;
use crate::markup::xml_new_writer;
use crate::markup::xml_output_of;
use crate::nix::nix_source_nodes;
use crate::nix::parse_nix_nodes;
use vstd::prelude::*;

verus! {

/// Generate the manual for one source text: parse it, extract the documented
/// identifiers in document order, tag them with the category, and render the
/// wrapping section with one nested section per entry. The run succeeds
/// exactly when the source parses: the document is rendered into a fresh
/// in-memory buffer, where every write succeeds. On success the bytes are the
/// serialization of exactly the manual's events; a parse failure is reported
/// with the parser's message.
pub fn generate_manual(source: &str, category: &str, description: &str) -> (r: Result<
    Vec<u8>,
    String,
>)
    ensures
        nix_source_nodes(source@) is Ok ==> r is Ok,
        r matches Ok(out) ==> (nix_source_nodes(source@) matches Ok(nodes) && out@
            == xml_output_of(
            manual_events(
                entries_of(extracted_items(nodes), category@),
                category@,
                description@,
            ),
        )),
        nix_source_nodes(source@) matches Err(m) ==> (r matches Err(msg) && msg@ == m),
{
    let nodes = match parse_nix_nodes(source) {
        Ok(nodes) => nodes,
        Err(m) => {
            return Err(m);
        },
    };
    let items = extract_doc_items(&nodes);
    let entries = manual_entries(items, category);
    let mut w = xml_new_writer();
    proof {
        assert(open_depth(writer_events(w)) == 0);
    }
    match write_manual(&entries, category, description, &mut w) {
        Ok(_) => {
            proof {
                assert(writer_events(w) =~= manual_events(
                    entries_of(extracted_items(nodes.deep_view()), category@),
                    category@,
                    description@,
                ));
            }
            Ok(xml_into_output(w))
        },
        Err(m) => Err(m),
    }
}

/// A source with no documented identifiers produces the wrapping section with
/// its title and no nested sections: its manual consists of the wrapper's
/// opening events followed directly by the wrapper's closing event.
pub proof fn lemma_manual_of_undocumented(
    nodes: Seq<crate::extract::SourceNodeView>,
    category: Seq<char>,
    description: Seq<char>,
)
    requires
        forall|i: int| 0 <= i < nodes.len() ==> #[trigger] crate::extract::doc_item_of(
            nodes[i],
        ) is None,
    ensures
        manual_events(entries_of(extracted_items(nodes), category), category, description)
            == crate::entry::wrapper_open_events(category, description) + seq![
            crate::markup::MarkupEvent::End,
        ],
{
    crate::extract::lemma_no_documented_idents(nodes);
    let es = entries_of(extracted_items(nodes), category);
    assert(es =~= Seq::<crate::entry::ManualEntryView>::empty());
    assert(crate::entry::entries_events(es) == Seq::<crate::markup::MarkupEvent>::empty());
    assert(crate::entry::wrapper_open_events(category, description)
        + Seq::<crate::markup::MarkupEvent>::empty() + seq![crate::markup::MarkupEvent::End]
        =~= crate::entry::wrapper_open_events(category, description) + seq![
        crate::markup::MarkupEvent::End,
    ]);
}

} // verus!
