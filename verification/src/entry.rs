//! Manual entries and their rendering: each extracted documentation item,
//! tagged with the run's category, becomes a `ManualEntry`, and every entry is
//! serialized as one nested section of the markup document.
use crate::extract::DocItem;
use crate::extract::DocItemView;
use crate::markup::attr_views;
use crate::markup::open_depth;
use crate::markup::DocWriter;
use crate::markup::writer_events;
use crate::markup::xml_characters;
use crate::markup::xml_end_element;
use crate::markup::xml_start_element;
use crate::markup::MarkupEvent;
use vstd::prelude::*;
use vstd::string::StringExecFns;

verus! {

/// A single function parameter and (potentially) its documentation. No
/// extraction path populates parameters yet; the field exists so that
/// rendering logic can be written generically over "parameters, possibly
/// empty".
#[derive(Debug)]
pub struct Parameter {
    pub name: String,
    pub description: Option<String>,
    pub arg_type: Option<String>,
}

/// The mathematical shape of a parameter.
pub ghost struct ParameterView {
    pub name: Seq<char>,
    pub description: Option<Seq<char>>,
    pub arg_type: Option<Seq<char>>,
}

impl DeepView for Parameter {
    type V = ParameterView;

    open spec fn deep_view(&self) -> ParameterView {
        ParameterView {
            name: self.name@,
            description: match self.description {
                Some(d) => Some(d@),
                None => None,
            },
            arg_type: match self.arg_type {
                Some(t) => Some(t@),
                None => None,
            },
        }
    }
}

/// A single manual section describing a library function: the unit the
/// renderer consumes.
#[derive(Debug)]
pub struct ManualEntry {
    /// The category of the run (e.g. strings, attrsets), copied into every entry.
    pub category: String,
    /// Name of the section, used as the title.
    pub name: String,
    /// Type signature, if one was provided. It is not checked in any way.
    pub fn_type: Option<String>,
    /// Primary description of the entry.
    pub description: String,
    /// Parameters of the function; empty in practice.
    pub parameters: Vec<Parameter>,
}

/// The mathematical shape of a manual entry.
pub ghost struct ManualEntryView {
    pub category: Seq<char>,
    pub name: Seq<char>,
    pub fn_type: Option<Seq<char>>,
    pub description: Seq<char>,
    pub parameters: Seq<ParameterView>,
}

impl DeepView for ManualEntry {
    type V = ManualEntryView;

    open spec fn deep_view(&self) -> ManualEntryView {
        ManualEntryView {
            category: self.category@,
            name: self.name@,
            fn_type: match self.fn_type {
                Some(t) => Some(t@),
                None => None,
            },
            description: self.description@,
            parameters: self.parameters.deep_view(),
        }
    }
}

/// The entry a documentation item becomes: the category is attached, the
/// item's fields carry over, and the parameter list is empty. The mapping is
/// pure and total; every item becomes an entry.
pub open spec fn entry_of(item: DocItemView, category: Seq<char>) -> ManualEntryView {
    ManualEntryView {
        category: category,
        name: item.name,
        fn_type: item.comment.doc_type,
        description: item.comment.doc,
        parameters: Seq::empty(),
    }
}

/// The entries of an item sequence, in the items' order.
pub open spec fn entries_of(items: Seq<DocItemView>, category: Seq<char>) -> Seq<ManualEntryView> {
    items.map_values(|it: DocItemView| entry_of(it, category))
}

impl ManualEntry {
    /// Build the entry of one documentation item under the given category.
    pub fn from_doc_item(item: DocItem, category: &str) -> (e: ManualEntry)
        ensures
            e.deep_view() == entry_of(item.deep_view(), category@),
    {
        let e = ManualEntry {
            category: String::from_str(category),
            name: item.name,
            fn_type: item.comment.doc_type,
            description: item.comment.doc,
            parameters: Vec::new(),
        };
        proof {
            assert(e.parameters.deep_view() =~= Seq::<ParameterView>::empty());
        }
        e
    }

    /// The qualified identifier `lib.<category>.<name>` of this entry.
    pub fn ident(&self) -> (r: String)
        ensures
            r@ == entry_ident(self.category@, self.name@),
    {
        let mut s = String::from_str("lib.");
        s.append(self.category.as_str());
        s.append(".");
        s.append(self.name.as_str());
        s
    }
}

/// Map the extracted items to manual entries, keeping their order.
pub fn manual_entries(items: Vec<DocItem>, category: &str) -> (es: Vec<ManualEntry>)
    ensures
        es.deep_view() == entries_of(items.deep_view(), category@),
{
    let ghost dv = items.deep_view();
    let mut es: Vec<ManualEntry> = Vec::new();
    let mut rest = items;
    let ghost mut i: int = 0;
    proof {
        assert(rest.deep_view() =~= dv.skip(0));
        assert(es.deep_view() =~= entries_of(dv.take(0), category@));
    }
    while rest.len() > 0
        invariant
            0 <= i <= dv.len(),
            rest.deep_view() =~= dv.skip(i),
            rest@.len() == dv.len() - i,
            es.deep_view() =~= entries_of(dv.take(i), category@),
        decreases rest@.len(),
    {
        let ghost es_before = es.deep_view();
        let ghost rest_before = rest.deep_view();
        let ghost seq_before = rest@;
        let item = rest.remove(0);
        proof {
            assert(item.deep_view() == rest_before[0]);
            assert(item.deep_view() == dv[i]);
            assert(rest@ =~= seq_before.skip(1));
            assert forall|k: int| 0 <= k < rest@.len() implies rest.deep_view()[k] == dv.skip(
                i + 1,
            )[k] by {
                assert(rest.deep_view()[k] == rest@[k].deep_view());
                assert(rest@[k] == seq_before[k + 1]);
                assert(seq_before[k + 1].deep_view() == rest_before[k + 1]);
                assert(rest_before[k + 1] == dv.skip(i)[k + 1]);
            }
            assert(rest.deep_view() =~= dv.skip(i + 1));
        }
        let e = ManualEntry::from_doc_item(item, category);
        es.push(e);
        proof {
            assert(es.deep_view() =~= es_before.push(e.deep_view()));
            assert(entries_of(dv.take(i + 1), category@) =~= entries_of(
                dv.take(i),
                category@,
            ).push(entry_of(dv[i], category@)));
            i = i + 1;
        }
    }
    proof {
        assert(dv.take(dv.len() as int) =~= dv);
        assert(es.deep_view() =~= entries_of(dv, category@));
    }
    es
}

/// The qualified identifier of an entry with the given category and name.
pub open spec fn entry_ident(category: Seq<char>, name: Seq<char>) -> Seq<char> {
    "lib."@ + category + "."@ + name
}

/// The markup events of one entry's section: a section element whose
/// identifier attribute is `function-library-lib.<category>.<name>`, a title
/// holding a function element with the qualified identifier, a subtitle with
/// the type signature in a literal element when one is present, and a
/// paragraph carrying the description verbatim.
pub open spec fn section_events(e: ManualEntryView) -> Seq<MarkupEvent> {
    let ident = entry_ident(e.category, e.name);
    seq![
        MarkupEvent::Start {
            name: "section"@,
            attrs: seq![("xml:id"@, "function-library-"@ + ident)],
        },
        MarkupEvent::Start { name: "title"@, attrs: Seq::empty() },
        MarkupEvent::Start { name: "function"@, attrs: Seq::empty() },
        MarkupEvent::Text(ident),
        MarkupEvent::End,
        MarkupEvent::End,
    ] + (match e.fn_type {
        Some(t) => seq![
            MarkupEvent::Start { name: "subtitle"@, attrs: Seq::empty() },
            MarkupEvent::Start { name: "literal"@, attrs: Seq::empty() },
            MarkupEvent::Text(t),
            MarkupEvent::End,
            MarkupEvent::End,
        ],
        None => Seq::empty(),
    }) + seq![
        MarkupEvent::Start { name: "para"@, attrs: Seq::empty() },
        MarkupEvent::Text(e.description),
        MarkupEvent::End,
        MarkupEvent::End,
    ]
}

impl ManualEntry {
    /// Write this entry's section through the document sink. The sink's
    /// ordering discipline asks for balanced start/end calls, so the writer's
    /// history may not leave fewer than no elements open; every write then
    /// succeeds, the writer accepts exactly the entry's section events, and
    /// as many elements are open afterwards as before.
    pub fn write_section_xml(&self, w: &mut DocWriter) -> (r: Result<
        (),
        String,
    >)
        requires
            open_depth(writer_events(*old(w))) >= 0,
        ensures
            r is Ok,
            writer_events(*final(w)) == writer_events(*old(w)) + section_events(self.deep_view()),
            open_depth(writer_events(*final(w))) == open_depth(writer_events(*old(w))),
    {
        let ghost h0 = writer_events(*w);
        let ident = self.ident();
        let mut attrs: Vec<(String, String)> = Vec::new();
        attrs.push(
            (
                String::from_str("xml:id"),
                String::from_str("function-library-").concat(ident.as_str()),
            ),
        );
        let no_attrs: Vec<(String, String)> = Vec::new();
        proof {
            assert(attr_views(attrs@) =~= seq![
                ("xml:id"@, "function-library-"@ + entry_ident(self.category@, self.name@)),
            ]);
            assert(attr_views(no_attrs@) =~= Seq::<(Seq<char>, Seq<char>)>::empty());
        }
        xml_start_element(w, "section", &attrs)?;
        let ghost h1 = writer_events(*w);
        proof {
            assert(h1.drop_last() =~= h0);
            assert(open_depth(h1) == open_depth(h0) + 1);
        }
        xml_start_element(w, "title", &no_attrs)?;
        let ghost h2 = writer_events(*w);
        proof {
            assert(h2.drop_last() =~= h1);
            assert(open_depth(h2) == open_depth(h0) + 2);
        }
        xml_start_element(w, "function", &no_attrs)?;
        let ghost h3 = writer_events(*w);
        proof {
            assert(h3.drop_last() =~= h2);
            assert(open_depth(h3) == open_depth(h0) + 3);
        }
        xml_characters(w, ident.as_str())?;
        let ghost h4 = writer_events(*w);
        proof {
            assert(h4.drop_last() =~= h3);
            assert(open_depth(h4) == open_depth(h0) + 3);
        }
        xml_end_element(w)?;
        let ghost h5 = writer_events(*w);
        proof {
            assert(h5.drop_last() =~= h4);
            assert(open_depth(h5) == open_depth(h0) + 2);
        }
        xml_end_element(w)?;
        let ghost h6 = writer_events(*w);
        proof {
            assert(h6.drop_last() =~= h5);
            assert(open_depth(h6) == open_depth(h0) + 1);
        }
        match &self.fn_type {
            Some(t) => {
                xml_start_element(w, "subtitle", &no_attrs)?;
                let ghost s1 = writer_events(*w);
                proof {
                    assert(s1.drop_last() =~= h6);
                    assert(open_depth(s1) == open_depth(h0) + 2);
                }
                xml_start_element(w, "literal", &no_attrs)?;
                let ghost s2 = writer_events(*w);
                proof {
                    assert(s2.drop_last() =~= s1);
                    assert(open_depth(s2) == open_depth(h0) + 3);
                }
                xml_characters(w, t.as_str())?;
                let ghost s3 = writer_events(*w);
                proof {
                    assert(s3.drop_last() =~= s2);
                    assert(open_depth(s3) == open_depth(h0) + 3);
                }
                xml_end_element(w)?;
                let ghost s4 = writer_events(*w);
                proof {
                    assert(s4.drop_last() =~= s3);
                    assert(open_depth(s4) == open_depth(h0) + 2);
                }
                xml_end_element(w)?;
                let ghost s5 = writer_events(*w);
                proof {
                    assert(s5.drop_last() =~= s4);
                    assert(open_depth(s5) == open_depth(h0) + 1);
                }
            },
            None => {},
        }
        let ghost h7 = writer_events(*w);
        proof {
            assert(open_depth(h7) == open_depth(h0) + 1);
        }
        xml_start_element(w, "para", &no_attrs)?;
        let ghost h8 = writer_events(*w);
        proof {
            assert(h8.drop_last() =~= h7);
            assert(open_depth(h8) == open_depth(h0) + 2);
        }
        xml_characters(w, self.description.as_str())?;
        let ghost h9 = writer_events(*w);
        proof {
            assert(h9.drop_last() =~= h8);
            assert(open_depth(h9) == open_depth(h0) + 2);
        }
        xml_end_element(w)?;
        let ghost h10 = writer_events(*w);
        proof {
            assert(h10.drop_last() =~= h9);
            assert(open_depth(h10) == open_depth(h0) + 1);
        }
        xml_end_element(w)?;
        proof {
            assert(writer_events(*w).drop_last() =~= h10);
            assert(open_depth(writer_events(*w)) == open_depth(h0));
            assert(writer_events(*w) =~= writer_events(*old(w)) + section_events(
                self.deep_view(),
            ));
        }
        Ok(())
    }
}

/// The concatenated section events of a sequence of entries, in order.
pub open spec fn entries_events(es: Seq<ManualEntryView>) -> Seq<MarkupEvent>
    decreases es.len(),
{
    if es.len() == 0 {
        Seq::empty()
    } else {
        section_events(es[0]) + entries_events(es.drop_first())
    }
}

/// The events of the wrapping section that opens the whole document: its
/// three fixed namespace declarations, its identifier
/// `sec-functions-library-<category>`, and a title holding the run-level
/// description.
pub open spec fn wrapper_open_events(category: Seq<char>, description: Seq<char>) -> Seq<
    MarkupEvent,
> {
    seq![
        MarkupEvent::Start {
            name: "section"@,
            attrs: seq![
                ("xmlns"@, "http://docbook.org/ns/docbook"@),
                ("xmlns:xlink"@, "http://www.w3.org/1999/xlink"@),
                ("xmlns:xi"@, "http://www.w3.org/2001/XInclude"@),
                ("xml:id"@, "sec-functions-library-"@ + category),
            ],
        },
        MarkupEvent::Start { name: "title"@, attrs: Seq::empty() },
        MarkupEvent::Text(description),
        MarkupEvent::End,
    ]
}

/// The events of the whole manual: the wrapping section is opened, every
/// entry's section follows in sequence order, and the wrapping section is
/// closed.
pub open spec fn manual_events(
    es: Seq<ManualEntryView>,
    category: Seq<char>,
    description: Seq<char>,
) -> Seq<MarkupEvent> {
    wrapper_open_events(category, description) + entries_events(es) + seq![MarkupEvent::End]
}

proof fn lemma_entries_events_snoc(es: Seq<ManualEntryView>, i: int)
    requires
        0 <= i < es.len(),
    ensures
        entries_events(es.take(i + 1)) == entries_events(es.take(i)) + section_events(es[i]),
    decreases i,
{
    if i == 0 {
        assert(es.take(1)[0] == es[0]);
        assert(es.take(1).drop_first() =~= Seq::<ManualEntryView>::empty());
        assert(es.take(0) =~= Seq::<ManualEntryView>::empty());
        assert(entries_events(es.take(1)) == section_events(es[0]) + entries_events(
            Seq::<ManualEntryView>::empty(),
        ));
        assert(Seq::<MarkupEvent>::empty() + section_events(es[0]) =~= section_events(es[0])
            + Seq::<MarkupEvent>::empty());
    } else {
        assert(es.take(i + 1)[0] == es[0]);
        assert(es.take(i)[0] == es[0]);
        assert(es.take(i + 1).drop_first() =~= es.drop_first().take(i));
        assert(es.take(i).drop_first() =~= es.drop_first().take(i - 1));
        lemma_entries_events_snoc(es.drop_first(), i - 1);
        assert(es.drop_first()[i - 1] == es[i]);
        assert(section_events(es[0]) + (entries_events(es.drop_first().take(i - 1))
            + section_events(es[i])) =~= (section_events(es[0]) + entries_events(
            es.drop_first().take(i - 1),
        )) + section_events(es[i]));
    }
}

/// Write the whole manual through the document sink: the wrapping section
/// with the category's identifier and the description as its title, each
/// entry's section in order, and the closing of the wrapper. The sink's
/// ordering discipline asks for balanced start/end calls, so the writer's
/// history may not leave fewer than no elements open; every write then
/// succeeds and the writer accepts exactly the manual's events.
pub fn write_manual(
    entries: &Vec<ManualEntry>,
    category: &str,
    description: &str,
    w: &mut DocWriter,
) -> (r: Result<(), String>)
    requires
        open_depth(writer_events(*old(w))) >= 0,
    ensures
        r is Ok,
        writer_events(*final(w)) == writer_events(*old(w)) + manual_events(
            entries.deep_view(),
            category@,
            description@,
        ),
{
    let ghost dv = entries.deep_view();
    let ghost start_events = writer_events(*w);
    let mut attrs: Vec<(String, String)> = Vec::new();
    attrs.push((String::from_str("xmlns"), String::from_str("http://docbook.org/ns/docbook")));
    attrs.push(
        (String::from_str("xmlns:xlink"), String::from_str("http://www.w3.org/1999/xlink")),
    );
    attrs.push((String::from_str("xmlns:xi"), String::from_str("http://www.w3.org/2001/XInclude")));
    attrs.push(
        (
            String::from_str("xml:id"),
            String::from_str("sec-functions-library-").concat(category),
        ),
    );
    let no_attrs: Vec<(String, String)> = Vec::new();
    proof {
        assert(attr_views(attrs@) =~= seq![
            ("xmlns"@, "http://docbook.org/ns/docbook"@),
            ("xmlns:xlink"@, "http://www.w3.org/1999/xlink"@),
            ("xmlns:xi"@, "http://www.w3.org/2001/XInclude"@),
            ("xml:id"@, "sec-functions-library-"@ + category@),
        ]);
        assert(attr_views(no_attrs@) =~= Seq::<(Seq<char>, Seq<char>)>::empty());
    }
    xml_start_element(w, "section", &attrs)?;
    let ghost g1 = writer_events(*w);
    proof {
        assert(g1.drop_last() =~= start_events);
        assert(open_depth(g1) == open_depth(start_events) + 1);
    }
    xml_start_element(w, "title", &no_attrs)?;
    let ghost g2 = writer_events(*w);
    proof {
        assert(g2.drop_last() =~= g1);
        assert(open_depth(g2) == open_depth(start_events) + 2);
    }
    xml_characters(w, description)?;
    let ghost g3 = writer_events(*w);
    proof {
        assert(g3.drop_last() =~= g2);
        assert(open_depth(g3) == open_depth(start_events) + 2);
    }
    xml_end_element(w)?;
    proof {
        assert(writer_events(*w).drop_last() =~= g3);
        assert(open_depth(writer_events(*w)) == open_depth(start_events) + 1);
        assert(writer_events(*w) =~= start_events + wrapper_open_events(category@, description@));
        assert(entries_events(dv.take(0)) == Seq::<MarkupEvent>::empty());
        assert(start_events + wrapper_open_events(category@, description@) + entries_events(
            dv.take(0),
        ) =~= start_events + wrapper_open_events(category@, description@));
    }
    let mut i: usize = 0;
    while i < entries.len()
        invariant
            0 <= i <= entries.len(),
            dv == entries.deep_view(),
            dv.len() == entries.len(),
            open_depth(writer_events(*old(w))) >= 0,
            writer_events(*w) == start_events + wrapper_open_events(category@, description@)
                + entries_events(dv.take(i as int)),
            open_depth(writer_events(*w)) == open_depth(start_events) + 1,
            start_events == writer_events(*old(w)),
        decreases entries.len() - i,
    {
        entries[i].write_section_xml(w)?;
        proof {
            assert(entries@[i as int].deep_view() == dv[i as int]);
            lemma_entries_events_snoc(dv, i as int);
            assert(start_events + wrapper_open_events(category@, description@) + (entries_events(
                dv.take(i as int),
            ) + section_events(dv[i as int])) =~= start_events + wrapper_open_events(
                category@,
                description@,
            ) + entries_events(dv.take(i as int)) + section_events(dv[i as int]));
        }
        i = i + 1;
    }
    let ghost g4 = writer_events(*w);
    xml_end_element(w)?;
    proof {
        assert(writer_events(*w).drop_last() =~= g4);
        assert(dv.take(dv.len() as int) =~= dv);
        assert(writer_events(*w) =~= start_events + manual_events(dv, category@, description@));
    }
    Ok(())
}

} // verus!
