//! The markup events of an XML document, read with `quick_xml`, as plain
//! values that the document parsers work on.

use quick_xml::events::Event::{Empty, End, Eof, Start, Text};
use quick_xml::Reader;
use crate::firmware::definition::copy_bytes;
use vstd::prelude::*;

verus! {

#[verifier::external_type_specification]
#[verifier::external_body]
#[verifier::reject_recursive_types(R)]
pub struct ExXmlReader<R>(Reader<R>);

/// One attribute of a tag: its name and its raw value, as written
/// (references not expanded).
#[derive(Debug)]
pub struct XmlAttr {
    pub key: Vec<u8>,
    pub value: String,
}

pub struct XmlAttrView {
    pub key: Seq<u8>,
    pub value: Seq<char>,
}

impl View for XmlAttr {
    type V = XmlAttrView;

    open spec fn view(&self) -> XmlAttrView {
        XmlAttrView { key: self.key@, value: self.value@ }
    }
}

/// One markup event of a document.
#[derive(Debug)]
pub enum XmlEvent {
    /// A start tag (`empty` false) or an empty-element tag (`empty` true),
    /// with the attributes before the first malformed one, and whether a
    /// malformed one is there.
    Open { name: Vec<u8>, attrs: Vec<XmlAttr>, bad_attr: bool, empty: bool },
    /// An end tag.
    Close { name: Vec<u8> },
    /// Character data, with line ends normalised.
    Text { text: String },
    /// The end of the document.
    Eof,
    /// A syntax error: the reader stops here.
    Malformed,
    /// Anything else (comments, declarations, references, ...).
    Other,
}

pub enum XmlEventView {
    Open { name: Seq<u8>, attrs: Seq<XmlAttrView>, bad_attr: bool, empty: bool },
    Close { name: Seq<u8> },
    Text { text: Seq<char> },
    Eof,
    Malformed,
    Other,
}

impl View for XmlEvent {
    type V = XmlEventView;

    open spec fn view(&self) -> XmlEventView {
        match self {
            XmlEvent::Open { name, attrs, bad_attr, empty } => XmlEventView::Open {
                name: name@,
                attrs: attrs@.map_values(|a: XmlAttr| a@),
                bad_attr: *bad_attr,
                empty: *empty,
            },
            XmlEvent::Close { name } => XmlEventView::Close { name: name@ },
            XmlEvent::Text { text } => XmlEventView::Text { text: text@ },
            XmlEvent::Eof => XmlEventView::Eof,
            XmlEvent::Malformed => XmlEventView::Malformed,
            XmlEvent::Other => XmlEventView::Other,
        }
    }
}

/// An event as the reader hands it out: each attribute of an opening tag
/// either read or malformed.
#[derive(Debug)]
pub enum RawEvent {
    Open { name: Vec<u8>, attrs: Vec<Option<XmlAttr>>, empty: bool },
    Close(Vec<u8>),
    Text(String),
    Eof,
    Malformed,
    Other,
}

pub enum RawEventView {
    Open { name: Seq<u8>, attrs: Seq<Option<XmlAttrView>>, empty: bool },
    Close { name: Seq<u8> },
    Text { text: Seq<char> },
    Eof,
    Malformed,
    Other,
}

/// The view of an attribute that may be malformed.
pub open spec fn opt_attr_view(a: Option<XmlAttr>) -> Option<XmlAttrView> {
    match a {
        Some(x) => Some(x@),
        None => None,
    }
}

impl View for RawEvent {
    type V = RawEventView;

    open spec fn view(&self) -> RawEventView {
        match self {
            RawEvent::Open { name, attrs, empty } => RawEventView::Open {
                name: name@,
                attrs: attrs@.map_values(|a: Option<XmlAttr>| opt_attr_view(a)),
                empty: *empty,
            },
            RawEvent::Close(name) => RawEventView::Close { name: name@ },
            RawEvent::Text(text) => RawEventView::Text { text: text@ },
            RawEvent::Eof => RawEventView::Eof,
            RawEvent::Malformed => RawEventView::Malformed,
            RawEvent::Other => RawEventView::Other,
        }
    }
}

/// The attributes before the first malformed one.
pub open spec fn good_prefix(attrs: Seq<Option<XmlAttrView>>) -> Seq<XmlAttrView>
    decreases attrs.len(),
{
    if attrs.len() == 0 {
        seq![]
    } else {
        match attrs[0] {
            Some(a) => seq![a] + good_prefix(attrs.drop_first()),
            None => seq![],
        }
    }
}

/// Some attribute is malformed.
pub open spec fn any_bad(attrs: Seq<Option<XmlAttrView>>) -> bool {
    exists|k: int| 0 <= k < attrs.len() && attrs[k] is None
}

/// The event the parsers see for a raw event.
pub open spec fn cook(r: RawEventView) -> XmlEventView {
    match r {
        RawEventView::Open { name, attrs, empty } => XmlEventView::Open {
            name,
            attrs: good_prefix(attrs),
            bad_attr: any_bad(attrs),
            empty,
        },
        RawEventView::Close { name } => XmlEventView::Close { name },
        RawEventView::Text { text } => XmlEventView::Text { text },
        RawEventView::Eof => XmlEventView::Eof,
        RawEventView::Malformed => XmlEventView::Malformed,
        RawEventView::Other => XmlEventView::Other,
    }
}

/// The events `quick_xml` reads from `xml` with text trimming on, in
/// document order.
pub uninterp spec fn xml_tokens(xml: Seq<char>) -> Seq<RawEventView>;

/// The events a reader has still to hand out.
pub uninterp spec fn pending_events(r: Reader<&[u8]>) -> Seq<RawEventView>;

/// The events the parsers see for the document `xml`, up to and including
/// its end or its first syntax error.
pub open spec fn document_events(xml: Seq<char>) -> Seq<XmlEventView> {
    events_until_end(cooked(xml_tokens(xml)))
}

fn copy_attr(a: &XmlAttr) -> (c: XmlAttr)
    ensures
        c@ == a@,
{
    XmlAttr { key: copy_bytes(a.key.as_slice()), value: a.value.clone() }
}

fn cook_exec(r: RawEvent) -> (e: XmlEvent)
    ensures
        e@ == cook(r@),
{
    match r {
        RawEvent::Open { name, attrs, empty } => {
            let ghost av = attrs@.map_values(|a: Option<XmlAttr>| opt_attr_view(a));
            let mut good: Vec<XmlAttr> = Vec::new();
            let mut bad = false;
            let mut k: usize = 0;
            assert(av.subrange(0, av.len() as int) =~= av);
            assert(attr_views(good@) + good_prefix(av) =~= good_prefix(av));
            while k < attrs.len() && !bad
                invariant
                    0 <= k <= attrs@.len(),
                    av == attrs@.map_values(|a: Option<XmlAttr>| opt_attr_view(a)),
                    !bad ==> good_prefix(av) == attr_views(good@) + good_prefix(av.subrange(k as int, av.len() as int)),
                    bad ==> k < av.len() && av[k as int] is None && good_prefix(av) == attr_views(good@),
                    forall|j: int| 0 <= j < k ==> #[trigger] av[j] is Some,
                decreases attrs@.len() - k + (if bad { 0int } else { 1int }),
            {
                let ghost tail = av.subrange(k as int, av.len() as int);
                assert(tail.drop_first() =~= av.subrange(k + 1, av.len() as int));
                match &attrs[k] {
                    Some(a) => {
                        let ghost before = attr_views(good@);
                        good.push(copy_attr(a));
                        assert(attr_views(good@) =~= before.push(a@));
                        assert(before + (seq![a@] + good_prefix(tail.drop_first())) =~= attr_views(good@) + good_prefix(tail.drop_first()));
                        k = k + 1;
                    },
                    None => {
                        assert(good_prefix(tail) =~= Seq::<XmlAttrView>::empty());
                        assert(attr_views(good@) + Seq::<XmlAttrView>::empty() =~= attr_views(good@));
                        bad = true;
                    },
                }
            }
            proof {
                if !bad {
                    assert(av.subrange(k as int, av.len() as int) =~= Seq::<Option<XmlAttrView>>::empty());
                    assert(attr_views(good@) + Seq::<XmlAttrView>::empty() =~= attr_views(good@));
                }
            }
            XmlEvent::Open { name, attrs: good, bad_attr: bad, empty }
        },
        RawEvent::Close(name) => XmlEvent::Close { name },
        RawEvent::Text(text) => XmlEvent::Text { text },
        RawEvent::Eof => XmlEvent::Eof,
        RawEvent::Malformed => XmlEvent::Malformed,
        RawEvent::Other => XmlEvent::Other,
    }
}

/// `Reader::from_str` with `trim_text(true)`: a reader whose pending events
/// are those of `xml`.
#[verifier::external_body]
fn xml_reader(xml: &str) -> (r: Reader<&[u8]>)
    ensures
        pending_events(r) == xml_tokens(xml@),
        has_last(pending_events(r)),
{
    let mut reader = Reader::from_str(xml);
    reader.config_mut().trim_text(true);
    reader
}

/// `Reader::read_event`: hands out the first pending event, converted to a
/// plain value (a text event through `html_content`).
#[verifier::external_body]
fn next_event(reader: &mut Reader<&[u8]>) -> (e: RawEvent)
    requires
        pending_events(*old(reader)).len() > 0,
    ensures
        e@ == pending_events(*old(reader))[0],
        pending_events(*final(reader)) == pending_events(*old(reader)).drop_first(),
{
    let (tag, empty) = match reader.read_event() {
        Ok(Start(t)) => (t, false),
        Ok(Empty(t)) => (t, true),
        Ok(End(t)) => return RawEvent::Close(t.name().0.into()),
        Ok(Text(t)) => return RawEvent::Text(t.html_content().into()),
        Ok(Eof) => return RawEvent::Eof,
        Err(_) => return RawEvent::Malformed,
        _ => return RawEvent::Other,
    };
    let attrs = tag.attributes().map(|a| a.ok().map(|a| XmlAttr { key: a.key.0.into(), value: a.value.into() })).collect();
    RawEvent::Open { name: tag.name().0.into(), attrs, empty }
}

/// The event ends the reading: end of document or a syntax error.
pub open spec fn is_last(e: XmlEventView) -> bool {
    e is Eof || e is Malformed
}

/// `ts` up to and including its first end of document or syntax error.
pub open spec fn events_until_end(ts: Seq<XmlEventView>) -> Seq<XmlEventView>
    decreases ts.len(),
{
    if ts.len() == 0 {
        ts
    } else if is_last(ts[0]) {
        seq![ts[0]]
    } else {
        seq![ts[0]] + events_until_end(ts.drop_first())
    }
}

/// The views of a list of events.
pub open spec fn views(evs: Seq<XmlEvent>) -> Seq<XmlEventView> {
    evs.map_values(|e: XmlEvent| e@)
}

/// The raw event ends the reading.
pub open spec fn is_last_raw(e: RawEventView) -> bool {
    e is Eof || e is Malformed
}

/// `ts` holds an end of document or a syntax error.
pub open spec fn has_last(ts: Seq<RawEventView>) -> bool {
    exists|i: int| 0 <= i < ts.len() && is_last_raw(#[trigger] ts[i])
}

/// The events the parsers see for raw events `ts`.
pub open spec fn cooked(ts: Seq<RawEventView>) -> Seq<XmlEventView> {
    ts.map_values(|r: RawEventView| cook(r))
}

/// Read the events of `xml`, up to and including the end of the document or
/// the first syntax error.
pub fn xml_events(xml: &str) -> (evs: Vec<XmlEvent>)
    ensures
        views(evs@) == document_events(xml@),
{
    let mut reader = xml_reader(xml);
    let ghost all = cooked(xml_tokens(xml@));
    let mut evs: Vec<XmlEvent> = Vec::new();
    assert(views(evs@) + events_until_end(cooked(pending_events(reader))) =~= events_until_end(all));
    loop
        invariant
            all == cooked(xml_tokens(xml@)),
            has_last(pending_events(reader)),
            views(evs@) + events_until_end(cooked(pending_events(reader))) == events_until_end(all),
        decreases pending_events(reader).len(),
    {
        let ghost before = pending_events(reader);
        let ghost old_evs = evs@;
        let raw = next_event(&mut reader);
        let ghost rv = raw@;
        let e = cook_exec(raw);
        let last = match e {
            XmlEvent::Eof => true,
            XmlEvent::Malformed => true,
            _ => false,
        };
        let ghost ev = e@;
        evs.push(e);
        assert(views(evs@) =~= views(old_evs).push(ev));
        assert(cooked(before)[0] == ev);
        assert(cooked(before).drop_first() =~= cooked(pending_events(reader)));
        if last {
            assert(events_until_end(cooked(before)) =~= seq![ev]);
            assert(views(evs@) =~= events_until_end(all));
            return evs;
        }
        assert(events_until_end(cooked(before)) =~= seq![ev] + events_until_end(cooked(before).drop_first()));
        assert(views(evs@) + events_until_end(cooked(pending_events(reader))) =~= events_until_end(all));
        assert(has_last(pending_events(reader))) by {
            let i = choose|i: int| 0 <= i < before.len() && is_last_raw(#[trigger] before[i]);
            assert(i > 0);
            assert(pending_events(reader)[i - 1] == before[i]);
        }
    }
}

/// Whether two byte strings are equal.
pub fn bytes_eq(a: &[u8], b: &[u8]) -> (r: bool)
    ensures
        r == (a@ == b@),
{
    if a.len() != b.len() {
        return false;
    }
    let mut i: usize = 0;
    while i < a.len()
        invariant
            a@.len() == b@.len(),
            0 <= i <= a@.len(),
            forall|k: int| 0 <= k < i ==> a@[k] == b@[k],
        decreases a@.len() - i,
    {
        if a[i] != b[i] {
            return false;
        }
        i = i + 1;
    }
    assert(a@ =~= b@);
    true
}

/// The value of the last attribute named `key`, if any.
pub open spec fn last_value(attrs: Seq<XmlAttrView>, key: Seq<u8>) -> Option<Seq<char>>
    decreases attrs.len(),
{
    if attrs.len() == 0 {
        None
    } else if attrs.last().key == key {
        Some(attrs.last().value)
    } else {
        last_value(attrs.drop_last(), key)
    }
}

/// The views of a list of attributes.
pub open spec fn attr_views(attrs: Seq<XmlAttr>) -> Seq<XmlAttrView> {
    attrs.map_values(|a: XmlAttr| a@)
}

/// The value of the last attribute named `key`, if any.
pub fn find_last<'a>(attrs: &'a [XmlAttr], key: &[u8]) -> (r: Option<&'a String>)
    ensures
        match last_value(attr_views(attrs@), key@) {
            Some(v) => r matches Some(s) && s@ == v,
            None => r is None,
        },
{
    let mut found: Option<&String> = None;
    let mut i: usize = 0;
    while i < attrs.len()
        invariant
            0 <= i <= attrs@.len(),
            match last_value(attr_views(attrs@.subrange(0, i as int)), key@) {
                Some(v) => found matches Some(s) && s@ == v,
                None => found is None,
            },
        decreases attrs@.len() - i,
    {
        assert(attr_views(attrs@.subrange(0, i + 1)).drop_last() =~= attr_views(attrs@.subrange(0, i as int)));
        if bytes_eq(attrs[i].key.as_slice(), key) {
            found = Some(&attrs[i].value);
        }
        i = i + 1;
    }
    assert(attrs@.subrange(0, attrs@.len() as int) =~= attrs@);
    found
}

} // verus!
