//! Reading the XML text into an element tree with quick-xml's event reader.
use vstd::prelude::*;
use quick_xml::events::attributes::Attributes;
use quick_xml::events::{BytesStart, Event};
use quick_xml::Reader;
use crate::decode::{comprobante_from_element, comprobante_spec, CfdiError, ErrorView};
use crate::element::{lemma_push_child, views, Element, ElementView, XmlAttr};
use crate::model::{Comprobante, ComprobanteView};

verus! {

#[verifier::external_type_specification]
#[verifier::external_body]
#[verifier::reject_recursive_types(R)]
pub struct ExReader<R>(Reader<R>);

#[verifier::external_type_specification]
#[verifier::external_body]
pub struct ExBytesStart<'a>(BytesStart<'a>);

#[verifier::external_type_specification]
#[verifier::external_body]
pub struct ExAttributes<'a>(Attributes<'a>);

#[verifier::external_type_specification]
#[verifier::external_body]
pub struct ExXmlAttribute<'a>(quick_xml::events::attributes::Attribute<'a>);

#[verifier::external_type_specification]
#[verifier::external_body]
pub struct ExAttrError(quick_xml::events::attributes::AttrError);

/// One item of a tag's attribute iterator: an attribute by its local name
/// and its normalized value, or an attribute that could not be read.
pub enum AttrItem {
    Pair(Seq<char>, Seq<char>),
    Error,
}

/// One event of the reader. A start tag or an empty-element tag carries
/// its local name and the items of its attribute iterator.
pub enum XmlEvent {
    Start(Seq<char>, Seq<AttrItem>),
    Empty(Seq<char>, Seq<AttrItem>),
    End,
    Other,
    Eof,
    Error,
}

/// The events that quick-xml's `Reader::read_event`, in its default
/// configuration, yields on `text`, up to and including the first `Eof` or
/// error.
pub uninterp spec fn xml_events(text: Seq<char>) -> Seq<XmlEvent>;

/// Event number `k` of `events`; past the end the reader stays at `Eof`.
pub open spec fn event_at(events: Seq<XmlEvent>, k: int) -> XmlEvent {
    if 0 <= k < events.len() {
        events[k]
    } else {
        XmlEvent::Eof
    }
}

pub open spec fn tag_name_of(ev: XmlEvent) -> Seq<char> {
    match ev {
        XmlEvent::Start(n, _) => n,
        XmlEvent::Empty(n, _) => n,
        _ => Seq::empty(),
    }
}

pub open spec fn tag_items_of(ev: XmlEvent) -> Seq<AttrItem> {
    match ev {
        XmlEvent::Start(_, a) => a,
        XmlEvent::Empty(_, a) => a,
        _ => Seq::empty(),
    }
}

/// The attributes of a tag, where every item of its iterator is readable.
pub open spec fn attrs_of(items: Seq<AttrItem>) -> Option<Seq<(Seq<char>, Seq<char>)>>
    decreases items.len(),
{
    if items.len() == 0 {
        Some(Seq::empty())
    } else {
        match (attrs_of(items.drop_last()), items.last()) {
            (Some(p), AttrItem::Pair(n, v)) => Some(p.push((n, v))),
            _ => None,
        }
    }
}

/// `el` placed as the last child of the innermost open element of `stack`.
pub open spec fn attach(stack: Seq<ElementView>, el: ElementView) -> Seq<ElementView> {
    let p = stack.last();
    stack.drop_last().push(
        ElementView { name: p.name, attributes: p.attributes, children: p.children.push(el) },
    )
}

/// The tree built from event `k` on, with `stack` the elements still open:
/// a start tag opens an element, an end tag closes the innermost one, and
/// an element closed with nothing open is the root. Other events are
/// skipped; the end of the events, an error, an unreadable attribute or an
/// end tag with nothing open fails.
pub open spec fn tree_from(events: Seq<XmlEvent>, k: int, stack: Seq<ElementView>) -> Result<
    ElementView,
    (),
>
    decreases events.len() - k,
{
    if k < 0 || k >= events.len() {
        Err(())
    } else {
        match events[k] {
            XmlEvent::Start(n, items) => match attrs_of(items) {
                Some(a) => tree_from(
                    events,
                    k + 1,
                    stack.push(ElementView { name: n, attributes: a, children: Seq::empty() }),
                ),
                None => Err(()),
            },
            XmlEvent::Empty(n, items) => match attrs_of(items) {
                Some(a) => {
                    let el = ElementView { name: n, attributes: a, children: Seq::empty() };
                    if stack.len() == 0 {
                        Ok(el)
                    } else {
                        tree_from(events, k + 1, attach(stack, el))
                    }
                },
                None => Err(()),
            },
            XmlEvent::End => if stack.len() == 0 {
                Err(())
            } else if stack.len() == 1 {
                Ok(stack.last())
            } else {
                tree_from(events, k + 1, attach(stack.drop_last(), stack.last()))
            },
            XmlEvent::Other => tree_from(events, k + 1, stack),
            _ => Err(()),
        }
    }
}

/// The root element that the events build.
pub open spec fn tree_of(events: Seq<XmlEvent>) -> Result<ElementView, ()> {
    tree_from(events, 0, Seq::empty())
}

/// quick-xml's reader over a text, with the text and the number of events
/// read so far.
pub struct EventReader<'a> {
    reader: Reader<&'a [u8]>,
    pub text: Ghost<Seq<char>>,
    pub count: Ghost<int>,
}

/// A start tag, with the event that it came from.
pub struct StartTag {
    raw: BytesStart<'static>,
    pub event: Ghost<XmlEvent>,
}

/// The attribute iterator of a tag, with its items and how many were read.
pub struct AttrCursor<'b> {
    it: Attributes<'b>,
    pub items: Ghost<Seq<AttrItem>>,
    pub index: Ghost<int>,
}

enum Token {
    Start(StartTag),
    Empty(StartTag),
    End,
    Eof,
    Other,
}

spec fn token_matches(r: Result<Token, String>, ev: XmlEvent) -> bool {
    match ev {
        XmlEvent::Start(..) => r matches Ok(Token::Start(t)) && t.event@ == ev,
        XmlEvent::Empty(..) => r matches Ok(Token::Empty(t)) && t.event@ == ev,
        XmlEvent::End => r matches Ok(Token::End),
        XmlEvent::Other => r matches Ok(Token::Other),
        XmlEvent::Eof => r matches Ok(Token::Eof),
        XmlEvent::Error => r is Err,
    }
}

/// Relies on quick_xml::Reader::from_str: a reader over the text, with the
/// default configuration (end tags are checked against their start tags).
#[verifier::external_body]
fn xml_reader<'a>(xml: &'a str) -> (r: EventReader<'a>)
    ensures
        r.text@ == xml@,
        r.count@ == 0,
{
    EventReader { reader: Reader::from_str(xml), text: Ghost(xml@), count: Ghost(0) }
}

/// Relies on quick_xml::Reader::read_event: the next event of the text, or
/// the reader's error message. It is not called again after an error.
#[verifier::external_body]
fn read_token<'a>(reader: &mut EventReader<'a>) -> (r: Result<Token, String>)
    requires
        forall|j: int|
            0 <= j < old(reader).count@ ==> !(event_at(xml_events(old(reader).text@), j) is Error),
    ensures
        final(reader).text == old(reader).text,
        final(reader).count@ == old(reader).count@ + 1,
        token_matches(r, event_at(xml_events(old(reader).text@), old(reader).count@)),
{
    let event = Ghost(event_at(xml_events(reader.text@), reader.count@));
    reader.count = Ghost(reader.count@ + 1);
    match reader.reader.read_event() {
        Ok(Event::Start(e)) => Ok(Token::Start(StartTag { raw: e.into_owned(), event })),
        Ok(Event::Empty(e)) => Ok(Token::Empty(StartTag { raw: e.into_owned(), event })),
        Ok(Event::End(_)) => Ok(Token::End),
        Ok(Event::Eof) => Ok(Token::Eof),
        Ok(_) => Ok(Token::Other),
        Err(err) => Err(err.to_string()),
    }
}

/// Relies on quick_xml::events::BytesStart::local_name: the tag's name with
/// any namespace prefix removed.
#[verifier::external_body]
fn tag_name(t: &StartTag) -> (r: String)
    ensures
        r@ == tag_name_of(t.event@),
{
    t.raw.local_name().as_ref().to_owned()
}

/// Relies on quick_xml::events::BytesStart::attributes: the tag's attribute
/// iterator, which rejects a repeated name.
#[verifier::external_body]
fn tag_attributes<'b>(t: &'b StartTag) -> (r: AttrCursor<'b>)
    ensures
        r.items@ == tag_items_of(t.event@),
        r.index@ == 0,
{
    AttrCursor { it: t.raw.attributes(), items: Ghost(tag_items_of(t.event@)), index: Ghost(0) }
}

/// Relies on quick_xml's `Attributes::next` and `Attribute::normalized_value`:
/// the next attribute by its local name and normalized value, an error
/// message where it cannot be read, and `None` after the last one.
#[verifier::external_body]
fn next_attribute<'b>(c: &mut AttrCursor<'b>) -> (r: Option<Result<XmlAttr, String>>)
    ensures
        final(c).items == old(c).items,
        final(c).index@ == old(c).index@ + 1,
        0 <= old(c).index@ < old(c).items@.len() ==> match old(c).items@[old(c).index@] {
            AttrItem::Pair(n, v) => r matches Some(Ok(a)) && a.name@ == n && a.value@ == v,
            AttrItem::Error => r matches Some(Err(_)),
        },
        old(c).index@ >= old(c).items@.len() ==> r is None,
{
    c.index = Ghost(c.index@ + 1);
    match c.it.next() {
        None => None,
        Some(Err(err)) => Some(Err(err.to_string())),
        Some(Ok(a)) => Some(match a.normalized_value(quick_xml::XmlVersion::Implicit1_0) {
            Ok(v) => Ok(XmlAttr { name: a.key.local_name().as_ref().to_owned(), value: v.into_owned() }),
            Err(err) => Err(err.to_string()),
        }),
    }
}

fn xml_error(message: String) -> (r: CfdiError)
    ensures
        r@ == (ErrorView::Xml { message: message@ }),
{
    CfdiError::Xml { message }
}

fn unexpected(message: &str) -> (r: CfdiError)
    ensures
        r@ is Xml,
{
    xml_error(message.to_owned())
}

proof fn lemma_attrs_error_stays(items: Seq<AttrItem>, k: int)
    requires
        0 <= k <= items.len(),
        attrs_of(items.take(k)) is None,
    ensures
        attrs_of(items) is None,
    decreases items.len(),
{
    if k == items.len() {
        assert(items.take(k) =~= items);
    } else {
        assert(items.drop_last().take(k) =~= items.take(k));
        lemma_attrs_error_stays(items.drop_last(), k);
    }
}

/// Builds the element, without children, that a start tag opens.
fn element_of(t: &StartTag) -> (r: Result<Element, CfdiError>)
    ensures
        match r {
            Ok(el) => attrs_of(tag_items_of(t.event@)) == Some(el@.attributes) && el@.name
                == tag_name_of(t.event@) && el.children@.len() == 0,
            Err(err) => attrs_of(tag_items_of(t.event@)) is None && err@ is Xml,
        },
{
    let name = tag_name(t);
    let mut c = tag_attributes(t);
    let ghost items = tag_items_of(t.event@);
    let mut attributes: Vec<XmlAttr> = Vec::new();
    assert(items.take(0) =~= Seq::<AttrItem>::empty());
    loop
        invariant
            items == tag_items_of(t.event@),
            name@ == tag_name_of(t.event@),
            c.items@ == items,
            0 <= c.index@ <= items.len(),
            attrs_of(items.take(c.index@)) == Some(
                attributes@.map_values(|a: XmlAttr| (a.name@, a.value@)),
            ),
        decreases items.len() - c.index@,
    {
        let ghost i = c.index@;
        let ghost before = attributes@;
        match next_attribute(&mut c) {
            None => {
                assert(items.take(i) =~= items);
                let el = Element { name, attributes, children: Vec::new() };
                assert(el@.attributes =~= attributes@.map_values(|a: XmlAttr| (a.name@, a.value@)));
                return Ok(el);
            },
            Some(Err(message)) => {
                proof {
                    assert(items.take(i + 1).drop_last() =~= items.take(i));
                    assert(items.take(i + 1).last() == items[i]);
                    lemma_attrs_error_stays(items, i + 1);
                }
                return Err(xml_error(message));
            },
            Some(Ok(a)) => {
                attributes.push(a);
                proof {
                    assert(items.take(i + 1).drop_last() =~= items.take(i));
                    assert(attributes@.map_values(|a: XmlAttr| (a.name@, a.value@))
                        =~= before.map_values(|a: XmlAttr| (a.name@, a.value@)).push(
                        (a.name@, a.value@),
                    ));
                }
            },
        }
    }
}

/// Places a complete element under the innermost open element.
fn attach_element(stack: &mut Vec<Element>, e: Element)
    requires
        old(stack)@.len() > 0,
    ensures
        views(final(stack)@) == attach(views(old(stack)@), e@),
{
    let ghost vs = views(stack@);
    let mut parent = stack.pop().unwrap();
    let ghost p0 = parent;
    parent.children.push(e);
    proof {
        lemma_push_child(p0, parent, e);
    }
    stack.push(parent);
    assert(views(stack@) =~= attach(vs, e@));
}

/// Reads the root element of the text, with all that it contains. Text,
/// comments and declarations are skipped; what follows the root is not read.
pub fn parse_element_tree(xml: &str) -> (r: Result<Element, CfdiError>)
    ensures
        match r {
            Ok(t) => tree_of(xml_events(xml@)) == Ok::<ElementView, ()>(t@),
            Err(err) => tree_of(xml_events(xml@)) is Err && err@ is Xml,
        },
{
    let mut reader = xml_reader(xml);
    let ghost events = xml_events(xml@);
    let mut stack: Vec<Element> = Vec::new();
    assert(views(stack@) =~= Seq::<ElementView>::empty());
    loop
        invariant
            reader.text@ == xml@,
            events == xml_events(xml@),
            0 <= reader.count@,
            forall|j: int| 0 <= j < reader.count@ ==> !(event_at(events, j) is Error),
            tree_from(events, reader.count@, views(stack@)) == tree_of(events),
        decreases events.len() - reader.count@,
    {
        let ghost k = reader.count@;
        let ghost st = views(stack@);
        let token = read_token(&mut reader);
        match token {
            Err(message) => {
                return Err(xml_error(message));
            },
            Ok(Token::Start(t)) => {
                let el = element_of(&t)?;
                stack.push(el);
                assert(views(stack@) =~= st.push(el@));
                assert(el@.children =~= Seq::<ElementView>::empty());
            },
            Ok(Token::Empty(t)) => {
                let el = element_of(&t)?;
                assert(el@.children =~= Seq::<ElementView>::empty());
                if stack.len() == 0 {
                    return Ok(el);
                }
                attach_element(&mut stack, el);
            },
            Ok(Token::End) => {
                if stack.len() == 0 {
                    return Err(unexpected("closing tag without an opening tag"));
                }
                let el = stack.pop().unwrap();
                assert(views(stack@) =~= st.drop_last());
                if stack.len() == 0 {
                    return Ok(el);
                }
                attach_element(&mut stack, el);
            },
            Ok(Token::Eof) => {
                return Err(unexpected("unexpected end of input"));
            },
            Ok(Token::Other) => {},
        }
    }
}

/// Reads an invoice from its XML text: the root element that quick-xml's
/// events build, read as `comprobante_from_element` reads it.
pub fn parse_cfdi(xml_content: &str) -> (r: Result<Comprobante, CfdiError>)
    ensures
        match tree_of(xml_events(xml_content@)) {
            Ok(t) => match r {
                Ok(v) => comprobante_spec(t) == Ok::<ComprobanteView, ErrorView>(v@),
                Err(err) => comprobante_spec(t) == Err::<ComprobanteView, ErrorView>(err@),
            },
            Err(_) => r is Err && r->Err_0@ is Xml,
        },
{
    let root = parse_element_tree(xml_content)?;
    comprobante_from_element(&root)
}

} // verus!
