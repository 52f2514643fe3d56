//! The feed document: its projection from the provider's answer, and its
//! serialization as XML.

use vstd::prelude::*;
use vstd::string::StringExecFns;
use vstd::utf8::{decode_utf8, valid_utf8};
use xml::writer::EventWriter;
use crate::decimal::{decimal, decimal_i64, decimal_u64, parse_u64, parsed_u64};
use crate::error::{Failure, Field};
use crate::search::{names_distinct, Category, List, Query};

verus! {

/// The validated feed document.
#[derive(Debug)]
pub struct Response {
    pub title: String,
    pub link: String,
    pub description: String,
    pub total_results: u64,
    pub start_index: u32,
    /// Start of the next page less start of this one: negative where the
    /// provider says so.
    pub items_per_page: i64,
    pub items: Vec<Item>,
}

#[derive(Debug)]
pub struct Item {
    pub title: String,
    pub link: String,
    pub description: String,
}

/// A feed item as plain text.
pub ghost struct ItemText {
    pub title: Seq<char>,
    pub link: Seq<char>,
    pub description: Seq<char>,
}

/// A feed document as plain values.
pub ghost struct Feed {
    pub title: Seq<char>,
    pub link: Seq<char>,
    pub description: Seq<char>,
    pub total_results: int,
    pub start_index: int,
    pub items_per_page: int,
    pub items: Seq<ItemText>,
}

impl View for Item {
    type V = ItemText;

    open spec fn view(&self) -> ItemText {
        ItemText { title: self.title@, link: self.link@, description: self.description@ }
    }
}

impl View for Response {
    type V = Feed;

    open spec fn view(&self) -> Feed {
        Feed {
            title: self.title@,
            link: self.link@,
            description: self.description@,
            total_results: self.total_results as int,
            start_index: self.start_index as int,
            items_per_page: self.items_per_page as int,
            items: Seq::new(self.items@.len(), |i: int| self.items@[i]@),
        }
    }
}

/// The first record of the first category called `name`.
pub open spec fn first_record(queries: Seq<Category>, name: Seq<char>) -> Option<Query>
    decreases queries.len(),
{
    if queries.len() == 0 {
        None
    } else if queries[0].name@ == name {
        if queries[0].records@.len() > 0 {
            Some(queries[0].records@[0])
        } else {
            None
        }
    } else {
        first_record(queries.drop_first(), name)
    }
}

/// Where the categories are a mapping, the record found under a name is the
/// first record of the one category that has the name, wherever it stands.
pub proof fn lemma_record_of_category(queries: Seq<Category>, i: int)
    requires
        names_distinct(queries),
        0 <= i < queries.len(),
    ensures
        first_record(queries, queries[i].name@) == if queries[i].records@.len() > 0 {
            Some(queries[i].records@[0])
        } else {
            None
        },
    decreases queries.len(),
{
    if i > 0 {
        assert(queries[0].name@ != queries[i].name@);
        let rest = queries.drop_first();
        assert(rest[i - 1] == queries[i]);
        assert forall|a: int, b: int| 0 <= a < b < rest.len() implies (#[trigger] rest[a]).name@ != (
        #[trigger] rest[b]).name@ by {
            assert(rest[a] == queries[a + 1]);
            assert(rest[b] == queries[b + 1]);
        }
        lemma_record_of_category(rest, i - 1);
    }
}

/// Finds the first record of the first category called `name`.
pub fn find_record<'a>(queries: &'a Vec<Category>, name: &String) -> (r: Option<&'a Query>)
    ensures
        first_record(queries@, name@) == match r {
            Some(q) => Some(*q),
            None => None,
        },
{
    let mut i: usize = 0;
    assert(queries@.subrange(0, queries@.len() as int) =~= queries@);
    while i < queries.len()
        invariant
            i <= queries@.len(),
            first_record(queries@, name@) == first_record(
                queries@.subrange(i as int, queries@.len() as int),
                name@,
            ),
        decreases queries@.len() - i,
    {
        let ghost rest = queries@.subrange(i as int, queries@.len() as int);
        assert(rest[0] == queries@[i as int]);
        assert(rest.drop_first() =~= queries@.subrange(i + 1, queries@.len() as int));
        if queries[i].name == *name {
            if queries[i].records.len() > 0 {
                return Some(&queries[i].records[0]);
            } else {
                return None;
            }
        }
        i += 1;
    }
    assert(queries@.subrange(i as int, queries@.len() as int).len() == 0);
    None
}

/// What the link of a document starts with; the search terms follow.
pub open spec fn link_prefix() -> Seq<char> {
    "https://www.googleapis.com/customsearch/v1?q="@
}

/// The first thing that keeps `list` from being a document, if anything does:
/// a missing part, by its name, before a total that is there and is no number.
pub open spec fn render_failure(list: List) -> Option<Failure> {
    match first_record(list.queries@, "request"@) {
        None => Some(Failure::MissingField(Field::Request)),
        Some(request) => match first_record(list.queries@, "nextPage"@) {
            None => Some(Failure::MissingField(Field::NextPage)),
            Some(next) => if request.title is None {
                Some(Failure::MissingField(Field::Title))
            } else if request.search_terms is None {
                Some(Failure::MissingField(Field::SearchTerms))
            } else if request.total_results is None {
                Some(Failure::MissingField(Field::TotalResults))
            } else if request.start_index is None {
                Some(Failure::MissingField(Field::StartIndex))
            } else if next.start_index is None {
                Some(Failure::MissingField(Field::NextStartIndex))
            } else if parsed_u64(request.total_results.unwrap()@) is None {
                Some(Failure::InvalidTotal)
            } else {
                None
            },
        },
    }
}

/// The feed item of one of the provider's items: its snippet is the description.
pub open spec fn item_of(raw: crate::search::Item) -> ItemText {
    ItemText { title: raw.title@, link: raw.link@, description: raw.snippet@ }
}

/// The document of an answer that lacks nothing: title and description are
/// the request's title, the link leads to its search terms, and the items
/// stand in the provider's order.
pub open spec fn document_of(list: List) -> Feed {
    let request = first_record(list.queries@, "request"@).unwrap();
    let next = first_record(list.queries@, "nextPage"@).unwrap();
    Feed {
        title: request.title.unwrap()@,
        link: link_prefix() + request.search_terms.unwrap()@,
        description: request.title.unwrap()@,
        total_results: parsed_u64(request.total_results.unwrap()@).unwrap() as int,
        start_index: request.start_index.unwrap() as int,
        items_per_page: next.start_index.unwrap() - request.start_index.unwrap(),
        items: Seq::new(list.items@.len(), |i: int| item_of(list.items@[i])),
    }
}

fn project_items(raw: &Vec<crate::search::Item>) -> (items: Vec<Item>)
    ensures
        items@.len() == raw@.len(),
        forall|i: int| 0 <= i < raw@.len() ==> (#[trigger] items@[i])@ == item_of(raw@[i]),
{
    let mut items: Vec<Item> = Vec::new();
    let mut i: usize = 0;
    while i < raw.len()
        invariant
            i <= raw@.len(),
            items@.len() == i,
            forall|j: int| 0 <= j < i ==> (#[trigger] items@[j])@ == item_of(raw@[j]),
        decreases raw@.len() - i,
    {
        items.push(
            Item {
                title: raw[i].title.clone(),
                link: raw[i].link.clone(),
                description: raw[i].snippet.clone(),
            },
        );
        i += 1;
    }
    items
}

impl Response {
    /// Projects the provider's answer to a document, all or nothing: with
    /// anything required missing there is the error that names it and no
    /// document.
    pub fn try_from(s: List) -> (r: Result<Response, Failure>)
        ensures
            match r {
                Ok(doc) => render_failure(s) is None && doc@ == document_of(s),
                Err(e) => render_failure(s) == Some(e),
            },
    {
        let request_name = String::from_str("request");
        let next_name = String::from_str("nextPage");
        let request = match find_record(&s.queries, &request_name) {
            Some(q) => q,
            None => return Err(Failure::MissingField(Field::Request)),
        };
        let next_page = match find_record(&s.queries, &next_name) {
            Some(q) => q,
            None => return Err(Failure::MissingField(Field::NextPage)),
        };
        let items = project_items(&s.items);
        let title = match &request.title {
            Some(t) => t.clone(),
            None => return Err(Failure::MissingField(Field::Title)),
        };
        let description = title.clone();
        let link = match &request.search_terms {
            Some(t) => String::from_str("https://www.googleapis.com/customsearch/v1?q=").concat(
                t.as_str(),
            ),
            None => return Err(Failure::MissingField(Field::SearchTerms)),
        };
        let total_text = match &request.total_results {
            Some(t) => t,
            None => return Err(Failure::MissingField(Field::TotalResults)),
        };
        let start_index = match request.start_index {
            Some(n) => n,
            None => return Err(Failure::MissingField(Field::StartIndex)),
        };
        let next_index = match next_page.start_index {
            Some(n) => n,
            None => return Err(Failure::MissingField(Field::NextStartIndex)),
        };
        let total_results = match parse_u64(total_text.as_str()) {
            Some(n) => n,
            None => return Err(Failure::InvalidTotal),
        };
        let items_per_page: i64 = next_index as i64 - start_index as i64;
        let doc = Response {
            title,
            link,
            description,
            total_results,
            start_index,
            items_per_page,
            items,
        };
        assert(doc@.items =~= document_of(s).items);
        Ok(doc)
    }
}

/// `xml::writer::EventWriter`, taken as it is: what a writer was told is
/// spoken of through `xml_log` only.
#[verifier::external_type_specification]
#[verifier::external_body]
#[verifier::reject_recursive_types(W)]
pub struct ExEventWriter<W>(EventWriter<W>);

/// `xml::writer::Error`: why a writer refused; nothing is read from it.
#[verifier::external_type_specification]
#[verifier::external_body]
pub struct ExEmitterError(xml::writer::Error);

/// An attribute of an element: an optional prefix, a name and a value.
pub struct Attr {
    pub prefix: Option<String>,
    pub name: String,
    pub value: String,
}

/// An attribute as plain text: prefix, name, value.
pub type AttrText = (Option<Seq<char>>, Seq<char>, Seq<char>);

/// One thing that a document writer was told to write.
pub ghost enum Markup {
    /// The declaration of an XML 1.0 document in UTF-8.
    Declaration,
    /// The start of an element.
    Open { prefix: Option<Seq<char>>, name: Seq<char>, attributes: Seq<AttrText> },
    /// Character data, which the writer escapes.
    Text(Seq<char>),
    /// The end of the innermost open element.
    Close,
}

/// What the writer has accepted so far, in order. This names the writer's
/// history, not a field of it: the events for which `write` returned `Ok`
/// since the writer was made, where each was of one of the four kinds of
/// `Markup`.
pub uninterp spec fn xml_log(w: EventWriter<Vec<u8>>) -> Seq<Markup>;

/// Whether the writer was made by `EmitterConfig::new()` over an empty byte
/// vector and has since been given, through `write` alone, only events of the
/// four kinds of `Markup`. This too names the writer's history: a writer with
/// other settings, over bytes that were already there, one that was given a
/// comment or a processing instruction, or one whose sink was written to
/// directly, is not one of these.
pub uninterp spec fn default_settings(w: EventWriter<Vec<u8>>) -> bool;

/// The number of elements that are open after `log`: each start opens one,
/// each end closes one where one is open.
pub open spec fn open_depth(log: Seq<Markup>) -> nat
    decreases log.len(),
{
    if log.len() == 0 {
        0
    } else {
        let before = open_depth(log.drop_last());
        match log.last() {
            Markup::Open { .. } => before + 1,
            Markup::Close => if before > 0 {
                (before - 1) as nat
            } else {
                0
            },
            _ => before,
        }
    }
}

/// The bytes that a writer with the default settings has put out once it has
/// accepted `log`.
pub uninterp spec fn xml_bytes(log: Seq<Markup>) -> Seq<u8>;

pub open spec fn attr_text(a: Attr) -> AttrText {
    (
        match a.prefix {
            Some(p) => Some(p@),
            None => None,
        },
        a.name@,
        a.value@,
    )
}

pub open spec fn attrs_text(attrs: Seq<Attr>) -> Seq<AttrText> {
    Seq::new(attrs.len(), |i: int| attr_text(attrs[i]))
}

pub open spec fn prefix_text(prefix: Option<&str>) -> Option<Seq<char>> {
    match prefix {
        Some(p) => Some(p@),
        None => None,
    }
}

/// `EmitterConfig::new().create_writer` over an empty byte vector: a writer
/// with the default settings that has accepted nothing.
#[verifier::external_body]
fn writer_new() -> (w: EventWriter<Vec<u8>>)
    ensures
        default_settings(w),
        xml_log(w) == Seq::<Markup>::empty(),
{
    xml::writer::EmitterConfig::new().create_writer(Vec::new())
}

/// `EventWriter::write` of `XmlEvent::StartDocument` for version 1.0 and
/// UTF-8: where the writer accepts it, the declaration joins the log. A writer
/// with the default settings accepts it exactly as its first event, since it
/// writes a declaration of its own before anything else; a writer that
/// refuses changes nothing.
#[verifier::external_body]
fn write_declaration(w: &mut EventWriter<Vec<u8>>) -> (r: Result<(), xml::writer::Error>)
    ensures
        default_settings(*final(w)) == default_settings(*old(w)),
        default_settings(*old(w)) ==> (r is Ok <==> xml_log(*old(w)).len() == 0),
        r is Err ==> xml_log(*final(w)) == xml_log(*old(w)),
        r is Ok ==> xml_log(*final(w)) == xml_log(*old(w)).push(Markup::Declaration),
{
    w.write(
        xml::writer::XmlEvent::StartDocument {
            version: xml::common::XmlVersion::Version10,
            encoding: Some("UTF-8"),
            standalone: None,
        },
    )
}

/// `EventWriter::write` of `XmlEvent::start_element` with the given name and
/// the attributes added by `attr` in order: where the writer accepts it, the
/// start of the element joins the log. A writer with the default settings
/// always accepts it: only its sink could fail, and a byte vector does not.
#[verifier::external_body]
fn write_open(w: &mut EventWriter<Vec<u8>>, prefix: Option<&str>, name: &str, attrs: &Vec<Attr>) -> (r:
    Result<(), xml::writer::Error>)
    ensures
        default_settings(*final(w)) == default_settings(*old(w)),
        default_settings(*old(w)) ==> r is Ok,
        r is Err ==> xml_log(*final(w)) == xml_log(*old(w)),
        r is Ok ==> xml_log(*final(w)) == xml_log(*old(w)).push(
            (Markup::Open {
                prefix: prefix_text(prefix),
                name: name@,
                attributes: attrs_text(attrs@),
            }),
        ),
{
    let mut start = xml::writer::XmlEvent::start_element(
        xml::name::Name { local_name: name, namespace: None, prefix },
    );
    for a in attrs.iter() {
        let n = xml::name::Name { local_name: &a.name, namespace: None, prefix: a.prefix.as_deref() };
        start = start.attr(n, &a.value);
    }
    w.write(start)
}

/// `EventWriter::write` of `XmlEvent::characters`: where the writer accepts
/// it, the text joins the log. A writer with the default settings always
/// accepts it: only its sink could fail, and a byte vector does not.
#[verifier::external_body]
fn write_text(w: &mut EventWriter<Vec<u8>>, text: &str) -> (r: Result<(), xml::writer::Error>)
    ensures
        default_settings(*final(w)) == default_settings(*old(w)),
        default_settings(*old(w)) ==> r is Ok,
        r is Err ==> xml_log(*final(w)) == xml_log(*old(w)),
        r is Ok ==> xml_log(*final(w)) == xml_log(*old(w)).push(Markup::Text(text@)),
{
    w.write(xml::writer::XmlEvent::characters(text))
}

/// `EventWriter::write` of `XmlEvent::end_element`: where the writer accepts
/// it, the end of the innermost open element joins the log. A writer with the
/// default settings keeps the names of the open elements, and accepts the end
/// exactly when one is open; a writer that refuses changes nothing.
#[verifier::external_body]
fn write_close(w: &mut EventWriter<Vec<u8>>) -> (r: Result<(), xml::writer::Error>)
    ensures
        default_settings(*final(w)) == default_settings(*old(w)),
        default_settings(*old(w)) ==> (r is Ok <==> open_depth(xml_log(*old(w))) > 0),
        r is Err ==> xml_log(*final(w)) == xml_log(*old(w)),
        r is Ok ==> xml_log(*final(w)) == xml_log(*old(w)).push(Markup::Close),
{
    w.write(xml::writer::XmlEvent::end_element())
}

/// `EventWriter::into_inner`: the bytes put out for what was accepted. This
/// holds of a writer with the default settings only, in the sense of
/// `default_settings`: its sink held nothing at first and got every byte from
/// the events of the log.
#[verifier::external_body]
fn writer_finish(w: EventWriter<Vec<u8>>) -> (bytes: Vec<u8>)
    requires
        default_settings(w),
    ensures
        bytes@ == xml_bytes(xml_log(w)),
{
    w.into_inner()
}

/// `String::from_utf8`, with the error dropped: the text that the bytes
/// encode, where they are UTF-8.
#[verifier::external_body]
fn utf8_text(bytes: Vec<u8>) -> (r: Option<String>)
    ensures
        r is Some == valid_utf8(bytes@),
        r matches Some(s) ==> s@ == decode_utf8(bytes@),
{
    String::from_utf8(bytes).ok()
}

/// An element without attributes that holds `text` and nothing else.
pub open spec fn element(prefix: Option<Seq<char>>, name: Seq<char>, text: Seq<char>) -> Seq<
    Markup,
> {
    seq![
        Markup::Open { prefix, name, attributes: Seq::empty() },
        Markup::Text(text),
        Markup::Close,
    ]
}

/// The start of an element without prefix or attributes.
pub open spec fn open_plain(name: Seq<char>) -> Markup {
    Markup::Open { prefix: None, name, attributes: Seq::empty() }
}

/// The root element's attributes: the feed version, and the declaration of the
/// prefix under which the search metadata stand.
pub open spec fn root_attributes() -> Seq<AttrText> {
    seq![
        (None, "version"@, "2.0"@),
        (Some("xmlns"@), "opensearch"@, "http://a9.com/-/spec/opensearch/1.1/"@),
    ]
}

/// What stands before the items: declaration, root, channel, and the six
/// channel values.
pub open spec fn head_markup(doc: Feed) -> Seq<Markup> {
    seq![
        Markup::Declaration,
        Markup::Open { prefix: None, name: "rss"@, attributes: root_attributes() },
        open_plain("channel"@),
    ] + element(None, "title"@, doc.title) + element(None, "link"@, doc.link) + element(
        None,
        "description"@,
        doc.description,
    ) + element(Some("opensearch"@), "totalResults"@, decimal(doc.total_results)) + element(
        Some("opensearch"@),
        "startIndex"@,
        decimal(doc.start_index),
    ) + element(Some("opensearch"@), "itemsPerPage"@, decimal(doc.items_per_page))
}

/// One item: an element that holds its title, link and description.
pub open spec fn item_markup(item: ItemText) -> Seq<Markup> {
    seq![open_plain("item"@)] + element(None, "title"@, item.title) + element(
        None,
        "link"@,
        item.link,
    ) + element(None, "description"@, item.description) + seq![Markup::Close]
}

/// The items one after the other, in their order.
pub open spec fn items_markup(items: Seq<ItemText>) -> Seq<Markup>
    decreases items.len(),
{
    if items.len() == 0 {
        Seq::empty()
    } else {
        items_markup(items.drop_last()) + item_markup(items.last())
    }
}

/// The whole document as the writer is told it.
pub open spec fn feed_markup(doc: Feed) -> Seq<Markup> {
    head_markup(doc) + items_markup(doc.items) + seq![Markup::Close, Markup::Close]
}

/// The text of the serialized document.
pub open spec fn document_text(doc: Feed) -> Seq<char> {
    decode_utf8(xml_bytes(feed_markup(doc)))
}

/// One more event changes the depth by what the event is.
pub proof fn lemma_depth_push(log: Seq<Markup>, m: Markup)
    ensures
        open_depth(log.push(m)) == match m {
            Markup::Open { .. } => open_depth(log) + 1,
            Markup::Close => if open_depth(log) > 0 {
                (open_depth(log) - 1) as nat
            } else {
                0
            },
            _ => open_depth(log),
        },
{
    assert(log.push(m).drop_last() =~= log);
}

/// An element with its text leaves the depth as it was.
pub proof fn lemma_depth_element(
    log: Seq<Markup>,
    prefix: Option<Seq<char>>,
    name: Seq<char>,
    text: Seq<char>,
)
    ensures
        open_depth(log + element(prefix, name, text)) == open_depth(log),
{
    let open = Markup::Open { prefix, name, attributes: Seq::empty() };
    lemma_depth_push(log, open);
    lemma_depth_push(log.push(open), Markup::Text(text));
    lemma_depth_push(log.push(open).push(Markup::Text(text)), Markup::Close);
    assert(log + element(prefix, name, text) =~= log.push(open).push(Markup::Text(text)).push(
        Markup::Close,
    ));
}

fn accepted(r: Result<(), xml::writer::Error>) -> (out: Result<(), Failure>)
    ensures
        out is Ok == r is Ok,
        out matches Err(e) ==> e == Failure::Writer,
{
    match r {
        Ok(()) => Ok(()),
        Err(_) => Err(Failure::Writer),
    }
}

/// Writes one element that holds `value` as its text. A writer with the
/// default settings accepts all three events, and the depth is as before.
pub fn write_value(w: &mut EventWriter<Vec<u8>>, prefix: Option<&str>, name: &str, value: &str) -> (r:
    Result<(), Failure>)
    ensures
        default_settings(*old(w)) ==> r is Ok,
        r is Ok ==> xml_log(*final(w)) == xml_log(*old(w)) + element(
            prefix_text(prefix),
            name@,
            value@,
        ),
        r is Ok ==> open_depth(xml_log(*final(w))) == open_depth(xml_log(*old(w))),
        r matches Err(e) ==> e == Failure::Writer,
        default_settings(*final(w)) == default_settings(*old(w)),
{
    let none: Vec<Attr> = Vec::new();
    assert(attrs_text(none@) =~= Seq::<AttrText>::empty());
    accepted(write_open(w, prefix, name, &none))?;
    accepted(write_text(w, value))?;
    proof {
        let open = Markup::Open {
            prefix: prefix_text(prefix),
            name: name@,
            attributes: Seq::empty(),
        };
        lemma_depth_push(xml_log(*old(w)), open);
        lemma_depth_push(xml_log(*old(w)).push(open), Markup::Text(value@));
    }
    accepted(write_close(w))?;
    proof {
        lemma_depth_element(xml_log(*old(w)), prefix_text(prefix), name@, value@);
    }
    assert(xml_log(*w) =~= xml_log(*old(w)) + element(prefix_text(prefix), name@, value@));
    Ok(())
}

fn root_attrs() -> (attrs: Vec<Attr>)
    ensures
        attrs_text(attrs@) == root_attributes(),
{
    let mut attrs: Vec<Attr> = Vec::new();
    attrs.push(
        Attr { prefix: None, name: String::from_str("version"), value: String::from_str("2.0") },
    );
    attrs.push(
        Attr {
            prefix: Some(String::from_str("xmlns")),
            name: String::from_str("opensearch"),
            value: String::from_str("http://a9.com/-/spec/opensearch/1.1/"),
        },
    );
    assert(attrs_text(attrs@) =~= root_attributes());
    attrs
}

/// The depth after the head of a document is two more than before it.
proof fn lemma_depth_head(log: Seq<Markup>, doc: Feed)
    ensures
        open_depth(log + head_markup(doc)) == open_depth(log) + 2,
{
    let a = log.push(Markup::Declaration);
    let b = a.push(Markup::Open { prefix: None, name: "rss"@, attributes: root_attributes() });
    let c = b.push(open_plain("channel"@));
    lemma_depth_push(log, Markup::Declaration);
    lemma_depth_push(a, Markup::Open { prefix: None, name: "rss"@, attributes: root_attributes() });
    lemma_depth_push(b, open_plain("channel"@));
    let d = c + element(None, "title"@, doc.title);
    lemma_depth_element(c, None, "title"@, doc.title);
    let e = d + element(None, "link"@, doc.link);
    lemma_depth_element(d, None, "link"@, doc.link);
    let f = e + element(None, "description"@, doc.description);
    lemma_depth_element(e, None, "description"@, doc.description);
    let g = f + element(Some("opensearch"@), "totalResults"@, decimal(doc.total_results));
    lemma_depth_element(f, Some("opensearch"@), "totalResults"@, decimal(doc.total_results));
    let h = g + element(Some("opensearch"@), "startIndex"@, decimal(doc.start_index));
    lemma_depth_element(g, Some("opensearch"@), "startIndex"@, decimal(doc.start_index));
    let i = h + element(Some("opensearch"@), "itemsPerPage"@, decimal(doc.items_per_page));
    lemma_depth_element(h, Some("opensearch"@), "itemsPerPage"@, decimal(doc.items_per_page));
    assert(i =~= log + head_markup(doc));
}

/// The depth after an item is as before it.
proof fn lemma_depth_item(log: Seq<Markup>, item: ItemText)
    ensures
        open_depth(log + item_markup(item)) == open_depth(log),
{
    let a = log.push(open_plain("item"@));
    lemma_depth_push(log, open_plain("item"@));
    let b = a + element(None, "title"@, item.title);
    lemma_depth_element(a, None, "title"@, item.title);
    let c = b + element(None, "link"@, item.link);
    lemma_depth_element(b, None, "link"@, item.link);
    let d = c + element(None, "description"@, item.description);
    lemma_depth_element(c, None, "description"@, item.description);
    lemma_depth_push(d, Markup::Close);
    assert(d.push(Markup::Close) =~= log + item_markup(item));
}

fn write_head(w: &mut EventWriter<Vec<u8>>, resp: &Response) -> (r: Result<(), Failure>)
    ensures
        default_settings(*old(w)) && xml_log(*old(w)).len() == 0 ==> r is Ok,
        r is Ok ==> xml_log(*final(w)) == xml_log(*old(w)) + head_markup(resp@),
        r matches Err(e) ==> e == Failure::Writer,
        default_settings(*final(w)) == default_settings(*old(w)),
{
    let none: Vec<Attr> = Vec::new();
    assert(attrs_text(none@) =~= Seq::<AttrText>::empty());
    let attrs = root_attrs();
    accepted(write_declaration(w))?;
    accepted(write_open(w, None, "rss", &attrs))?;
    accepted(write_open(w, None, "channel", &none))?;
    write_value(w, None, "title", resp.title.as_str())?;
    write_value(w, None, "link", resp.link.as_str())?;
    write_value(w, None, "description", resp.description.as_str())?;
    let total = decimal_u64(resp.total_results);
    write_value(w, Some("opensearch"), "totalResults", total.as_str())?;
    let start = decimal_u64(resp.start_index as u64);
    write_value(w, Some("opensearch"), "startIndex", start.as_str())?;
    let per_page = decimal_i64(resp.items_per_page);
    write_value(w, Some("opensearch"), "itemsPerPage", per_page.as_str())?;
    assert(xml_log(*w) =~= xml_log(*old(w)) + head_markup(resp@));
    Ok(())
}

fn write_item(w: &mut EventWriter<Vec<u8>>, item: &Item) -> (r: Result<(), Failure>)
    ensures
        default_settings(*old(w)) ==> r is Ok,
        r is Ok ==> xml_log(*final(w)) == xml_log(*old(w)) + item_markup(item@),
        r matches Err(e) ==> e == Failure::Writer,
        default_settings(*final(w)) == default_settings(*old(w)),
{
    let none: Vec<Attr> = Vec::new();
    assert(attrs_text(none@) =~= Seq::<AttrText>::empty());
    accepted(write_open(w, None, "item", &none))?;
    proof {
        lemma_depth_push(xml_log(*old(w)), open_plain("item"@));
    }
    write_value(w, None, "title", item.title.as_str())?;
    write_value(w, None, "link", item.link.as_str())?;
    write_value(w, None, "description", item.description.as_str())?;
    accepted(write_close(w))?;
    assert(xml_log(*w) =~= xml_log(*old(w)) + item_markup(item@));
    Ok(())
}

/// Writes the document: the declaration, the root with the channel in it, the
/// channel's values, one element for each item in order, and the two ends,
/// so that as many elements are open afterwards as before. A writer with the
/// default settings that has accepted nothing yet accepts all of it. Another
/// writer may refuse an event, and then nothing is said of what it holds.
pub fn write_rss(w: &mut EventWriter<Vec<u8>>, resp: Response) -> (r: Result<(), Failure>)
    ensures
        default_settings(*old(w)) && xml_log(*old(w)).len() == 0 ==> r is Ok,
        r is Ok ==> xml_log(*final(w)) == xml_log(*old(w)) + feed_markup(resp@),
        r is Ok ==> open_depth(xml_log(*final(w))) == open_depth(xml_log(*old(w))),
        r matches Err(e) ==> e == Failure::Writer,
        default_settings(*final(w)) == default_settings(*old(w)),
{
    write_head(w, &resp)?;
    proof {
        lemma_depth_head(xml_log(*old(w)), resp@);
    }
    let mut i: usize = 0;
    while i < resp.items.len()
        invariant
            i <= resp.items@.len(),
            default_settings(*w) == default_settings(*old(w)),
            xml_log(*w) == xml_log(*old(w)) + head_markup(resp@) + items_markup(
                resp@.items.take(i as int),
            ),
            open_depth(xml_log(*w)) == open_depth(xml_log(*old(w))) + 2,
        decreases resp.items@.len() - i,
    {
        let ghost before = xml_log(*w);
        write_item(w, &resp.items[i])?;
        proof {
            let next = resp@.items.take(i + 1);
            assert(next.drop_last() =~= resp@.items.take(i as int));
            assert(next.last() == resp.items@[i as int]@);
            assert(xml_log(*w) =~= xml_log(*old(w)) + head_markup(resp@) + items_markup(next));
            lemma_depth_item(before, resp.items@[i as int]@);
        }
        i += 1;
    }
    assert(resp@.items.take(i as int) =~= resp@.items);
    accepted(write_close(w))?;
    proof {
        lemma_depth_push(
            xml_log(*old(w)) + head_markup(resp@) + items_markup(resp@.items),
            Markup::Close,
        );
    }
    accepted(write_close(w))?;
    proof {
        lemma_depth_push(
            (xml_log(*old(w)) + head_markup(resp@) + items_markup(resp@.items)).push(Markup::Close),
            Markup::Close,
        );
    }
    assert(xml_log(*w) =~= xml_log(*old(w)) + feed_markup(resp@));
    Ok(())
}

/// Serializes the document with a writer of its own, which accepts all of
/// it. The result is the text that the writer's bytes encode; it fails, as an
/// encoding failure, exactly where those bytes are not UTF-8.
pub fn serialize(resp: Response) -> (r: Result<String, Failure>)
    ensures
        r is Ok == valid_utf8(xml_bytes(feed_markup(resp@))),
        r matches Ok(text) ==> text@ == document_text(resp@),
        r matches Err(e) ==> e == Failure::Encoding,
{
    let mut w = writer_new();
    match write_rss(&mut w, resp) {
        Ok(()) => {},
        Err(e) => return Err(e),
    }
    assert(xml_log(w) =~= feed_markup(resp@));
    match utf8_text(writer_finish(w)) {
        Some(text) => Ok(text),
        None => Err(Failure::Encoding),
    }
}

/// Whether an answer has a document and the document a text.
pub open spec fn renderable(answer: List) -> bool {
    &&& render_failure(answer) is None
    &&& valid_utf8(xml_bytes(feed_markup(document_of(answer))))
}

/// Renders the provider's answer: projects it to a document and serializes
/// that. It fails with what keeps the answer from being a document, or as an
/// encoding failure where the document's bytes are not UTF-8.
pub fn render(answer: List) -> (r: Result<String, Failure>)
    ensures
        r is Ok == renderable(answer),
        r matches Ok(text) ==> text@ == document_text(document_of(answer)),
        r matches Err(e) ==> e == match render_failure(answer) {
            Some(f) => f,
            None => Failure::Encoding,
        },
{
    match Response::try_from(answer) {
        Ok(doc) => serialize(doc),
        Err(e) => Err(e),
    }
}

} // verus!
