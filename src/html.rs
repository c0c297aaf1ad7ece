//! Access to parsed HTML through `scraper`. Every element that the library reads is
//! reached from a document and an item selector by the item's position among the
//! selector's matches, so what the crate returns is named by those plain values.

use vstd::prelude::*;

verus! {

/// `scraper::Selector::parse` accepts `s` as a selector group.
pub uninterp spec fn selector_valid(s: Seq<char>) -> bool;

/// How many elements of the document parsed from `html` the selector `sel` matches
/// (`scraper::Html::select`).
pub uninterp spec fn match_count(html: Seq<char>, sel: Seq<char>) -> nat;

/// The `index`-th match of `item` in the document has a descendant that `field`
/// matches (`scraper::ElementRef::select`).
pub uninterp spec fn has_match_within(html: Seq<char>, item: Seq<char>, index: nat, field: Seq<char>) -> bool;

/// The text below an element (`scraper::ElementRef::text`, joined). The element is
/// the `index`-th match of `item`, or, where `field` is given, the first descendant
/// of that match that `field` matches.
pub uninterp spec fn element_text(html: Seq<char>, item: Seq<char>, index: nat, field: Option<Seq<char>>) -> Seq<char>;

/// The value of attribute `name` of an element, named as in `element_text`
/// (`scraper::ElementRef::attr`).
pub uninterp spec fn element_attr(
    html: Seq<char>,
    item: Seq<char>,
    index: nat,
    field: Option<Seq<char>>,
    name: Seq<char>,
) -> Option<Seq<char>>;

/// An element serialized as HTML, named as in `element_text` (`scraper::ElementRef::html`).
pub uninterp spec fn element_markup(html: Seq<char>, item: Seq<char>, index: nat, field: Option<Seq<char>>) -> Seq<char>;

/// The attributes, name and value in order, of an element named as in `element_text`
/// (`scraper::node::Element::attrs`).
pub uninterp spec fn element_attributes(
    html: Seq<char>,
    item: Seq<char>,
    index: nat,
    field: Option<Seq<char>>,
) -> Seq<(Seq<char>, Seq<char>)>;

/// `s` without leading and trailing white space (`str::trim`).
pub uninterp spec fn trimmed(s: Seq<char>) -> Seq<char>;

#[verifier::external_type_specification]
#[verifier::external_body]
pub struct ExHtml(scraper::Html);

#[verifier::external_type_specification]
#[verifier::external_body]
pub struct ExSelector(scraper::Selector);

#[verifier::external_type_specification]
#[verifier::external_body]
pub struct ExElementRef<'a>(scraper::ElementRef<'a>);

/// A parsed HTML document together with its source text.
pub struct Document {
    source: String,
    tree: scraper::Html,
}

impl Document {
    /// The source text the document was parsed from.
    pub closed spec fn src(&self) -> Seq<char> {
        self.source@
    }

    /// Relies on `scraper::Html::parse_document`, which accepts any text.
    #[verifier::external_body]
    pub(crate) fn parse(html: &str) -> (r: Document)
        ensures
            r.src() == html@,
    {
        Document { source: html.to_string(), tree: scraper::Html::parse_document(html) }
    }
}

/// A compiled CSS selector group together with its source text.
pub struct Css {
    source: String,
    compiled: scraper::Selector,
}

impl Css {
    /// The selector text.
    pub closed spec fn src(&self) -> Seq<char> {
        self.source@
    }

    /// Relies on `scraper::Selector::parse`: it accepts or rejects by the text alone.
    #[verifier::external_body]
    pub(crate) fn parse(s: &str) -> (r: Option<Css>)
        ensures
            r.is_some() == selector_valid(s@),
            r matches Some(c) ==> c.src() == s@,
    {
        match scraper::Selector::parse(s) {
            Ok(compiled) => Some(Css { source: s.to_string(), compiled }),
            Err(_) => None,
        }
    }
}

/// An element of a document: the `index`-th match, in document order, of an item
/// selector, or the first descendant of that match that a field selector matches.
pub struct Elem<'a> {
    doc: &'a Document,
    item: &'a Css,
    index: usize,
    field: Option<&'a Css>,
    node: scraper::ElementRef<'a>,
}

impl<'a> Elem<'a> {
    pub closed spec fn html(&self) -> Seq<char> {
        self.doc.src()
    }

    pub closed spec fn selector(&self) -> Seq<char> {
        self.item.src()
    }

    pub closed spec fn position(&self) -> nat {
        self.index as nat
    }

    pub closed spec fn field(&self) -> Option<Seq<char>> {
        match self.field {
            Some(f) => Some(f.src()),
            None => None,
        }
    }

    /// Relies on `scraper::ElementRef::text`: the text nodes below the element, joined.
    #[verifier::external_body]
    pub(crate) fn text(&self) -> (r: String)
        ensures
            r@ == element_text(self.html(), self.selector(), self.position(), self.field()),
    {
        self.node.text().collect::<String>()
    }

    /// Relies on `scraper::ElementRef::attr`: the value of attribute `name`, if present.
    #[verifier::external_body]
    pub(crate) fn attr(&self, name: &str) -> (r: Option<String>)
        ensures
            r.deep_view() == element_attr(self.html(), self.selector(), self.position(), self.field(), name@),
    {
        self.node.attr(name).map(|v| v.to_string())
    }

    /// Relies on `scraper::ElementRef::html`: the element serialized as HTML.
    #[verifier::external_body]
    pub(crate) fn markup(&self) -> (r: String)
        ensures
            r@ == element_markup(self.html(), self.selector(), self.position(), self.field()),
    {
        self.node.html()
    }

    /// Relies on `scraper::node::Element::attrs`: the element's attributes in order.
    #[verifier::external_body]
    pub(crate) fn attributes(&self) -> (r: Vec<(String, String)>)
        ensures
            r.deep_view() == element_attributes(self.html(), self.selector(), self.position(), self.field()),
    {
        self.node.value().attrs().map(|(k, v)| (k.to_string(), v.to_string())).collect()
    }
}

/// Relies on `scraper::Html::select`: the matches of `css` in document order.
#[verifier::external_body]
pub(crate) fn select_items<'a>(doc: &'a Document, css: &'a Css) -> (r: Vec<Elem<'a>>)
    ensures
        r@.len() == match_count(doc.src(), css.src()),
        forall|i: int|
            0 <= i < r@.len() ==> (#[trigger] r@[i]).html() == doc.src() && r@[i].selector() == css.src()
                && r@[i].position() == i && r@[i].field() is None,
{
    doc.tree.select(&css.compiled).enumerate().map(|(index, node)| Elem { doc, item: css, index, field: None, node }).collect()
}

/// Relies on `scraper::ElementRef::select`: the first descendant of the item that
/// `field` matches, if any.
#[verifier::external_body]
pub(crate) fn first_within<'a>(item: &Elem<'a>, field: &'a Css) -> (r: Option<Elem<'a>>)
    requires
        item.field() is None,
    ensures
        r.is_some() == has_match_within(item.html(), item.selector(), item.position(), field.src()),
        r matches Some(f) ==> f.html() == item.html() && f.selector() == item.selector()
            && f.position() == item.position() && f.field() == Some(field.src()),
{
    item.node.select(&field.compiled).next().map(|node| Elem { doc: item.doc, item: item.item, index: item.index, field: Some(field), node })
}

/// Relies on `str::trim`: `s` without leading and trailing white space.
#[verifier::external_body]
pub(crate) fn trim_text(s: &str) -> (r: String)
    ensures
        r@ == trimmed(s@),
{
    s.trim().to_string()
}

} // verus!
