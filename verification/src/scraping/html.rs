//! Trusted wrappers around the `scraper` crate's HTML parsing and CSS
//! selection primitives, together with a ghost model of what they find.
//!
//! Parsing and selection are deterministic functions of the page text, so
//! each primitive's outcome is given an uninterpreted name over that text:
//! a document is identified by its source, an element by an abstract index
//! in its document, and the wrappers' contracts state that what they hand
//! back is the named outcome. The adapters' page-level contracts are then
//! proved from these names; nothing is assumed about what the outcomes
//! are, only that they are functions of the page.
//!
//! The carrier types (`Sel`, `PageDoc`, `Elem`) pair each opaque value
//! with the ghost identity the model gives it. They are built only here:
//! a selector or document by the verified constructors below, which record
//! the very text they were made from, and an element only by the trusted
//! wrappers, so an element's ghost identity is always the one the named
//! outcome assigned to it.

use vstd::prelude::*;

verus! {

#[verifier::external_type_specification]
#[verifier::external_body]
pub struct ExHtml(scraper::Html);

#[verifier::external_type_specification]
#[verifier::external_body]
pub struct ExSelector(scraper::Selector);

#[verifier::external_type_specification]
#[verifier::external_body]
pub struct ExElementRef<'a>(scraper::ElementRef<'a>);

/// Whether a selector string compiles as a CSS selector group.
pub uninterp spec fn selector_ok(selector: Seq<char>) -> bool;

/// The elements of the document with the given source text that match the
/// given selector, in document order, as abstract element indices.
pub uninterp spec fn page_matches(source: Seq<char>, selector: Seq<char>) -> Seq<int>;

/// The descendants of the given element that match the given selector, in
/// document order, as abstract element indices.
pub uninterp spec fn matches_within(source: Seq<char>, element: int, selector: Seq<char>) -> Seq<
    int,
>;

/// The first text node of the given element, as bytes, if it has one.
pub uninterp spec fn text_of(source: Seq<char>, element: int) -> Option<Seq<u8>>;

/// The value of the named attribute of the given element, as bytes, if
/// the element has it.
pub uninterp spec fn attr_of(source: Seq<char>, element: int, name: Seq<char>) -> Option<Seq<u8>>;

/// The parent of the given element, when that parent is itself an element.
pub uninterp spec fn parent_of(source: Seq<char>, element: int) -> Option<int>;

/// A compiled selector together with the text it was compiled from.
pub(crate) struct Sel {
    pub(crate) inner: scraper::Selector,
    pub(crate) text: Ghost<Seq<char>>,
}

/// A parsed document together with the source text it was parsed from.
pub(crate) struct PageDoc {
    pub(crate) inner: scraper::Html,
    pub(crate) source: Ghost<Seq<char>>,
}

/// A matched element: its handle, the source of its document, and its
/// abstract index there.
pub(crate) struct Elem<'a> {
    pub(crate) inner: scraper::ElementRef<'a>,
    pub(crate) source: Ghost<Seq<char>>,
    pub(crate) id: Ghost<int>,
}

/// Relies on scraper::Selector::parse: compiles a CSS selector group;
/// `None` exactly when the selector text is invalid.
#[verifier::external_body]
fn selector_parse(s: &str) -> (r: Option<scraper::Selector>)
    ensures
        r is Some <==> selector_ok(s@),
{
    scraper::Selector::parse(s).ok()
}

impl Sel {
    /// Compile a selector, remembering its text.
    pub(crate) fn new(s: &str) -> (r: Option<Sel>)
        ensures
            r is Some <==> selector_ok(s@),
            r is Some ==> r->Some_0.text@ == s@,
    {
        match selector_parse(s) {
            Some(inner) => Some(Sel { inner, text: Ghost(s@) }),
            None => None,
        }
    }
}

/// Relies on scraper::Html::parse_document: parses an HTML document
/// (never fails; parse errors are collected internally).
#[verifier::external_body]
fn document_parse(text: &str) -> (r: scraper::Html) {
    scraper::Html::parse_document(text)
}

impl PageDoc {
    /// Parse a page, remembering its source text.
    pub(crate) fn new(body: &str) -> (r: PageDoc)
        ensures
            r.source@ == body@,
    {
        PageDoc { inner: document_parse(body), source: Ghost(body@) }
    }
}

/// Relies on scraper::Html::select: all elements of the document matching
/// the selector, in document order — the named `page_matches` outcome.
#[verifier::external_body]
pub(crate) fn select_all<'a>(doc: &'a PageDoc, sel: &Sel) -> (r: Vec<Elem<'a>>)
    ensures
        r@.len() == page_matches(doc.source@, sel.text@).len(),
        forall|i: int|
            0 <= i < r@.len() ==> (#[trigger] r@[i]).id@ == page_matches(doc.source@, sel.text@)[i]
                && r@[i].source@ == doc.source@,
{
    doc.inner.select(&sel.inner).map(
        |e| Elem { inner: e, source: Ghost(arbitrary()), id: Ghost(arbitrary()) },
    ).collect()
}

/// Relies on scraper::ElementRef::select: the first descendant of the
/// element matching the selector, if any — the head of the named
/// `matches_within` outcome.
#[verifier::external_body]
pub(crate) fn select_first_within<'a>(el: &Elem<'a>, sel: &Sel) -> (r: Option<Elem<'a>>)
    ensures
        match r {
            Some(e) => matches_within(el.source@, el.id@, sel.text@).len() > 0 && e.id@
                == matches_within(el.source@, el.id@, sel.text@)[0] && e.source@ == el.source@,
            None => matches_within(el.source@, el.id@, sel.text@).len() == 0,
        },
{
    el.inner.select(&sel.inner).next().map(
        |e| Elem { inner: e, source: Ghost(arbitrary()), id: Ghost(arbitrary()) },
    )
}

/// Relies on scraper::ElementRef::text: the element's first text node, as
/// bytes — the named `text_of` outcome.
#[verifier::external_body]
pub(crate) fn first_text(el: &Elem<'_>) -> (r: Option<Vec<u8>>)
    ensures
        match r {
            Some(t) => text_of(el.source@, el.id@) == Some(t@),
            None => text_of(el.source@, el.id@) is None,
        },
{
    el.inner.text().next().map(|t| t.as_bytes().to_vec())
}

/// Relies on scraper::ElementRef::attr: the value of the named attribute,
/// as bytes — the named `attr_of` outcome.
#[verifier::external_body]
pub(crate) fn attr_bytes(el: &Elem<'_>, name: &str) -> (r: Option<Vec<u8>>)
    ensures
        match r {
            Some(t) => attr_of(el.source@, el.id@, name@) == Some(t@),
            None => attr_of(el.source@, el.id@, name@) is None,
        },
{
    el.inner.attr(name).map(|a| a.as_bytes().to_vec())
}

/// Relies on ego_tree::NodeRef::parent and scraper::ElementRef::wrap: the
/// element's parent, when that parent is itself an element — the named
/// `parent_of` outcome.
#[verifier::external_body]
pub(crate) fn parent_element<'a>(el: &Elem<'a>) -> (r: Option<Elem<'a>>)
    ensures
        match r {
            Some(e) => parent_of(el.source@, el.id@) == Some(e.id@) && e.source@ == el.source@,
            None => parent_of(el.source@, el.id@) is None,
        },
{
    el.inner.parent().and_then(scraper::ElementRef::wrap).map(
        |e| Elem { inner: e, source: Ghost(arbitrary()), id: Ghost(arbitrary()) },
    )
}

} // verus!
