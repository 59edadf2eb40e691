//! What the library reads out of HTML pages, through the `select` crate.

use vstd::prelude::*;
use crate::web::text_of;
use select::predicate::Predicate;

verus! {

/// What `select` finds as the `value` attribute of the first element whose
/// `name` attribute is `name`.
pub uninterp spec fn input_value_of(page: Seq<char>, name: Seq<char>) -> Option<Seq<char>>;

/// What `select` finds as the text of the first element named `tag`.
pub uninterp spec fn element_text_of(page: Seq<char>, tag: Seq<char>) -> Option<Seq<char>>;

/// What `select` finds as the `href` of the first link inside the first
/// element of class `class`.
pub uninterp spec fn class_link_of(page: Seq<char>, class: Seq<char>) -> Option<Seq<char>>;

/// What `select` finds as the texts of the elements of class `class`, in
/// document order.
pub uninterp spec fn class_texts_of(page: Seq<char>, class: Seq<char>) -> Seq<Seq<char>>;

/// What `select` finds as the `href` and the text of each link inside an
/// element of class `class`, in document order.
pub uninterp spec fn class_links_of(page: Seq<char>, class: Seq<char>) -> Seq<(Option<Seq<char>>, Seq<char>)>;

/// Relies on `select`'s `Document::find` with `Attr("name", name)` and
/// `Node::attr("value")`.
#[verifier::external_body]
pub(crate) fn input_value(page: &str, name: &str) -> (r: Option<String>)
    ensures
        text_of(r) == input_value_of(page@, name@),
{
    let doc = select::document::Document::from(page);
    let found = doc.find(select::predicate::Attr("name", name)).next();
    found.and_then(|n| n.attr("value")).map(String::from)
}

/// Relies on `select`'s `Document::find` with `Name(tag)` and `Node::text`.
#[verifier::external_body]
pub(crate) fn element_text(page: &str, tag: &str) -> (r: Option<String>)
    ensures
        text_of(r) == element_text_of(page@, tag@),
{
    let doc = select::document::Document::from(page);
    let found = doc.find(select::predicate::Name(tag)).next();
    found.map(|n| n.text())
}

/// Relies on `select`'s `Document::find` with `Class(class)`, then
/// `Node::find` with `Name("a")` and `Node::attr("href")`.
#[verifier::external_body]
pub(crate) fn class_link(page: &str, class: &str) -> (r: Option<String>)
    ensures
        text_of(r) == class_link_of(page@, class@),
{
    let doc = select::document::Document::from(page);
    let found = doc.find(select::predicate::Class(class)).next();
    let link = found.and_then(|n| n.find(select::predicate::Name("a")).next());
    link.and_then(|a| a.attr("href")).map(String::from)
}

/// Relies on `select`'s `Document::find` with `Class(class)` and
/// `Node::text`.
#[verifier::external_body]
pub(crate) fn class_texts(page: &str, class: &str) -> (r: Vec<String>)
    ensures
        r@.map_values(|s: String| s@) == class_texts_of(page@, class@),
{
    let doc = select::document::Document::from(page);
    doc.find(select::predicate::Class(class)).map(|n| n.text()).collect()
}

/// Relies on `select`'s `Document::find` with
/// `Class(class).descendant(Name("a"))`, `Node::attr("href")` and
/// `Node::text`.
#[verifier::external_body]
pub(crate) fn class_links(page: &str, class: &str) -> (r: Vec<(Option<String>, String)>)
    ensures
        r@.map_values(|p: (Option<String>, String)| (text_of(p.0), p.1@)) == class_links_of(page@, class@),
{
    let doc = select::document::Document::from(page);
    let found = doc.find(select::predicate::Class(class).descendant(select::predicate::Name("a")));
    found.map(|n| (n.attr("href").map(String::from), n.text())).collect()
}

} // verus!
