//! The XML reader: the `libxml` crate, a binding of libxml2.
//!
//! A response body is read by `libxml`, not by code of this library. What
//! `libxml` finds in a body is not spelled out here: it has a name,
//! `xml_texts`, and the functions that read a body state their results over
//! that name. Documents and nodes never leave this file: a node is of use
//! only while its document lives, and here the document outlives every node.

use vstd::prelude::*;

verus! {

/// Whether `s` holds no NUL character, and so can be handed to libxml2 as a
/// C string.
pub open spec fn nul_free(s: Seq<char>) -> bool {
    forall|i: int| 0 <= i < s.len() ==> s[i] != '\0'
}

/// What `libxml` finds in `body` for the XPath expression `xpath`: the text
/// content of each node that the expression selects, evaluated at the root
/// element of the document that `body` is parsed into, in the order in which
/// `libxml` hands the nodes out. It is `None` where `body` gives no
/// document, where the document has no root element, or where the
/// expression cannot be evaluated.
pub uninterp spec fn xml_texts(body: Seq<char>, xpath: Seq<char>) -> Option<Seq<Seq<char>>>;

/// Parses `body` with `Parser::parse_string` of `libxml`, on the parser of
/// `Parser::default`; takes the root element with
/// `Document::get_root_readonly`; selects nodes with `RoNode::findnodes`;
/// and hands out the text of each node as `RoNode::get_content` gives it.
/// `libxml` turns `xpath` into a C string and panics on a NUL character in
/// it, so there must be none. The contract gives the result its name; it
/// claims that the result depends on the two strings alone, and nothing
/// about what it holds.
#[verifier::external_body]
pub(crate) fn element_texts(body: &str, xpath: &str) -> (texts: Option<Vec<String>>)
    requires
        nul_free(xpath@),
    ensures
        texts.deep_view() == xml_texts(body@, xpath@),
{
    let document = libxml::parser::Parser::default().parse_string(body).ok()?;
    let root = document.get_root_readonly()?;
    let nodes = root.findnodes(xpath, &document).ok()?;
    Some(nodes.into_iter().map(|node| node.get_content()).collect())
}

} // verus!
