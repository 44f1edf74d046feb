//! The page URLs of a sitemap: the text of each `loc` element, trimmed,
//! with nested sitemap files (ending in `.xml`) left out.

use crate::config::{ends_with, has_suffix};
use crate::text::{trim_text, trimmed_of};
use vstd::prelude::*;

verus! {

/// What XML parsing makes of `s`: the local tag name and direct text of
/// each node in document order; nothing when `s` is not XML.
pub uninterp spec fn xml_nodes_of(s: Seq<char>) -> Option<Seq<(Seq<char>, Option<Seq<char>>)>>;

/// The text of a list of (tag, text) pairs.
pub open spec fn nodes_view(nodes: Seq<(String, Option<String>)>) -> Seq<(Seq<char>, Option<Seq<char>>)> {
    nodes.map_values(
        |n: (String, Option<String>)|
            (
                n.0@,
                match n.1 {
                    Some(t) => Some(t@),
                    None => None,
                },
            ),
    )
}

/// Relies on `roxmltree::Document::parse`, `Document::descendants`,
/// `Node::tag_name` with `ExpandedName::name`, and `Node::text`: the result
/// depends on `s` alone.
#[verifier::external_body]
fn xml_nodes(s: &str) -> (r: Option<Vec<(String, Option<String>)>>)
    ensures
        r is None <==> xml_nodes_of(s@) is None,
        r is Some ==> xml_nodes_of(s@) == Some(nodes_view(r->0@)),
{
    match roxmltree::Document::parse(s) {
        Ok(doc) => Some(
            doc.descendants().map(|n| (n.tag_name().name().to_string(), n.text().map(str::to_string))).collect(),
        ),
        Err(_) => None,
    }
}

/// The page URLs among `nodes`, in order.
pub open spec fn sitemap_urls_of(nodes: Seq<(Seq<char>, Option<Seq<char>>)>) -> Seq<Seq<char>>
    decreases nodes.len(),
{
    if nodes.len() == 0 {
        Seq::empty()
    } else {
        let rest = sitemap_urls_of(nodes.drop_last());
        let last = nodes.last();
        match last.1 {
            Some(t) => if last.0 == "loc"@ && !has_suffix(trimmed_of(t), ".xml"@) {
                rest.push(trimmed_of(t))
            } else {
                rest
            },
            None => rest,
        }
    }
}

/// The page URLs among parsed (tag, text) pairs.
pub fn urls_from_nodes(nodes: &Vec<(String, Option<String>)>) -> (r: Vec<String>)
    ensures
        r@.map_values(|u: String| u@) == sitemap_urls_of(nodes_view(nodes@)),
{
    let ghost view = nodes_view(nodes@);
    let mut urls: Vec<String> = Vec::new();
    let mut i: usize = 0;
    while i < nodes.len()
        invariant
            0 <= i <= nodes@.len(),
            view == nodes_view(nodes@),
            urls@.map_values(|u: String| u@) == sitemap_urls_of(view.subrange(0, i as int)),
        decreases nodes@.len() - i,
    {
        proof {
            reveal_strlit("loc");
            reveal_strlit(".xml");
            assert(view.subrange(0, i + 1).drop_last() =~= view.subrange(0, i as int));
        }
        let ghost before = urls@;
        let (tag, text) = &nodes[i];
        if let Some(t) = text {
            if tag.clone() == "loc".to_owned() {
                let url = trim_text(t.as_str());
                if !ends_with(url.as_str(), ".xml") {
                    urls.push(url);
                    proof {
                        assert(urls@.map_values(|u: String| u@) =~= before.map_values(|u: String| u@).push(
                            trimmed_of(t@),
                        ));
                    }
                }
            }
        }
        i += 1;
    }
    proof {
        assert(view.subrange(0, i as int) =~= view);
    }
    urls
}

/// The page URLs of the sitemap `xml`; `None` when it is not XML.
pub fn parse_sitemap(xml: &str) -> (r: Option<Vec<String>>)
    ensures
        r is None <==> xml_nodes_of(xml@) is None,
        r is Some ==> r->0@.map_values(|u: String| u@) == sitemap_urls_of(xml_nodes_of(xml@)->0),
{
    match xml_nodes(xml) {
        Some(nodes) => Some(urls_from_nodes(&nodes)),
        None => None,
    }
}

} // verus!
