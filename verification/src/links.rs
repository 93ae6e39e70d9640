//! Link extraction: from the text of a page to the `href`s that count as
//! links.
//!
//! The HTML is parsed and queried by the `scraper` crate. What it finds is
//! taken on trust and given a name; which of the values found count as links
//! is decided, and proved, here.

use vstd::prelude::*;
use crate::seqs::views;

verus! {

/// What `scraper` finds in `document` for the CSS selector `selector`: `None`
/// when `selector` does not parse, else one entry for each matching element,
/// in the order in which the selection yields them, holding the element's
/// value for the attribute `attr` where it has one.
pub uninterp spec fn selected_attr_values(
    document: Seq<char>,
    selector: Seq<char>,
    attr: Seq<char>,
) -> Option<Seq<Option<Seq<char>>>>;

/// Parses `selector` with `scraper::Selector::parse` and `document` with
/// `scraper::Html::parse_document`, walks `Html::select` and reads each
/// element's attribute with `Element::attr`.
///
/// Trusted, not proved: what comes back depends on the three texts alone,
/// and is what `selected_attr_values` names.
#[verifier::external_body]
fn select_attr(document: &str, selector: &str, attr: &str) -> (found: Option<Vec<Option<String>>>)
    ensures
        found.deep_view() == selected_attr_values(document@, selector@, attr@),
{
    let selector = scraper::Selector::parse(selector).ok()?;
    let html = scraper::Html::parse_document(document);
    let values = html.select(&selector).map(
        |element| element.value().attr(attr).map(|value| value.to_string()),
    );
    Some(values.collect())
}

/// Whether an attribute value counts as a link: it is present and not empty.
pub open spec fn is_link_value(value: Option<Seq<char>>) -> bool {
    match value {
        Some(href) => href.len() > 0,
        None => false,
    }
}

/// The values that count as links, in order.
pub open spec fn links_among(values: Seq<Option<Seq<char>>>) -> Seq<Seq<char>> {
    values.filter(|value: Option<Seq<char>>| is_link_value(value)).map_values(
        |value: Option<Seq<char>>| value.unwrap(),
    )
}

/// The links in the outcome of a selection. A selection that failed holds
/// none.
pub open spec fn accepted_hrefs(found: Option<Seq<Option<Seq<char>>>>) -> Seq<Seq<char>> {
    match found {
        Some(values) => links_among(values),
        None => Seq::empty(),
    }
}

/// The `href`s of the anchors of a page that count as links.
pub open spec fn document_hrefs(body: Seq<char>) -> Seq<Seq<char>> {
    accepted_hrefs(selected_attr_values(body, "a"@, "href"@))
}

/// The members of `hrefs` that are not empty, in order.
pub open spec fn non_empty(hrefs: Seq<Seq<char>>) -> Seq<Seq<char>> {
    hrefs.filter(|href: Seq<char>| href.len() > 0)
}

proof fn lemma_links_among_push(values: Seq<Option<Seq<char>>>, value: Option<Seq<char>>)
    ensures
        links_among(values.push(value)) == if is_link_value(value) {
            links_among(values).push(value.unwrap())
        } else {
            links_among(values)
        },
{
    let keep = |value: Option<Seq<char>>| is_link_value(value);
    values.lemma_filter_push(value, keep);
    if is_link_value(value) {
        assert(links_among(values.push(value)) =~= links_among(values).push(value.unwrap()));
    }
}

/// No link among the values found is empty.
pub proof fn lemma_links_are_non_empty(values: Seq<Option<Seq<char>>>)
    ensures
        non_empty(links_among(values)) == links_among(values),
    decreases values.len(),
{
    reveal(Seq::filter);
    if values.len() == 0 {
        assert(links_among(values) =~= Seq::<Seq<char>>::empty());
    } else {
        let earlier = values.drop_last();
        let last = values.last();
        assert(earlier.push(last) =~= values);
        lemma_links_are_non_empty(earlier);
        lemma_links_among_push(earlier, last);
        if is_link_value(last) {
            links_among(earlier).lemma_filter_push(
                last.unwrap(),
                |href: Seq<char>| href.len() > 0,
            );
        }
    }
}

/// The links of a page are never empty.
pub proof fn lemma_document_hrefs_non_empty(body: Seq<char>)
    ensures
        non_empty(document_hrefs(body)) == document_hrefs(body),
{
    reveal(Seq::filter);
    match selected_attr_values(body, "a"@, "href"@) {
        Some(values) => {
            lemma_links_are_non_empty(values);
        },
        None => {
            assert(non_empty(Seq::<Seq<char>>::empty()) =~= Seq::<Seq<char>>::empty());
        },
    }
}

/// Drops the empty members of `hrefs`.
pub fn drop_empty(hrefs: &Vec<String>) -> (kept: Vec<String>)
    ensures
        views(kept@) == non_empty(views(hrefs@)),
{
    let ghost all = views(hrefs@);
    let mut kept: Vec<String> = Vec::new();
    let mut i: usize = 0;
    proof {
        reveal(Seq::filter);
        assert(non_empty(all.take(0)) =~= Seq::<Seq<char>>::empty());
        assert(views(kept@) =~= Seq::<Seq<char>>::empty());
    }
    while i < hrefs.len()
        invariant
            i <= hrefs.len(),
            all == views(hrefs@),
            views(kept@) == non_empty(all.take(i as int)),
        decreases hrefs.len() - i,
    {
        proof {
            assert(all.take(i + 1) =~= all.take(i as int).push(all[i as int]));
            all.take(i as int).lemma_filter_push(all[i as int], |href: Seq<char>| href.len() > 0);
        }
        if !hrefs[i].as_str().is_empty() {
            let ghost before = kept@;
            kept.push(hrefs[i].clone());
            assert(views(kept@) =~= views(before).push(all[i as int]));
        }
        i += 1;
    }
    assert(all.take(i as int) =~= all);
    kept
}

/// Keeps the values that count as links: an anchor without an `href`, or with
/// an empty one, is dropped.
pub fn accept_hrefs(found: &Option<Vec<Option<String>>>) -> (hrefs: Vec<String>)
    ensures
        views(hrefs@) == accepted_hrefs(found.deep_view()),
{
    let mut hrefs: Vec<String> = Vec::new();
    match found {
        None => {
            assert(views(hrefs@) =~= Seq::<Seq<char>>::empty());
        },
        Some(values) => {
            let ghost all = values.deep_view();
            proof {
                reveal(Seq::filter);
                assert(links_among(all.take(0)) =~= Seq::<Seq<char>>::empty());
                assert(views(hrefs@) =~= Seq::<Seq<char>>::empty());
            }
            let mut i: usize = 0;
            while i < values.len()
                invariant
                    i <= values.len(),
                    all == values.deep_view(),
                    views(hrefs@) == links_among(all.take(i as int)),
                decreases values.len() - i,
            {
                proof {
                    assert(all.take(i + 1) =~= all.take(i as int).push(all[i as int]));
                    lemma_links_among_push(all.take(i as int), all[i as int]);
                    assert(all[i as int] == values@[i as int].deep_view());
                }
                let ghost before = hrefs@;
                match &values[i] {
                    Some(href) => {
                        if !href.as_str().is_empty() {
                            hrefs.push(href.clone());
                            assert(views(hrefs@) =~= views(before).push(href@));
                        }
                    },
                    None => {},
                }
                i += 1;
            }
            assert(all.take(i as int) =~= all);
        },
    }
    hrefs
}

/// Extracts the links of a page: the non-empty `href`s of its anchors, in
/// the order in which the selection yields them. A body that is not
/// well-formed HTML is read as far as the parser recovers it, and may hold no
/// link at all.
pub fn extract_hrefs(body: &str) -> (hrefs: Vec<String>)
    ensures
        views(hrefs@) == document_hrefs(body@),
{
    let found = select_attr(body, "a", "href");
    accept_hrefs(&found)
}

} // verus!
