//! The URL classifier: resolves a raw `href` against the base domain and
//! decides whether the result lies inside the crawled site.
//!
//! Classification is structural. Nothing is parsed or validated: an `href`
//! that begins with a scheme (a letter, then letters, digits, `+`, `-` or
//! `.`, then a colon) is taken as absolute, any other is appended to the base
//! domain, and a URL is inside the site exactly when it begins with the base
//! domain.

use vstd::prelude::*;
use vstd::string::*;
use crate::text::{has_prefix, join_text, starts_with};

verus! {

/// Where a URL lies relative to the crawled site.
#[derive(Clone, Copy, Debug, PartialEq, Eq, Structural)]
pub enum Membership {
    InSite,
    OutOfSite,
}

/// A resolved link together with its verdict.
pub struct ClassifiedLink {
    pub url: String,
    pub membership: Membership,
}

/// Whether `c` is an ASCII letter, with which a scheme begins.
pub open spec fn is_scheme_start(c: char) -> bool {
    ('a' <= c && c <= 'z') || ('A' <= c && c <= 'Z')
}

/// Whether `c` may stand inside a scheme: an ASCII letter, a digit, `+`, `-`
/// or `.`.
pub open spec fn is_scheme_char(c: char) -> bool {
    is_scheme_start(c) || ('0' <= c && c <= '9') || c == '+' || c == '-' || c == '.'
}

/// Whether the first `k` characters of `href` are a scheme and the next is
/// the colon that ends it.
pub open spec fn has_scheme_of_len(href: Seq<char>, k: int) -> bool {
    &&& 0 < k < href.len()
    &&& href[k] == ':'
    &&& is_scheme_start(href[0])
    &&& forall|j: int| 0 < j < k ==> is_scheme_char(#[trigger] href[j])
}

/// Whether `href` is already absolute: it begins with a scheme.
pub open spec fn is_absolute(href: Seq<char>) -> bool {
    exists|k: int| has_scheme_of_len(href, k)
}

/// The absolute URL that `href` stands for on a site rooted at `base`.
pub open spec fn resolved(href: Seq<char>, base: Seq<char>) -> Seq<char> {
    if is_absolute(href) {
        href
    } else {
        base + href
    }
}

/// Whether the absolute URL `url` belongs to the site rooted at `base`.
pub open spec fn in_site(url: Seq<char>, base: Seq<char>) -> bool {
    has_prefix(url, base)
}

/// The verdict on the absolute URL `url`.
pub open spec fn membership_of(url: Seq<char>, base: Seq<char>) -> Membership {
    if in_site(url, base) {
        Membership::InSite
    } else {
        Membership::OutOfSite
    }
}

impl Membership {
    /// The marker under which the verdict appears in the discovery report.
    pub open spec fn label_text(self) -> Seq<char> {
        match self {
            Membership::InSite => seq!['O', 'K'],
            Membership::OutOfSite => seq!['N', '_', 'O', 'K'],
        }
    }

    /// `OK` for a URL inside the site, `N_OK` for one outside.
    pub fn label(self) -> (text: &'static str)
        ensures
            text@ == self.label_text(),
    {
        proof {
            reveal_strlit("OK");
            reveal_strlit("N_OK");
        }
        let text = match self {
            Membership::InSite => "OK",
            Membership::OutOfSite => "N_OK",
        };
        assert(text@ =~= self.label_text());
        text
    }
}

/// Tests whether `c` is an ASCII letter.
fn scheme_start(c: char) -> (yes: bool)
    ensures
        yes == is_scheme_start(c),
{
    ('a' <= c && c <= 'z') || ('A' <= c && c <= 'Z')
}

/// Tests whether `c` may stand inside a scheme.
fn scheme_char(c: char) -> (yes: bool)
    ensures
        yes == is_scheme_char(c),
{
    scheme_start(c) || ('0' <= c && c <= '9') || c == '+' || c == '-' || c == '.'
}

/// Tests whether `href` begins with a scheme. The scan stops at the first
/// character that cannot stand inside one.
pub fn begins_with_scheme(href: &str) -> (yes: bool)
    ensures
        yes == is_absolute(href@),
{
    let n: usize = href.unicode_len();
    if n == 0 || !scheme_start(href.get_char(0)) {
        assert forall|k: int| !has_scheme_of_len(href@, k) by {}
        return false;
    }
    let mut i: usize = 1;
    while i < n
        invariant
            1 <= i <= n,
            n == href@.len(),
            is_scheme_start(href@[0]),
            forall|j: int| 0 < j < i ==> is_scheme_char(#[trigger] href@[j]),
        decreases n - i,
    {
        let c = href.get_char(i);
        if c == ':' {
            assert(has_scheme_of_len(href@, i as int));
            return true;
        }
        if !scheme_char(c) {
            assert forall|k: int| !has_scheme_of_len(href@, k) by {
                if has_scheme_of_len(href@, k) {
                    if k > i {
                        assert(is_scheme_char(href@[i as int]));
                    } else if k < i {
                        assert(is_scheme_char(href@[k]));
                    }
                }
            }
            return false;
        }
        i += 1;
    }
    assert forall|k: int| !has_scheme_of_len(href@, k) by {
        if has_scheme_of_len(href@, k) {
            assert(is_scheme_char(href@[k]));
        }
    }
    false
}

/// Resolves `href` to an absolute URL: an `href` that begins with a scheme is
/// kept, any other is appended to `base`.
pub fn resolve(href: &str, base: &str) -> (url: String)
    ensures
        url@ == resolved(href@, base@),
{
    if begins_with_scheme(href) {
        href.to_owned()
    } else {
        join_text(base, href)
    }
}

/// Tests whether an absolute URL belongs to the site.
pub fn is_in_site(url: &str, base: &str) -> (inside: bool)
    ensures
        inside == in_site(url@, base@),
{
    starts_with(url, base)
}

/// Resolves `href` and classifies the result. The outcome depends on the two
/// arguments alone.
pub fn classify(href: &str, base: &str) -> (link: ClassifiedLink)
    ensures
        link.url@ == resolved(href@, base@),
        link.membership == membership_of(resolved(href@, base@), base@),
{
    let url = resolve(href, base);
    let membership = if is_in_site(url.as_str(), base) {
        Membership::InSite
    } else {
        Membership::OutOfSite
    };
    ClassifiedLink { url, membership }
}

/// The base domain itself, given as an `href`, resolves to a URL inside the
/// site.
pub proof fn lemma_base_is_in_site(base: Seq<char>)
    ensures
        in_site(resolved(base, base), base),
{
    assert((base + base).subrange(0, base.len() as int) =~= base);
    assert(base.subrange(0, base.len() as int) =~= base);
}

/// A relative `href` always resolves into the site.
pub proof fn lemma_relative_is_in_site(href: Seq<char>, base: Seq<char>)
    requires
        !is_absolute(href),
    ensures
        in_site(resolved(href, base), base),
{
    assert((base + href).subrange(0, base.len() as int) =~= base);
}

} // verus!
