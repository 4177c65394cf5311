//! Shop page extractors: which URLs belong to which shop, and where a
//! shop's pages hold their title and price.

use vstd::prelude::*;

use select::document::Document;
use select::predicate::{Class, Descendant, Name};

use crate::pricetracker::PageText;
use crate::text::{contains_text, price_text, price_text_of, str_contains};

verus! {

/// The text of the first element named `name` in the HTML document `html`
/// (in document order), or `None` where there is no such element.
pub uninterp spec fn first_element_text(html: Seq<char>, name: Seq<char>) -> Option<Seq<char>>;

/// The text of the first element whose class list holds `class`.
pub uninterp spec fn first_class_text(html: Seq<char>, class: Seq<char>) -> Option<Seq<char>>;

/// The text of the first element whose class list holds `inner` and that has
/// an ancestor whose class list holds `outer`.
pub uninterp spec fn first_nested_class_text(
    html: Seq<char>,
    outer: Seq<char>,
    inner: Seq<char>,
) -> Option<Seq<char>>;

/// The view of an optional string.
pub open spec fn opt_view(o: Option<String>) -> Option<Seq<char>> {
    match o {
        Some(s) => Some(s@),
        None => None,
    }
}

/// Trusted: parses `html` with `select::document::Document::from` and returns
/// the combined text (`Node::text`) of the first node of
/// `Document::find(Name(name))`. The contract only names that result: it is a
/// function of the two strings, which the HTML parser and the search fix.
#[verifier::external_body]
fn html_first_element_text(html: &str, name: &str) -> (r: Option<String>)
    ensures
        opt_view(r) == first_element_text(html@, name@),
{
    match Document::from(html).find(Name(name)).next() {
        Some(node) => Some(node.text()),
        None => None,
    }
}

/// Trusted: as `html_first_element_text`, with the predicate `Class(class)`.
#[verifier::external_body]
fn html_first_class_text(html: &str, class: &str) -> (r: Option<String>)
    ensures
        opt_view(r) == first_class_text(html@, class@),
{
    match Document::from(html).find(Class(class)).next() {
        Some(node) => Some(node.text()),
        None => None,
    }
}

/// Trusted: as `html_first_element_text`, with the predicate
/// `Descendant(Class(outer), Class(inner))`.
#[verifier::external_body]
fn html_first_nested_class_text(html: &str, outer: &str, inner: &str) -> (r: Option<String>)
    ensures
        opt_view(r) == first_nested_class_text(html@, outer@, inner@),
{
    match Document::from(html).find(Descendant(Class(outer), Class(inner))).next() {
        Some(node) => Some(node.text()),
        None => None,
    }
}

/// The fields of a page from its title text and its raw price text (such as
/// `"1 299,00 zł"`): the title as it is, the price reduced to its price text.
pub fn page_text_from(title: String, raw_price: &str) -> (p: PageText)
    ensures
        p.title@ == title@,
        p.price_text@ == price_text_of(raw_price@),
{
    PageText { title, price_text: price_text(raw_price) }
}

/// Both fields of a page, where both were found.
pub open spec fn both_fields(
    title: Option<Seq<char>>,
    price: Option<Seq<char>>,
) -> Option<(Seq<char>, Seq<char>)> {
    match (title, price) {
        (Some(t), Some(p)) => Some((t, p)),
        _ => None,
    }
}

/// What `extract_page_info` promises for the fields `fields` of a page.
pub open spec fn extracted_from(r: Option<PageText>, fields: Option<(Seq<char>, Seq<char>)>) -> bool {
    match fields {
        Some((t, p)) => r matches Some(pt) && pt.title@ == t && pt.price_text@ == price_text_of(p),
        None => r is None,
    }
}

/// A shop whose product pages can be read.
pub trait PageInfoExtractor {
    /// The text whose presence in a URL marks a page of this shop.
    spec fn url_marker(&self) -> Seq<char>;

    /// The title text and raw price text of an HTML page, as this shop's
    /// layout places them, or `None` where one of them is missing.
    spec fn page_fields(&self, html: Seq<char>) -> Option<(Seq<char>, Seq<char>)>;

    /// The shop's name.
    spec fn shop_name(&self) -> Seq<char>;

    /// Reads the title and the price text of a page of this shop, which must
    /// hold both the title and the price element.
    fn extract_page_info(&self, html: &str) -> (r: PageText)
        requires
            self.page_fields(html@) is Some,
        ensures
            extracted_from(Some(r), self.page_fields(html@)),
    ;

    /// Reads the title and the price text of a page of this shop; `None`
    /// where the page lacks the title or the price element.
    fn try_extract_page_info(&self, html: &str) -> (r: Option<PageText>)
        ensures
            extracted_from(r, self.page_fields(html@)),
    ;

    /// Whether `url` is a page of this shop.
    fn match_url(&self, url: &str) -> (m: bool)
        ensures
            m == contains_text(url@, self.url_marker()),
    ;

    /// The shop's name, for messages.
    fn label(&self) -> (s: String)
        ensures
            s@ == self.shop_name(),
    ;
}

/// The skalnik.pl shop: the price is the first `price` element inside a
/// `price-container` element.
#[derive(Debug, Clone, Copy)]
pub struct Skalnik {}

/// The 8a.pl shop: the price is the first `price` element.
#[derive(Debug, Clone, Copy)]
pub struct A8a {}

impl PageInfoExtractor for Skalnik {
    open spec fn url_marker(&self) -> Seq<char> {
        "skalnik.pl"@
    }

    open spec fn page_fields(&self, html: Seq<char>) -> Option<(Seq<char>, Seq<char>)> {
        both_fields(
            first_element_text(html, "title"@),
            first_nested_class_text(html, "price-container"@, "price"@),
        )
    }

    open spec fn shop_name(&self) -> Seq<char> {
        "Skalnik"@
    }

    fn extract_page_info(&self, html: &str) -> (r: PageText)
        ensures
            first_element_text(html@, "title"@) == Some(r.title@),
            exists|raw: Seq<char>|
                first_nested_class_text(html@, "price-container"@, "price"@) == Some(raw)
                    && r.price_text@ == price_text_of(raw),
    {
        let title = html_first_element_text(html, "title");
        let price = html_first_nested_class_text(html, "price-container", "price");
        let t = title.unwrap();
        let p = price.unwrap();
        page_text_from(t, p.as_str())
    }

    fn try_extract_page_info(&self, html: &str) -> (r: Option<PageText>)
        ensures
            r is Some <==> (first_element_text(html@, "title"@) is Some
                && first_nested_class_text(html@, "price-container"@, "price"@) is Some),
            r matches Some(pt) ==> first_element_text(html@, "title"@) == Some(pt.title@),
            r matches Some(pt) ==> exists|raw: Seq<char>|
                first_nested_class_text(html@, "price-container"@, "price"@) == Some(raw)
                    && pt.price_text@ == price_text_of(raw),
    {
        let has_title = html_first_element_text(html, "title").is_some();
        let has_price = html_first_nested_class_text(html, "price-container", "price").is_some();
        if has_title && has_price {
            Some(self.extract_page_info(html))
        } else {
            None
        }
    }

    fn match_url(&self, url: &str) -> (m: bool) {
        str_contains(url, "skalnik.pl")
    }

    fn label(&self) -> (s: String) {
        "Skalnik".to_owned()
    }
}

impl PageInfoExtractor for A8a {
    open spec fn url_marker(&self) -> Seq<char> {
        "8a.pl"@
    }

    open spec fn page_fields(&self, html: Seq<char>) -> Option<(Seq<char>, Seq<char>)> {
        both_fields(first_element_text(html, "title"@), first_class_text(html, "price"@))
    }

    open spec fn shop_name(&self) -> Seq<char> {
        "A8a"@
    }

    fn extract_page_info(&self, html: &str) -> (r: PageText)
        ensures
            first_element_text(html@, "title"@) == Some(r.title@),
            exists|raw: Seq<char>|
                first_class_text(html@, "price"@) == Some(raw) && r.price_text@ == price_text_of(raw),
    {
        let title = html_first_element_text(html, "title");
        let price = html_first_class_text(html, "price");
        let t = title.unwrap();
        let p = price.unwrap();
        page_text_from(t, p.as_str())
    }

    fn try_extract_page_info(&self, html: &str) -> (r: Option<PageText>)
        ensures
            r is Some <==> (first_element_text(html@, "title"@) is Some && first_class_text(
                html@,
                "price"@,
            ) is Some),
            r matches Some(pt) ==> first_element_text(html@, "title"@) == Some(pt.title@),
            r matches Some(pt) ==> exists|raw: Seq<char>|
                first_class_text(html@, "price"@) == Some(raw) && pt.price_text@ == price_text_of(
                    raw,
                ),
    {
        let has_title = html_first_element_text(html, "title").is_some();
        let has_price = html_first_class_text(html, "price").is_some();
        if has_title && has_price {
            Some(self.extract_page_info(html))
        } else {
            None
        }
    }

    fn match_url(&self, url: &str) -> (m: bool) {
        str_contains(url, "8a.pl")
    }

    fn label(&self) -> (s: String) {
        "A8a".to_owned()
    }
}


/// What a skalnik.pl page yields: its title is the text of the first `title`
/// element, and its raw price the text of the first element of class `price`
/// inside an element of class `price-container`; both must be there. Its URLs
/// are those that contain `skalnik.pl`.
pub proof fn lemma_skalnik_reads(html: Seq<char>)
    ensures
        (Skalnik {  }).url_marker() == "skalnik.pl"@,
        (Skalnik {  }).page_fields(html) is Some <==> (first_element_text(html, "title"@) is Some
            && first_nested_class_text(html, "price-container"@, "price"@) is Some),
        (Skalnik {  }).page_fields(html) matches Some((t, p)) ==> first_element_text(html, "title"@)
            == Some(t) && first_nested_class_text(html, "price-container"@, "price"@) == Some(p),
{
}

/// What an 8a.pl page yields: its title is the text of the first `title`
/// element, and its raw price the text of the first element of class `price`
/// anywhere in the page; both must be there. Its URLs are those that contain
/// `8a.pl`.
pub proof fn lemma_a8a_reads(html: Seq<char>)
    ensures
        (A8a {  }).url_marker() == "8a.pl"@,
        (A8a {  }).page_fields(html) is Some <==> (first_element_text(html, "title"@) is Some
            && first_class_text(html, "price"@) is Some),
        (A8a {  }).page_fields(html) matches Some((t, p)) ==> first_element_text(html, "title"@)
            == Some(t) && first_class_text(html, "price"@) == Some(p),
{
}

/// One of the known shops.
#[derive(Debug, Clone, Copy)]
pub enum Extractor {
    A8a(A8a),
    Skalnik(Skalnik),
}

impl PageInfoExtractor for Extractor {
    open spec fn url_marker(&self) -> Seq<char> {
        match self {
            Extractor::A8a(e) => e.url_marker(),
            Extractor::Skalnik(e) => e.url_marker(),
        }
    }

    open spec fn page_fields(&self, html: Seq<char>) -> Option<(Seq<char>, Seq<char>)> {
        match self {
            Extractor::A8a(e) => e.page_fields(html),
            Extractor::Skalnik(e) => e.page_fields(html),
        }
    }

    open spec fn shop_name(&self) -> Seq<char> {
        match self {
            Extractor::A8a(e) => e.shop_name(),
            Extractor::Skalnik(e) => e.shop_name(),
        }
    }

    fn extract_page_info(&self, html: &str) -> (r: PageText) {
        match self {
            Extractor::A8a(e) => e.extract_page_info(html),
            Extractor::Skalnik(e) => e.extract_page_info(html),
        }
    }

    fn try_extract_page_info(&self, html: &str) -> (r: Option<PageText>) {
        match self {
            Extractor::A8a(e) => e.try_extract_page_info(html),
            Extractor::Skalnik(e) => e.try_extract_page_info(html),
        }
    }

    fn match_url(&self, url: &str) -> (m: bool) {
        match self {
            Extractor::A8a(e) => e.match_url(url),
            Extractor::Skalnik(e) => e.match_url(url),
        }
    }

    fn label(&self) -> (s: String) {
        match self {
            Extractor::A8a(e) => e.label(),
            Extractor::Skalnik(e) => e.label(),
        }
    }
}

/// The known shops, in the order in which a URL is tried against them.
pub open spec fn known_extractors() -> Seq<Extractor> {
    seq![Extractor::A8a(A8a {  }), Extractor::Skalnik(Skalnik {  })]
}

/// The known shops, in the order in which a URL is tried against them.
pub fn extractors() -> (v: Vec<Extractor>)
    ensures
        v@ == known_extractors(),
{
    let mut v: Vec<Extractor> = Vec::new();
    v.push(Extractor::A8a(A8a {  }));
    v.push(Extractor::Skalnik(Skalnik {  }));
    assert(v@ =~= known_extractors());
    v
}

/// The first extractor of `list` whose shop `url` belongs to.
pub open spec fn first_matching(list: Seq<Extractor>, url: Seq<char>) -> Option<Extractor>
    decreases list.len(),
{
    if list.len() == 0 {
        None
    } else if contains_text(url, list[0].url_marker()) {
        Some(list[0])
    } else {
        first_matching(list.drop_first(), url)
    }
}

/// The extractor picked for a URL is one of the list whose shop the URL
/// belongs to, and none of the extractors before it matches; no extractor is
/// picked exactly when none of the list matches.
pub proof fn lemma_first_matching(list: Seq<Extractor>, url: Seq<char>)
    ensures
        first_matching(list, url) matches Some(e) ==> exists|i: int|
            0 <= i < list.len() && list[i] == e && contains_text(url, e.url_marker()) && forall|
                j: int,
            |
                0 <= j < i ==> !contains_text(url, #[trigger] list[j].url_marker()),
        first_matching(list, url) is None <==> forall|i: int|
            0 <= i < list.len() ==> !contains_text(url, #[trigger] list[i].url_marker()),
    decreases list.len(),
{
    if list.len() > 0 {
        let rest = list.drop_first();
        lemma_first_matching(rest, url);
        if !contains_text(url, list[0].url_marker()) {
            if let Some(e) = first_matching(rest, url) {
                let i = choose|i: int|
                    0 <= i < rest.len() && rest[i] == e && contains_text(url, e.url_marker())
                        && forall|j: int|
                        0 <= j < i ==> !contains_text(url, #[trigger] rest[j].url_marker());
                assert(list[i + 1] == e);
                assert forall|j: int| 0 <= j < i + 1 implies !contains_text(
                    url,
                    #[trigger] list[j].url_marker(),
                ) by {
                    if j > 0 {
                        assert(list[j] == rest[j - 1]);
                    }
                }
            } else {
                assert forall|i: int| 0 <= i < list.len() implies !contains_text(
                    url,
                    #[trigger] list[i].url_marker(),
                ) by {
                    if i > 0 {
                        assert(list[i] == rest[i - 1]);
                    }
                }
            }
        }
    }
}

/// The first extractor of `list` that matches `url`, or `None` where none does.
pub fn find_extractor(list: &Vec<Extractor>, url: &str) -> (r: Option<Extractor>)
    ensures
        r == first_matching(list@, url@),
{
    let mut i: usize = 0;
    assert(list@.skip(0) =~= list@);
    while i < list.len()
        invariant
            i <= list@.len(),
            first_matching(list@, url@) == first_matching(list@.skip(i as int), url@),
        decreases list@.len() - i,
    {
        let e = list[i];
        assert(list@.skip(i as int).drop_first() =~= list@.skip(i + 1));
        assert(list@.skip(i as int)[0] == e);
        if e.match_url(url) {
            return Some(e);
        }
        i += 1;
    }
    None
}

/// Among the known shops, a URL that contains `8a.pl` goes to 8a.pl; else one
/// that contains `skalnik.pl` goes to skalnik.pl; any other URL to no shop.
pub proof fn lemma_known_shop_for_url(url: Seq<char>)
    ensures
        first_matching(known_extractors(), url) == if contains_text(url, "8a.pl"@) {
            Some(Extractor::A8a(A8a {  }))
        } else if contains_text(url, "skalnik.pl"@) {
            Some(Extractor::Skalnik(Skalnik {  }))
        } else {
            None::<Extractor>
        },
{
    let list = known_extractors();
    assert(list.drop_first().drop_first().len() == 0);
    reveal_with_fuel(first_matching, 3);
}

/// The extractor for `url` among the known shops, as the tracker picks it.
pub fn extractor_for_url(url: &str) -> (r: Option<Extractor>)
    ensures
        r == first_matching(known_extractors(), url@),
{
    let list = extractors();
    find_extractor(&list, url)
}

} // verus!
