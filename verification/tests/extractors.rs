use pricetracker::extractors::{
    extractor_for_url, extractors, find_extractor, page_text_from, Extractor, PageInfoExtractor,
    A8a, Skalnik,
};
use pricetracker::text::{price_text, str_contains, str_eq};

const SKALNIK_PAGE: &str = r#"<html><head><title>Kurtka Puchowa | Skalnik</title></head>
<body>
  <span class="price">99,00 zł</span>
  <div class="product price-container">
    <span class="old">1 499,00 zł</span>
    <span class="price special">1 299,90 zł</span>
  </div>
</body></html>"#;

const A8A_PAGE: &str = r#"<html><head><title>Buty trekkingowe - 8a.pl</title></head>
<body>
  <div class="price-box"><span class="price">649,99 zł</span></div>
  <div class="price">1,00 zł</div>
</body></html>"#;

#[test]
fn skalnik_matches_its_urls_only() {
    let e = Skalnik {};
    assert!(e.match_url("https://www.skalnik.pl/kurtka-123"));
    assert!(!e.match_url("https://8a.pl/buty"));
    assert!(!e.match_url("https://skalnik.com/"));
    assert!(!e.match_url(""));
}

#[test]
fn a8a_matches_its_urls_only() {
    let e = A8a {};
    assert!(e.match_url("https://8a.pl/buty-trekkingowe"));
    assert!(!e.match_url("https://www.skalnik.pl/kurtka"));
    assert!(!e.match_url("https://8a.com/"));
}

#[test]
fn labels_name_the_shops() {
    assert_eq!(Skalnik {}.label(), "Skalnik");
    assert_eq!(A8a {}.label(), "A8a");
}

#[test]
fn url_picks_the_first_matching_shop() {
    assert!(matches!(extractor_for_url("https://8a.pl/buty"), Some(Extractor::A8a(_))));
    assert!(matches!(
        extractor_for_url("https://www.skalnik.pl/kurtka"),
        Some(Extractor::Skalnik(_))
    ));
    assert!(extractor_for_url("https://example.com/item1").is_none());
    // A URL that names both shops goes to the one listed first.
    assert!(matches!(
        extractor_for_url("https://skalnik.pl/?ref=8a.pl"),
        Some(Extractor::A8a(_))
    ));
}

#[test]
fn find_extractor_follows_the_given_order() {
    let list = vec![Extractor::Skalnik(Skalnik {}), Extractor::A8a(A8a {})];
    assert!(matches!(
        find_extractor(&list, "https://skalnik.pl/?ref=8a.pl"),
        Some(Extractor::Skalnik(_))
    ));
    assert!(find_extractor(&Vec::new(), "https://8a.pl/").is_none());
    assert_eq!(extractors().len(), 2);
}

#[test]
fn skalnik_reads_title_and_nested_price() {
    let page = Skalnik {}.extract_page_info(SKALNIK_PAGE);
    assert_eq!(page.title, "Kurtka Puchowa | Skalnik");
    assert_eq!(page.price_text, "1299.90");
}

#[test]
fn a8a_reads_title_and_first_price() {
    let page = A8a {}.extract_page_info(A8A_PAGE);
    assert_eq!(page.title, "Buty trekkingowe - 8a.pl");
    assert_eq!(page.price_text, "649.99");
}

#[test]
fn enum_extractor_delegates() {
    let page = Extractor::A8a(A8a {}).extract_page_info(A8A_PAGE);
    assert_eq!(page.price_text, "649.99");
    assert_eq!(Extractor::Skalnik(Skalnik {}).label(), "Skalnik");
}

#[test]
fn missing_fields_give_none() {
    let no_title = r#"<html><body><span class="price">10,00</span></body></html>"#;
    // html5ever adds an empty head, so there is no title element at all.
    assert!(A8a {}.try_extract_page_info(no_title).is_none());
    let no_price = "<html><head><title>x</title></head><body><p>nothing</p></body></html>";
    assert!(A8a {}.try_extract_page_info(no_price).is_none());
    // Skalnik needs the price inside a price container.
    assert!(Skalnik {}.try_extract_page_info(A8A_PAGE).is_none());
    assert!(Extractor::Skalnik(Skalnik {}).try_extract_page_info(A8A_PAGE).is_none());
}

#[test]
fn price_text_keeps_digits_and_comma() {
    assert_eq!(price_text("1 299,00 zł"), "1299.00");
    assert_eq!(price_text("Cena: 19,99 PLN"), "19.99");
    assert_eq!(price_text("abc"), "");
    assert_eq!(price_text(""), "");
    assert_eq!(price_text("1.234,5"), "1234.5");
    assert_eq!(price_text("٣,5"), ".5");
}

#[test]
fn try_extract_reads_complete_pages() {
    let page = Skalnik {}.try_extract_page_info(SKALNIK_PAGE).unwrap();
    assert_eq!(page.title, "Kurtka Puchowa | Skalnik");
    assert_eq!(page.price_text, "1299.90");
    let page = Extractor::A8a(A8a {}).try_extract_page_info(A8A_PAGE).unwrap();
    assert_eq!(page.price_text, "649.99");
}

#[test]
fn other_characters_do_not_change_price_text() {
    assert_eq!(price_text("12,50"), price_text("1x2 ,5zł0 PLN"));
    assert_eq!(price_text("Cena 99"), price_text("99"));
}

#[test]
fn page_text_from_parts() {
    let p = page_text_from("T".to_string(), "12,50 zł");
    assert_eq!(p.title, "T");
    assert_eq!(p.price_text, "12.50");
}

#[test]
fn string_helpers() {
    assert!(str_contains("abcabd", "abd"));
    assert!(str_contains("abc", ""));
    assert!(!str_contains("ab", "abc"));
    assert!(str_contains("żółw", "ół"));
    assert!(str_eq("żółw", "żółw"));
    assert!(!str_eq("a", "b"));
    assert!(!str_eq("a", "ab"));
}
