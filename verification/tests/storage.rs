use pricetracker::routes::{request_path, route, Route};
use pricetracker::storage::{group_entries, watch_item_id, WatchItem};

#[test]
fn first_row_id_is_item_id_one() {
    assert_eq!(watch_item_id(1), 1);
    assert_eq!(watch_item_id(-7), -7);
    // Row ids beyond 32 bits are narrowed as `as i32` narrows them.
    assert_eq!(watch_item_id((1i64 << 32) + 5), 5);
}

#[test]
fn one_entry_groups_under_its_url() {
    let rows = vec![("https://example.com/item1".to_string(), (10.99f32, 1621000000i64))];
    let groups = group_entries(rows);
    assert_eq!(groups.len(), 1);
    assert_eq!(groups[0].0, "https://example.com/item1");
    assert_eq!(groups[0].1.len(), 1);
    assert_eq!(groups[0].1[0].0, 10.99);
    assert_eq!(groups[0].1[0].1, 1621000000);
}

#[test]
fn entries_keep_query_order_per_url() {
    let rows = vec![
        ("a".to_string(), 1),
        ("b".to_string(), 2),
        ("a".to_string(), 3),
        ("c".to_string(), 4),
        ("b".to_string(), 5),
    ];
    let groups = group_entries(rows);
    assert_eq!(
        groups,
        vec![
            ("a".to_string(), vec![1, 3]),
            ("b".to_string(), vec![2, 5]),
            ("c".to_string(), vec![4]),
        ]
    );
    assert!(group_entries::<u8>(vec![]).is_empty());
}

#[test]
fn watch_item_fields() {
    let w = WatchItem { id: 2, url: "https://example.com/item2".to_string() };
    assert_eq!(w.id, 2);
    assert_eq!(w.url, "https://example.com/item2");
}

#[test]
fn routes_of_the_display_server() {
    assert_eq!(route("GET", "/api/v1/entries"), Route::Entries);
    assert_eq!(route("GET", "/api/v1/entries?pretty=1"), Route::Entries);
    assert_eq!(route("POST", "/api/v1/entries"), Route::NotFound);
    assert_eq!(route("GET", "/api/v1/entries/"), Route::NotFound);
    assert_eq!(route("GET", "/"), Route::NotFound);
    assert_eq!(route("get", "/api/v1/entries"), Route::NotFound);
    assert_eq!(request_path("/a?b?c"), vec!['/', 'a']);
}
