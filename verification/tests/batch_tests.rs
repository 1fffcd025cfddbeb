use pleme_providers::ProviderBatch;

#[test]
fn test_new_batch() {
    let batch = ProviderBatch::new(vec![1, 2, 3]);
    assert_eq!(batch.len(), 3);
    assert_eq!(batch.total_count, 3);
    assert!(!batch.has_next_page);
    assert!(batch.next_page_token.is_none());
}

#[test]
fn test_with_pagination() {
    let batch = ProviderBatch::with_pagination(
        vec![1, 2, 3],
        100,
        true,
        Some("cursor-123".to_string()),
    );

    assert_eq!(batch.len(), 3);
    assert_eq!(batch.total_count, 100);
    assert!(batch.has_next_page);
    assert!(!batch.is_last_page());
    assert_eq!(batch.next_page_token, Some("cursor-123".to_string()));
}

#[test]
fn test_empty_batch() {
    let batch: ProviderBatch<i32> = ProviderBatch::empty();
    assert!(batch.is_empty());
    assert_eq!(batch.len(), 0);
    assert_eq!(batch.total_count, 0);
    assert!(batch.is_last_page());
}

#[test]
fn test_map() {
    let batch = ProviderBatch::new(vec![1, 2, 3]);
    let mapped = batch.map(|x| x * 2);

    assert_eq!(mapped.items, vec![2, 4, 6]);
    assert_eq!(mapped.total_count, 3);
}

#[test]
fn test_filter() {
    let batch = ProviderBatch::new(vec![1, 2, 3, 4, 5]);
    let filtered = batch.filter(|x| x % 2 == 0);

    assert_eq!(filtered.items, vec![2, 4]);
    assert_eq!(filtered.total_count, 2);
}

#[test]
fn test_into_items() {
    let batch = ProviderBatch::new(vec![1, 2, 3]);
    let items = batch.into_items();

    assert_eq!(items, vec![1, 2, 3]);
}

#[test]
fn default_batch_is_empty_last_page() {
    let batch: ProviderBatch<u8> = ProviderBatch::default();
    assert!(batch.is_empty());
    assert_eq!(batch.total_count, 0);
    assert!(batch.is_last_page());
    assert!(batch.next_page_token.is_none());
}

#[test]
fn items_view_matches_items() {
    let batch = ProviderBatch::new(vec![7, 8]);
    assert_eq!(batch.items(), &[7, 8]);
}

#[test]
fn map_keeps_pagination_metadata() {
    let batch = ProviderBatch::with_pagination(vec![1, 2], 40, true, Some("next".to_string()));
    let mapped = batch.map(|x: i32| x.to_string());
    assert_eq!(mapped.items, vec!["1".to_string(), "2".to_string()]);
    assert_eq!(mapped.total_count, 40);
    assert!(mapped.has_next_page);
    assert_eq!(mapped.next_page_token, Some("next".to_string()));
}

#[test]
fn filter_recounts_and_keeps_cursor() {
    let batch = ProviderBatch::with_pagination(vec![5, 6, 7], 900, true, Some("c".to_string()));
    let filtered = batch.filter(|x| *x > 5);
    assert_eq!(filtered.items, vec![6, 7]);
    assert_eq!(filtered.total_count, 2);
    assert!(filtered.has_next_page);
    assert_eq!(filtered.next_page_token, Some("c".to_string()));
}

#[test]
fn filter_keeping_nothing_or_everything() {
    let none = ProviderBatch::new(vec![1, 3, 5]).filter(|x| x % 2 == 0);
    assert!(none.is_empty());
    assert_eq!(none.total_count, 0);
    let all = ProviderBatch::new(vec![2, 4]).filter(|x| x % 2 == 0);
    assert_eq!(all.items, vec![2, 4]);
    assert_eq!(all.total_count, 2);
}

#[test]
fn map_on_empty_batch() {
    let batch: ProviderBatch<i32> = ProviderBatch::with_pagination(Vec::new(), 12, false, None);
    let mapped = batch.map(|x| x + 1);
    assert!(mapped.is_empty());
    assert_eq!(mapped.total_count, 12);
}
