use bunner_cors_rs::constants::header;
use bunner_cors_rs::headers::HeaderCollection;

#[test]
fn should_start_with_empty_headers_when_new_called_then_initialize_collection() {
    let collection = HeaderCollection::new();

    assert!(collection.into_headers().is_empty());
}

#[test]
fn should_delegate_to_with_estimate_when_default_called_then_use_pool_allocation() {
    let collection = HeaderCollection::default();

    assert!(collection.into_headers().is_empty());
}

#[test]
fn should_store_header_once_when_header_regular_then_persist_value() {
    let mut collection = HeaderCollection::new();

    collection.push("Access-Control-Expose-Headers".into(), "X-Trace".into());

    let headers = collection.into_headers();
    assert_eq!(headers.get("Access-Control-Expose-Headers"), Some(&"X-Trace".to_string()));
}

#[test]
fn should_use_deduplicated_value_when_header_vary_then_preserve_first_entry() {
    let mut collection = HeaderCollection::new();

    collection.push(header::VARY.to_string(), "Origin".into());
    collection.push(header::VARY.to_string(), "origin".into());

    let headers = collection.into_headers();
    assert_eq!(headers.get(header::VARY), Some(&"Origin".to_string()));
}

#[test]
fn should_replace_existing_value_when_header_repeated_then_update_last_entry() {
    let mut collection = HeaderCollection::new();
    collection.push("Access-Control-Max-Age".into(), "600".into());

    collection.push("access-control-max-age".into(), "300".into());

    let headers = collection.into_headers();
    assert_eq!(headers.len(), 1);
    assert_eq!(headers.get("Access-Control-Max-Age"), Some(&"300".to_string()));
}

#[test]
fn should_store_unique_entries_when_values_have_mixed_case_then_deduplicate_case_insensitively() {
    let mut collection = HeaderCollection::new();

    collection.add_vary("Origin");
    collection.add_vary("Access-Control-Request-Headers");
    collection.add_vary("origin");

    let headers = collection.into_headers();
    assert_eq!(headers.get(header::VARY), Some(&"Origin, Access-Control-Request-Headers".to_string()));
}

#[test]
fn should_remove_vary_header_when_value_whitespace_then_skip_entry() {
    let mut collection = HeaderCollection::new();

    collection.add_vary("   ");

    let headers = collection.into_headers();
    assert!(!headers.contains_key(header::VARY));
}

#[test]
fn should_preserve_existing_entries_when_value_whitespace_then_ignore_addition() {
    let mut collection = HeaderCollection::new();
    collection.add_vary("Origin");

    collection.add_vary("   ");

    let headers = collection.into_headers();
    assert_eq!(headers.get(header::VARY), Some(&"Origin".to_string()));
}

#[test]
fn should_combine_and_deduplicate_when_extending_collections_then_merge_headers() {
    let mut base = HeaderCollection::new();
    base.push("Access-Control-Allow-Credentials".into(), "true".into());
    base.add_vary("Origin");
    let mut other = HeaderCollection::new();
    other.push(header::VARY.to_string(), "origin".into());
    other.push("Access-Control-Expose-Headers".into(), "X-Trace".into());

    base.extend(other);

    let headers = base.into_headers();
    assert_eq!(headers.get(header::VARY), Some(&"Origin".to_string()));
    assert_eq!(headers.get("Access-Control-Allow-Credentials"), Some(&"true".to_string()));
    assert_eq!(headers.get("Access-Control-Expose-Headers"), Some(&"X-Trace".to_string()));
}

#[test]
fn should_remove_vary_header_when_extending_with_whitespace_then_skip_entry() {
    let mut base = HeaderCollection::new();
    let mut other = HeaderCollection::new();
    other.push(header::VARY.to_string(), "   ".into());

    base.extend(other);

    let headers = base.into_headers();
    assert!(!headers.contains_key(header::VARY));
}

#[test]
fn should_preserve_vary_value_when_extending_with_whitespace_then_retain_existing_entry() {
    let mut base = HeaderCollection::new();
    base.add_vary("Origin");
    let mut other = HeaderCollection::new();
    other.push(header::VARY.to_string(), "   ".into());

    base.extend(other);

    let headers = base.into_headers();
    assert_eq!(headers.get(header::VARY), Some(&"Origin".to_string()));
}

#[test]
fn should_merge_vary_header_when_extending_with_other_collection_then_combine_entries() {
    let mut base = HeaderCollection::new();
    base.add_vary("Access-Control-Request-Method");
    let mut other = HeaderCollection::new();
    other.add_vary("Origin");

    base.extend(other);

    let headers = base.into_headers();
    assert_eq!(headers.get(header::VARY), Some(&"Access-Control-Request-Method, Origin".to_string()));
}

#[test]
fn should_handle_vary_entry_stored_in_headers_then_normalize_on_extend() {
    let mut base = HeaderCollection::new();
    let mut other = HeaderCollection::new();
    other.headers.push((header::VARY.to_string(), "Origin".into()));

    base.extend(other);

    let headers = base.into_headers();
    assert_eq!(headers.get(header::VARY), Some(&"Origin".to_string()));
}

#[test]
fn should_update_existing_value_when_extending_with_duplicate_header_then_replace_entry() {
    let mut base = HeaderCollection::new();
    base.push("Access-Control-Max-Age".into(), "600".into());
    let mut other = HeaderCollection::new();
    other.push("access-control-max-age".into(), "300".into());

    base.extend(other);

    let headers = base.into_headers();
    assert_eq!(headers.get("Access-Control-Max-Age"), Some(&"300".to_string()));
}

#[test]
fn should_consume_collection_and_return_map_when_into_headers_called_then_produce_map() {
    let mut collection = HeaderCollection::new();
    collection.push("Access-Control-Allow-Methods".into(), "GET".into());

    let headers = collection.into_headers();

    assert_eq!(headers.get("Access-Control-Allow-Methods"), Some(&"GET".to_string()));
}

#[test]
fn should_emit_vary_header_first_when_into_headers_called_then_preserve_ordering() {
    let mut collection = HeaderCollection::new();
    collection.add_vary("Origin");
    collection.push("Access-Control-Allow-Methods".into(), "GET".into());

    let headers = collection.into_headers();
    let mut keys = headers.keys();

    assert_eq!(keys.next(), Some(&header::VARY.to_string()));
    assert_eq!(keys.next(), Some(&"Access-Control-Allow-Methods".to_string()));
}

#[test]
fn should_expand_reserved_capacity_when_estimate_is_large() {
    let collection = HeaderCollection::with_estimate(32);

    assert!(collection.headers.capacity() >= 32);
    assert!(collection.headers.is_empty());
}

#[test]
fn add_vary_splits_merges_and_keeps_first_spelling() {
    let mut collection = HeaderCollection::new();
    collection.add_vary(" Origin ,, Accept ");
    collection.add_vary("ACCEPT");
    collection.add_vary("Accept-Encoding");

    assert_eq!(collection.vary.as_deref(), Some("Origin, Accept, Accept-Encoding"));
}

#[test]
fn push_keeps_first_spelling_of_a_repeated_name() {
    let mut collection = HeaderCollection::new();
    collection.push("X-Name".into(), "1".into());
    collection.push("x-name".into(), "2".into());

    assert_eq!(collection.headers, vec![("X-Name".to_string(), "2".to_string())]);
}

#[test]
fn adding_a_vary_entry_twice_changes_nothing() {
    let mut collection = HeaderCollection::new();
    collection.add_vary("Accept-Encoding");
    collection.add_vary("Origin");
    let once = collection.vary.clone();

    collection.add_vary("ORIGIN");

    assert_eq!(collection.vary, once);
    assert_eq!(collection.vary.as_deref(), Some("Accept-Encoding, Origin"));
}

#[test]
fn header_list_never_holds_vary_or_a_name_twice() {
    let mut collection = HeaderCollection::new();
    collection.push("X-One".into(), "1".into());
    collection.push("vary".into(), "Origin".into());
    collection.push("X-ONE".into(), "2".into());
    collection.push("X-Two".into(), "3".into());

    assert_eq!(
        collection.headers,
        vec![
            ("X-One".to_string(), "2".to_string()),
            ("X-Two".to_string(), "3".to_string()),
        ]
    );
    assert_eq!(collection.vary.as_deref(), Some("Origin"));
}
