use worker_blog::cache::{CacheKey, CachedResponse, ResponseCache};
use worker_blog::path::Representation;
use worker_blog::router::Method;

fn page(body: &str) -> CachedResponse {
    CachedResponse { status: 200, representation: Representation::Html, body: body.to_string() }
}

#[test]
fn key_holds_the_canonical_path_and_its_representation() {
    let key = CacheKey::of(Method::Get, "/5/json/");
    assert_eq!(key.method, Method::Get);
    assert_eq!(key.path, "/5/json");
    assert_eq!(key.representation, Representation::Json);
    let key = CacheKey::of(Method::Get, "/");
    assert_eq!(key.path, "/");
    assert_eq!(key.representation, Representation::Html);
}

#[test]
fn keys_differ_by_method_path_and_representation() {
    assert_eq!(CacheKey::of(Method::Get, "/5"), CacheKey::of(Method::Get, "/5/"));
    assert_ne!(CacheKey::of(Method::Get, "/5"), CacheKey::of(Method::Post, "/5"));
    assert_ne!(CacheKey::of(Method::Get, "/5"), CacheKey::of(Method::Get, "/6"));
    assert_ne!(CacheKey::of(Method::Get, "/5"), CacheKey::of(Method::Get, "/5/json"));
    assert_eq!(CacheKey::of(Method::Get, "/5").clone(), CacheKey::of(Method::Get, "/5"));
    assert_eq!(CacheKey::of(Method::Get, ""), CacheKey::of(Method::Get, "/"));
    assert_eq!(CacheKey::of(Method::Get, "json/"), CacheKey::of(Method::Get, "/json"));
    assert_ne!(CacheKey::of(Method::Get, "/5//"), CacheKey::of(Method::Get, "/5/"));
}

#[test]
fn empty_cache_misses() {
    let cache = ResponseCache::new();
    assert_eq!(cache.get(&CacheKey::of(Method::Get, "/"), 0), None);
}

#[test]
fn get_returns_what_was_put() {
    let mut cache = ResponseCache::new();
    let key = CacheKey::of(Method::Get, "/");
    cache.put(key.clone(), page("front"), 86400, 1000);
    assert_eq!(cache.get(&key, 1000), Some(page("front")));
    assert_eq!(cache.get(&CacheKey::of(Method::Get, "/json"), 1000), None);
}

#[test]
fn put_replaces_the_entry() {
    let mut cache = ResponseCache::new();
    let key = CacheKey::of(Method::Get, "/");
    cache.put(key.clone(), page("old"), 10, 1000);
    cache.put(key.clone(), page("new"), 10, 1005);
    assert_eq!(cache.get(&key, 1012), Some(page("new")));
    cache.delete(&key);
    assert_eq!(cache.get(&key, 1012), None);
}

#[test]
fn entry_is_served_until_it_is_older_than_its_max_age() {
    let mut cache = ResponseCache::new();
    let key = CacheKey::of(Method::Get, "/3");
    cache.put(key.clone(), page("three"), 86400, 5000);
    assert_eq!(cache.get(&key, 5000 + 86399), Some(page("three")));
    assert_eq!(cache.get(&key, 5000 + 86400), Some(page("three")));
    assert_eq!(cache.get(&key, 5000 + 86401), None);
    assert_eq!(cache.get(&key, u64::MAX), None);
    assert_eq!(cache.get(&key, 4000), Some(page("three")));
}

#[test]
fn entry_with_no_max_age_is_served_only_at_once() {
    let mut cache = ResponseCache::new();
    let key = CacheKey::of(Method::Get, "/3");
    cache.put(key.clone(), page("three"), 0, 7);
    assert_eq!(cache.get(&key, 7), Some(page("three")));
    assert_eq!(cache.get(&key, 8), None);
}

#[test]
fn delete_removes_only_its_key() {
    let mut cache = ResponseCache::new();
    let html = CacheKey::of(Method::Get, "/");
    let json = CacheKey::of(Method::Get, "/json");
    cache.put(html.clone(), page("html"), 100, 0);
    cache.put(json.clone(), page("json"), 100, 0);
    cache.delete(&html);
    assert_eq!(cache.get(&html, 1), None);
    assert_eq!(cache.get(&json, 1), Some(page("json")));
}

#[test]
fn delete_of_an_absent_key_changes_nothing() {
    let mut cache = ResponseCache::new();
    let html = CacheKey::of(Method::Get, "/");
    let json = CacheKey::of(Method::Get, "/json");
    cache.delete(&html);
    cache.put(json.clone(), page("json"), 100, 0);
    cache.delete(&html);
    cache.delete(&html);
    assert_eq!(cache.get(&json, 1), Some(page("json")));
    cache.delete(&json);
    cache.delete(&json);
    assert_eq!(cache.get(&json, 1), None);
}
