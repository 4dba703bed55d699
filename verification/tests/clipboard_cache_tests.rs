use keyflow::error::ProviderError;
use keyflow::provider::cached::{find_entry, store, CacheEntry, CachedProvider};
use keyflow::provider::clipboard::{password_from_clipboard, password_from_clipboard_text, ClipboardFailure};
use keyflow::provider::PasswordProvider;
use std::sync::atomic::{AtomicUsize, Ordering};
use std::sync::Arc;
use std::time::Instant;

#[test]
fn clipboard_text_is_trimmed() {
    assert_eq!(password_from_clipboard_text("  pw \n").unwrap(), "pw");
    assert!(matches!(
        password_from_clipboard_text(" \t\n"),
        Err(ProviderError::ClipboardEmpty)
    ));
    assert!(matches!(password_from_clipboard_text(""), Err(ProviderError::ClipboardEmpty)));
}

fn entry(item: Option<&str>, password: &str) -> CacheEntry {
    CacheEntry {
        item: item.map(|s| s.to_string()),
        password: password.to_string(),
        fetched_at: Instant::now(),
    }
}

#[test]
fn store_replaces_the_entry_of_the_same_item() {
    let mut entries: Vec<CacheEntry> = Vec::new();
    store(&mut entries, entry(Some("a"), "1"));
    store(&mut entries, entry(None, "2"));
    store(&mut entries, entry(Some("b"), "3"));
    store(&mut entries, entry(Some("a"), "4"));
    assert_eq!(entries.len(), 3);
    let i = find_entry(&entries, Some("a")).unwrap();
    assert_eq!(entries[i].password, "4");
    let j = find_entry(&entries, None).unwrap();
    assert_eq!(entries[j].password, "2");
    assert_eq!(find_entry(&entries, Some("c")), None);
}

struct Counting {
    calls: Arc<AtomicUsize>,
}

impl PasswordProvider for Counting {
    fn get_password(&self) -> Result<String, ProviderError> {
        let n = self.calls.fetch_add(1, Ordering::SeqCst);
        Ok(format!("pw{n}"))
    }

    fn get_password_for(&self, item_id: &str) -> Result<String, ProviderError> {
        let n = self.calls.fetch_add(1, Ordering::SeqCst);
        Ok(format!("{item_id}-{n}"))
    }

    fn name(&self) -> &str {
        "counting"
    }
}

#[test]
fn cache_answers_from_memory_per_item() {
    let calls = Arc::new(AtomicUsize::new(0));
    let p = CachedProvider::new(Box::new(Counting { calls: calls.clone() }), 300);
    assert_eq!(p.name(), "counting");
    assert_eq!(p.get_password_for("a").unwrap(), "a-0");
    assert_eq!(p.get_password_for("b").unwrap(), "b-1");
    assert_eq!(p.get_password_for("a").unwrap(), "a-0");
    assert_eq!(p.get_password().unwrap(), "pw2");
    assert_eq!(p.get_password().unwrap(), "pw2");
    assert_eq!(p.get_password_for("b").unwrap(), "b-1");
    assert_eq!(calls.load(Ordering::SeqCst), 3);
}

#[test]
fn zero_lifetime_never_caches() {
    let calls = Arc::new(AtomicUsize::new(0));
    let p = CachedProvider::new(Box::new(Counting { calls: calls.clone() }), 0);
    assert_eq!(p.get_password_for("a").unwrap(), "a-0");
    assert_eq!(p.get_password_for("a").unwrap(), "a-1");
    assert_eq!(calls.load(Ordering::SeqCst), 2);
}

struct Failing;

impl PasswordProvider for Failing {
    fn get_password(&self) -> Result<String, ProviderError> {
        Err(ProviderError::ClipboardEmpty)
    }

    fn name(&self) -> &str {
        "failing"
    }
}

#[test]
fn errors_are_passed_on_and_not_cached() {
    let p = CachedProvider::new(Box::new(Failing), 300);
    assert!(matches!(p.get_password(), Err(ProviderError::ClipboardEmpty)));
    assert!(matches!(p.get_password_for("x"), Err(ProviderError::ClipboardEmpty)));
}

use keyflow::provider::cached::{answer_from, cache_decision, lookup, settle};

#[test]
fn cache_decisions() {
    assert!(cache_decision(Some(0), 300));
    assert!(cache_decision(Some(299), 300));
    assert!(!cache_decision(Some(300), 300));
    assert!(!cache_decision(None, 300));
    assert!(!cache_decision(Some(0), 0));
}

#[test]
fn answers_from_an_entry() {
    let e = entry(Some("a"), "pw");
    assert_eq!(answer_from(Some(&e), 3, 10), Some("pw".to_string()));
    assert_eq!(answer_from(Some(&e), 10, 10), None);
    assert_eq!(answer_from(None, 0, 10), None);
}

#[test]
fn lookup_finds_the_entry_of_its_item() {
    let entries = vec![entry(Some("a"), "pa"), entry(None, "own")];
    assert_eq!(lookup(&entries, Some("a"), 300), Some("pa".to_string()));
    assert_eq!(lookup(&entries, None, 300), Some("own".to_string()));
    assert_eq!(lookup(&entries, Some("b"), 300), None);
    assert_eq!(lookup(&entries, Some("a"), 0), None);
}

#[test]
fn settling_stores_passwords_and_keeps_errors_out() {
    let mut entries = vec![entry(Some("a"), "old")];
    let r = settle(&mut entries, Some("b".to_string()), Err(ProviderError::ClipboardEmpty), Instant::now());
    assert!(matches!(r, Err(ProviderError::ClipboardEmpty)));
    assert_eq!(entries.len(), 1);
    let r = settle(&mut entries, Some("a".to_string()), Ok("new".to_string()), Instant::now());
    assert_eq!(r.unwrap(), "new");
    assert_eq!(entries.len(), 1);
    assert_eq!(entries[0].password, "new");
    let r = settle(&mut entries, Some("b".to_string()), Ok("pb".to_string()), Instant::now());
    assert_eq!(r.unwrap(), "pb");
    assert_eq!(entries.len(), 2);
    assert_eq!(lookup(&entries, Some("b"), 300), Some("pb".to_string()));
}

#[test]
fn serve_asks_the_inner_provider_only_on_a_miss() {
    let calls = Arc::new(AtomicUsize::new(0));
    let p = CachedProvider::new(Counting { calls: calls.clone() }, 300);
    assert_eq!(p.serve(Some("x")).unwrap(), "x-0");
    assert_eq!(calls.load(Ordering::SeqCst), 1);
    assert_eq!(p.serve(Some("x")).unwrap(), "x-0");
    assert_eq!(calls.load(Ordering::SeqCst), 1);
    assert_eq!(p.serve(None).unwrap(), "pw1");
    assert_eq!(p.serve(Some("y")).unwrap(), "y-2");
    assert_eq!(p.serve(None).unwrap(), "pw1");
    assert_eq!(calls.load(Ordering::SeqCst), 3);
}

#[test]
fn a_boxed_provider_can_be_cached() {
    let calls = Arc::new(AtomicUsize::new(0));
    let inner: Box<dyn PasswordProvider> = Box::new(Counting { calls: calls.clone() });
    let p = CachedProvider::new(inner, 60);
    assert_eq!(p.name(), "counting");
    assert_eq!(p.get_password().unwrap(), "pw0");
    assert_eq!(p.get_password().unwrap(), "pw0");
    assert_eq!(calls.load(Ordering::SeqCst), 1);
}

#[test]
fn a_failed_fetch_leaves_the_cache_empty() {
    let p = CachedProvider::new(Failing, 300);
    assert!(matches!(p.serve(Some("x")), Err(ProviderError::ClipboardEmpty)));
    assert!(matches!(p.serve(None), Err(ProviderError::ClipboardEmpty)));
}

#[test]
fn clipboard_outcomes() {
    assert_eq!(password_from_clipboard(Ok(" secret\n".to_string())).unwrap(), "secret");
    assert!(matches!(
        password_from_clipboard(Ok("   ".to_string())),
        Err(ProviderError::ClipboardEmpty)
    ));
    match password_from_clipboard(Err(ClipboardFailure::Open("no display".to_string()))) {
        Err(ProviderError::ClipboardError(m)) => assert_eq!(m, "Failed to access clipboard: no display"),
        _ => panic!("expected a clipboard error"),
    }
    match password_from_clipboard(Err(ClipboardFailure::Read("not text".to_string()))) {
        Err(ProviderError::ClipboardError(m)) => assert_eq!(m, "Failed to read clipboard: not text"),
        _ => panic!("expected a clipboard error"),
    }
}
