use tabnotes::routes::{
    create_reply, delete_reply, entries_url, error_status, get_entry_reply, index_reply,
    new_entry_reply, update_reply, Reply,
};
use tabnotes::store::EntryTable;
use tabnotes::types::{DbError, Entry};

fn entry(url: &str, title: &str, notes: &str) -> Entry {
    Entry { url: url.to_string(), title: title.to_string(), notes: notes.to_string() }
}

fn failure_status(reply: &Reply) -> u16 {
    match reply {
        Reply::Failure { status, .. } => *status,
        _ => panic!("expected a failure reply"),
    }
}

#[test]
fn entries_url_writes_decimal_ids() {
    assert_eq!(entries_url(1), "/entries/1");
    assert_eq!(entries_url(0), "/entries/0");
    assert_eq!(entries_url(42), "/entries/42");
    assert_eq!(entries_url(1000), "/entries/1000");
    assert_eq!(entries_url(u32::MAX), "/entries/4294967295");
}

#[test]
fn error_kinds_map_to_documented_statuses() {
    assert_eq!(error_status(&DbError::Connectivity), 500);
    assert_eq!(error_status(&DbError::NotFound), 404);
    assert_eq!(error_status(&DbError::ConstraintViolation), 400);
    assert_eq!(error_status(&DbError::InvalidInput), 400);
    assert_eq!(error_status(&DbError::Decode), 500);
    assert_eq!(error_status(&DbError::Invariant), 500);
}

#[test]
fn index_reply_renders_listing_or_500() {
    let mut t = EntryTable::new();
    t.create(entry("u", "T", ""), 1);
    let rows = t.list_all().clone();
    let reply = index_reply(Ok(rows), "10.0.0.1".to_string());
    match reply {
        Reply::RenderIndex { entries, addr } => {
            assert_eq!(entries.len(), 1);
            assert_eq!(entries[0].title, "T");
            assert_eq!(addr, "10.0.0.1");
        }
        _ => panic!("expected the listing page"),
    }
    let failed = index_reply(Err(DbError::Connectivity), "10.0.0.1".to_string());
    assert_eq!(failure_status(&failed), 500);
}

#[test]
fn new_entry_reply_renders_blank_form() {
    let reply = new_entry_reply("10.0.0.1".to_string());
    match reply {
        Reply::RenderNewEntry { addr } => assert_eq!(addr, "10.0.0.1"),
        _ => panic!("expected the blank form page"),
    }
}

#[test]
fn create_reply_redirects_to_new_entry() {
    let reply = create_reply(Ok(7));
    match reply {
        Reply::Redirect { location } => assert_eq!(location, "/entries/7"),
        _ => panic!("expected a redirect"),
    }
}

#[test]
fn create_reply_maps_errors() {
    assert_eq!(failure_status(&create_reply(Err(DbError::ConstraintViolation))), 400);
    assert_eq!(failure_status(&create_reply(Err(DbError::InvalidInput))), 400);
    assert_eq!(failure_status(&create_reply(Err(DbError::Connectivity))), 500);
}

#[test]
fn update_reply_cases() {
    match update_reply(3, Ok(1)) {
        Reply::Redirect { location } => assert_eq!(location, "/entries/3"),
        _ => panic!("expected a redirect"),
    }
    assert_eq!(failure_status(&update_reply(3, Ok(0))), 404);
    assert_eq!(failure_status(&update_reply(3, Ok(2))), 500);
    assert_eq!(failure_status(&update_reply(3, Err(DbError::InvalidInput))), 400);
    assert_eq!(failure_status(&update_reply(3, Err(DbError::Connectivity))), 500);
}

#[test]
fn delete_reply_cases() {
    match delete_reply(Ok(1)) {
        Reply::Redirect { location } => assert_eq!(location, "/"),
        _ => panic!("expected a redirect"),
    }
    assert_eq!(failure_status(&delete_reply(Ok(0))), 404);
    assert_eq!(failure_status(&delete_reply(Ok(2))), 500);
    assert_eq!(failure_status(&delete_reply(Err(DbError::Connectivity))), 500);
}

#[test]
fn get_entry_reply_cases() {
    assert_eq!(failure_status(&get_entry_reply(Ok(None), "a".to_string())), 404);
    assert_eq!(failure_status(&get_entry_reply(Err(DbError::Decode), "a".to_string())), 500);
}

#[test]
fn scenario_create_then_view() {
    // POST of the creation form, then a GET of the redirect target
    let mut t = EntryTable::new();
    let data = entry("https://example.com", "Example", "");
    let id = t.create(data, 1000);
    let reply = create_reply(Ok(id));
    match reply {
        Reply::Redirect { location } => assert_eq!(location, "/entries/1"),
        _ => panic!("expected a redirect to the new entry"),
    }
    let fetched = t.get_one(id).cloned();
    let page = get_entry_reply(Ok(fetched), "10.0.0.1".to_string());
    match page {
        Reply::RenderEntry { entry, addr } => {
            assert_eq!(entry.title, "Example");
            assert_eq!(entry.url, "https://example.com");
            assert_eq!(addr, "10.0.0.1");
        }
        _ => panic!("expected the detail page"),
    }
}

#[test]
fn scenario_delete_then_view() {
    let mut t = EntryTable::new();
    let id = t.create(entry("https://example.com", "Example", ""), 1000);
    let n = t.delete(id);
    match delete_reply(Ok(n)) {
        Reply::Redirect { location } => assert_eq!(location, "/"),
        _ => panic!("expected a redirect to the listing"),
    }
    let gone = t.get_one(id).cloned();
    assert_eq!(failure_status(&get_entry_reply(Ok(gone), "a".to_string())), 404);
}

#[test]
fn scenario_update_with_missing_field() {
    // a body without `title` never decodes into an Entry, so the update is
    // never issued: the decoder's failure maps to 400 and the row stays
    let mut t = EntryTable::new();
    let id = t.create(entry("https://example.com", "Example", ""), 1000);
    let decoded = tabnotes::form::parse_entry_form(b"url=elsewhere&notes=changed");
    let outcome = match decoded {
        Ok(_) => panic!("a body without title must not decode"),
        Err(e) => update_reply(id, Err(e)),
    };
    assert_eq!(failure_status(&outcome), 400);
    let kept = t.get_one(id).unwrap();
    assert_eq!(kept.title, "Example");
    assert_eq!(kept.url, "https://example.com");
}
