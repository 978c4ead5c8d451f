use redirect_store::log::load;
use redirect_store::record::Record;
use redirect_store::recovery::recover;
use redirect_store::store::{is_creatable, Store, StoreError};

const T0: &str = "67e55044-10b1-426f-9247-bb680e5fe0c8";

fn record(token: &str, url: &str) -> Record {
    Record { token: token.to_string(), url: url.to_string() }
}

fn has_canonical_shape(token: &str) -> bool {
    token.len() == 36
        && token.bytes().enumerate().all(|(i, b)| match i {
            8 | 13 | 18 | 23 => b == b'-',
            _ => b.is_ascii_digit() || (b'a'..=b'f').contains(&b),
        })
}

#[test]
fn end_to_end() {
    let mut store = Store::new();
    let staged = store_stage("https://example.com");
    let created = store.create(staged, true).unwrap();
    assert_eq!(created.id, 0);
    let token = created.token;
    assert_eq!(store.resolve(0), Ok("https://example.com".to_string()));

    assert_eq!(store.stage_delete(0, "wrong-token"), Err(StoreError::InvalidToken));
    assert_eq!(store.delete(0, "wrong-token", true), Err(StoreError::InvalidToken));
    assert_eq!(store.resolve(0), Ok("https://example.com".to_string()));

    assert_eq!(store.stage_delete(0, &token), Ok("0\n".to_string()));
    assert_eq!(store.delete(0, &token, true), Ok("https://example.com".to_string()));
    assert_eq!(store.resolve(0), Err(StoreError::NotFound));
}

fn store_stage(url: &str) -> Record {
    Store::stage_create(url.to_string()).unwrap().record
}

#[test]
fn stage_create_draws_a_canonical_token_and_gives_the_log_line() {
    let staged = Store::stage_create("https://example.com/".to_string()).unwrap();
    assert!(has_canonical_shape(&staged.record.token));
    assert_eq!(staged.record.token.as_bytes()[14], b'4');
    assert!(b"89ab".contains(&staged.record.token.as_bytes()[19]));
    assert_eq!(staged.record.url, "https://example.com/");
    assert_eq!(staged.line, format!("{}https://example.com/\n", staged.record.token));
}

#[test]
fn stage_create_draws_a_new_token_each_time() {
    let a = Store::stage_create("https://example.com/".to_string()).unwrap();
    let b = Store::stage_create("https://example.com/".to_string()).unwrap();
    assert_ne!(a.record.token, b.record.token);
}

#[test]
fn stage_create_refuses_a_url_that_cannot_be_stored() {
    assert_eq!(Store::stage_create(String::new()).unwrap_err(), StoreError::InvalidInput);
    assert_eq!(
        Store::stage_create("https://example.com/\nx".to_string()).unwrap_err(),
        StoreError::InvalidInput
    );
}

#[test]
fn create_after_a_failed_write_changes_nothing() {
    let mut store = Store::new();
    let r = store.create(record(T0, "https://example.com/"), false);
    assert_eq!(r, Err(StoreError::WriteFailure));
    assert_eq!(store.len(), 0);
    assert_eq!(store.resolve(0), Err(StoreError::NotFound));
    // The id that the failed create would have had goes to the next one.
    let created = store.create(record(T0, "https://example.com/"), true).unwrap();
    assert_eq!(created.id, 0);
    assert_eq!(created.token, T0);
}

#[test]
fn create_refuses_records_that_cannot_be_stored() {
    let mut store = Store::new();
    assert_eq!(store.create(record("short", "https://a/"), true), Err(StoreError::InvalidInput));
    assert_eq!(store.create(record(T0, ""), true), Err(StoreError::InvalidInput));
    assert_eq!(store.create(record(T0, "https://a/\n"), true), Err(StoreError::InvalidInput));
    let broken = format!("{}\n", &T0[..35]);
    assert_eq!(store.create(record(&broken, "https://a/"), true), Err(StoreError::InvalidInput));
    // Refusal comes before the outcome of the write is looked at.
    assert_eq!(store.create(record("short", "https://a/"), false), Err(StoreError::InvalidInput));
    assert_eq!(store.len(), 0);
}

#[test]
fn is_creatable_wants_the_token_width_one_line_and_a_url() {
    assert!(is_creatable(&record(T0, "https://a/")));
    assert!(!is_creatable(&record(T0, "")));
    assert!(!is_creatable(&record(&T0[..35], "https://a/")));
    assert!(!is_creatable(&record(&format!("{}0", T0), "https://a/")));
    assert!(!is_creatable(&record(T0, "a\nb")));
}

#[test]
fn ids_are_dense_whatever_deletes_come_in_between() {
    let mut store = Store::new();
    let mut tokens = Vec::new();
    for expected in 0..6u64 {
        let staged = store_stage(&format!("https://example.com/{}", expected));
        let created = store.create(staged, true).unwrap();
        assert_eq!(created.id, expected);
        tokens.push(created.token);
        if expected % 2 == 1 {
            // Delete the record made just before this one.
            let gone = expected - 1;
            let url = store.delete(gone, &tokens[gone as usize], true).unwrap();
            assert_eq!(url, format!("https://example.com/{}", gone));
        }
        assert_eq!(store.len(), expected + 1);
    }
    assert_eq!(store.resolve(0), Err(StoreError::NotFound));
    assert_eq!(store.resolve(1), Ok("https://example.com/1".to_string()));
    assert_eq!(store.resolve(4), Err(StoreError::NotFound));
    assert_eq!(store.resolve(5), Ok("https://example.com/5".to_string()));
}

#[test]
fn delete_is_refused_the_second_time() {
    let mut store = Store::new();
    store.create(record(T0, "https://example.com/"), true).unwrap();
    assert_eq!(store.delete(0, T0, true), Ok("https://example.com/".to_string()));
    assert_eq!(store.delete(0, T0, true), Err(StoreError::NotFound));
    assert_eq!(store.stage_delete(0, T0), Err(StoreError::NotFound));
    assert_eq!(store.resolve(0), Err(StoreError::NotFound));
    assert_eq!(store.len(), 1);
}

#[test]
fn a_deleted_record_is_not_found_whatever_the_token() {
    let mut store = Store::new();
    store.create(record(T0, "https://example.com/"), true).unwrap();
    assert_eq!(store.delete(0, "wrong", true), Err(StoreError::InvalidToken));
    store.delete(0, T0, true).unwrap();
    assert_eq!(store.delete(0, "wrong", true), Err(StoreError::NotFound));
    assert_eq!(store.stage_delete(0, "wrong"), Err(StoreError::NotFound));
    assert_eq!(store.delete(0, "wrong", false), Err(StoreError::NotFound));
    assert_eq!(store.delete(0, T0, true), Err(StoreError::NotFound));
}

#[test]
fn delete_of_an_unknown_id_is_not_found() {
    let mut store = Store::new();
    assert_eq!(store.delete(0, T0, true), Err(StoreError::NotFound));
    store.create(record(T0, "https://example.com/"), true).unwrap();
    assert_eq!(store.delete(1, T0, true), Err(StoreError::NotFound));
    assert_eq!(store.delete(u64::MAX, T0, true), Err(StoreError::NotFound));
    assert_eq!(store.resolve(u64::MAX), Err(StoreError::NotFound));
}

#[test]
fn delete_after_a_failed_write_changes_nothing() {
    let mut store = Store::new();
    store.create(record(T0, "https://example.com/"), true).unwrap();
    assert_eq!(store.delete(0, T0, false), Err(StoreError::WriteFailure));
    assert_eq!(store.resolve(0), Ok("https://example.com/".to_string()));
    assert_eq!(store.delete(0, T0, true), Ok("https://example.com/".to_string()));
}

#[test]
fn tokens_must_match_exactly() {
    let mut store = Store::new();
    store.create(record(T0, "https://example.com/"), true).unwrap();
    assert_eq!(store.delete(0, &T0.to_uppercase(), true), Err(StoreError::InvalidToken));
    assert_eq!(store.delete(0, &T0[..35], true), Err(StoreError::InvalidToken));
    assert_eq!(store.delete(0, "", true), Err(StoreError::InvalidToken));
}

#[test]
fn what_was_written_is_what_recovery_reads() {
    // Run a store and keep the two files in memory, as the caller would on disk.
    let mut log = String::new();
    let mut journal = String::new();
    let mut store = Store::new();
    let mut tokens = Vec::new();
    for n in 0..4 {
        let staged = Store::stage_create(format!("https://example.com/{}", n)).unwrap();
        log.push_str(&staged.line);
        tokens.push(store.create(staged.record, true).unwrap().token);
    }
    for id in [2u64, 0] {
        let line = store.stage_delete(id, &tokens[id as usize]).unwrap();
        journal.push_str(&line);
        store.delete(id, &tokens[id as usize], true).unwrap();
    }
    // The log alone still shows all four URLs.
    assert_eq!(load(&log).get(2).unwrap().url, "https://example.com/2");
    // Recovery arrives at the store as it was in memory.
    let r = recover(&log, &journal);
    assert_eq!(r.store.len(), store.len());
    for id in 0..store.len() {
        assert_eq!(r.store.resolve(id), store.resolve(id));
        assert_eq!(r.store.index().get(id), store.index().get(id));
    }
    assert!(r.rewrite.is_some());
}
