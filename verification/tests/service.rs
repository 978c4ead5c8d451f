use redirect_store::record::Record;
use redirect_store::service::{
    answer_resolve, finish_create, finish_delete, param_of, plan, plan_create, plan_delete,
    plan_delete_for, plan_parsed, refusal_of_delete, respond_with_error, split_at_hyphen, Plan,
    Reply, Verb,
};
use redirect_store::store::{Store, StoreError};
use redirect_store::target::url_parse_error_to_string;
use url::ParseError;

const T0: &str = "67e55044-10b1-426f-9247-bb680e5fe0c8";

fn record(token: &str, url: &str) -> Record {
    Record { token: token.to_string(), url: url.to_string() }
}

fn text(status: u16, body: &str) -> Reply {
    Reply::Text { status, body: body.to_string() }
}

fn one_record() -> Store {
    let mut store = Store::new();
    store.create(record(T0, "https://example.com/"), true).unwrap();
    store
}

#[test]
fn param_is_the_path_without_its_first_character() {
    assert_eq!(param_of("/abc"), "abc");
    assert_eq!(param_of("/"), "");
    assert_eq!(param_of(""), "");
    assert_eq!(param_of("/https://example.com/a?b=c"), "https://example.com/a?b=c");
    assert_eq!(param_of("\u{e9}x"), "x");
}

#[test]
fn split_at_hyphen_cuts_at_the_first_hyphen_only() {
    assert_eq!(split_at_hyphen("a-b-c"), ("a".to_string(), Some("b-c".to_string())));
    assert_eq!(split_at_hyphen("abc"), ("abc".to_string(), None));
    assert_eq!(split_at_hyphen("abc-"), ("abc".to_string(), Some(String::new())));
    assert_eq!(split_at_hyphen("-abc"), (String::new(), Some("abc".to_string())));
    assert_eq!(split_at_hyphen(""), (String::new(), None));
    assert_eq!(split_at_hyphen("-"), (String::new(), Some(String::new())));
}

#[test]
fn every_parser_error_has_its_message() {
    assert_eq!(url_parse_error_to_string(ParseError::EmptyHost), "invalid-url:empty-host");
    assert_eq!(url_parse_error_to_string(ParseError::IdnaError), "invalid-url:idna-error");
    assert_eq!(url_parse_error_to_string(ParseError::InvalidPort), "invalid-url:invalid-port");
    assert_eq!(url_parse_error_to_string(ParseError::InvalidIpv4Address), "invalid-url:invalid-ipv4");
    assert_eq!(url_parse_error_to_string(ParseError::InvalidIpv6Address), "invalid-url:invalid-ipv6");
    assert_eq!(
        url_parse_error_to_string(ParseError::InvalidDomainCharacter),
        "invalid-url:invalid-domain"
    );
    assert_eq!(
        url_parse_error_to_string(ParseError::RelativeUrlWithoutBase),
        "invalid-url:relative-url-without-base"
    );
    assert_eq!(
        url_parse_error_to_string(ParseError::RelativeUrlWithCannotBeABaseBase),
        "invalid-url:relative-url-with-cannot-be-a-base-base"
    );
    assert_eq!(
        url_parse_error_to_string(ParseError::SetHostOnCannotBeABaseUrl),
        "invalid-url:set-host-on-cannot-be-a-base-url"
    );
    assert_eq!(url_parse_error_to_string(ParseError::Overflow), "invalid-url:overflow");
}

fn staged_url(target: &str) -> String {
    match plan_create(target) {
        Plan::AppendToLog { record, .. } => record.url,
        other => panic!("unexpected plan {:?}", other),
    }
}

#[test]
fn plan_create_stores_the_url_in_normal_form() {
    assert_eq!(staged_url("https://example.com"), "https://example.com/");
    assert_eq!(staged_url("HTTP://EXAMPLE.com/a b"), "http://example.com/a%20b");
    assert_eq!(staged_url("mailto:someone@example.com"), "mailto:someone@example.com");
}

#[test]
fn plan_create_gives_the_reason_for_a_refusal() {
    assert_eq!(plan_create(""), Plan::Answer(text(400, "invalid-url:relative-url-without-base")));
    assert_eq!(
        plan_create("http://example.com:99999/"),
        Plan::Answer(text(400, "invalid-url:invalid-port"))
    );
    assert_eq!(plan_create("http://[::1"), Plan::Answer(text(400, "invalid-url:invalid-ipv6")));
}

#[test]
fn plan_create_stages_the_normal_form_under_a_fresh_token() {
    match plan_create("https://example.com") {
        Plan::AppendToLog { line, record } => {
            assert_eq!(record.url, "https://example.com/");
            assert_eq!(record.token.len(), 36);
            assert_eq!(line, format!("{}https://example.com/\n", record.token));
        }
        other => panic!("unexpected plan {:?}", other),
    }
}

#[test]
fn plan_create_answers_a_bad_target_with_the_reason() {
    assert_eq!(
        plan_create("example.com"),
        Plan::Answer(text(400, "invalid-url:relative-url-without-base"))
    );
    assert_eq!(plan_create("http://"), Plan::Answer(text(400, "invalid-url:empty-host")));
}

#[test]
fn plan_parsed_says_what_follows_from_each_outcome() {
    assert_eq!(
        plan_parsed(Err(ParseError::Overflow)),
        Plan::Answer(text(400, "invalid-url:overflow"))
    );
    assert_eq!(
        plan_parsed(Ok("a\nb".to_string())),
        Plan::Answer(text(400, "invalid-url:unknown"))
    );
    assert_eq!(plan_parsed(Ok(String::new())), Plan::Answer(text(400, "invalid-url:unknown")));
    match plan_parsed(Ok("ftp://example.com/".to_string())) {
        Plan::AppendToLog { line, record } => {
            assert_eq!(record.url, "ftp://example.com/");
            assert_eq!(line, format!("{}ftp://example.com/\n", record.token));
        }
        other => panic!("unexpected plan {:?}", other),
    }
}

#[test]
fn finish_create_answers_with_id_and_token() {
    let mut store = Store::new();
    let reply = finish_create(&mut store, record(T0, "https://example.com/"), true);
    assert_eq!(
        reply,
        Reply::Json { body: format!("{{\"id\":\"0\",\"token\":\"{}\"}}", T0) }
    );
    for _ in 1..36 {
        finish_create(&mut store, record(T0, "https://example.com/"), true);
    }
    let reply = finish_create(&mut store, record(T0, "https://example.com/"), true);
    assert_eq!(
        reply,
        Reply::Json { body: format!("{{\"id\":\"10\",\"token\":\"{}\"}}", T0) }
    );
    assert_eq!(store.len(), 37);
}

#[test]
fn finish_create_after_a_failed_write_is_a_server_error() {
    let mut store = Store::new();
    let reply = finish_create(&mut store, record(T0, "https://example.com/"), false);
    assert_eq!(reply, text(500, "write-error"));
    assert_eq!(store.len(), 0);
    let reply = finish_create(&mut store, record("short", "https://example.com/"), true);
    assert_eq!(reply, text(400, "invalid-url:unknown"));
    assert_eq!(store.len(), 0);
}

#[test]
fn plan_delete_reads_the_token_in_any_form() {
    let store = one_record();
    let expected = Plan::AppendToJournal { line: "0\n".to_string(), id: 0, token: T0.to_string() };
    assert_eq!(plan_delete(&store, &format!("0-{}", T0)), expected);
    assert_eq!(plan_delete(&store, &format!("0-{}", T0.to_uppercase())), expected);
    assert_eq!(plan_delete(&store, "0-67e5504410b1426f9247bb680e5fe0c8"), expected);
    assert_eq!(plan_delete(&store, &format!("0-{{{}}}", T0)), expected);
    assert_eq!(plan_delete(&store, &format!("0-urn:uuid:{}", T0)), expected);
    assert_eq!(plan_delete(&store, &format!("000-{}", T0)), expected);
}

#[test]
fn plan_delete_reads_an_empty_id_as_zero() {
    let store = one_record();
    assert_eq!(
        plan_delete(&store, &format!("-{}", T0)),
        Plan::AppendToJournal { line: "0\n".to_string(), id: 0, token: T0.to_string() }
    );
}

#[test]
fn plan_delete_writes_the_id_in_canonical_form() {
    let mut store = Store::new();
    for _ in 0..11 {
        store.create(record(T0, "https://example.com/"), true).unwrap();
    }
    assert_eq!(
        plan_delete(&store, &format!("A-{}", T0)),
        Plan::AppendToJournal { line: "a\n".to_string(), id: 10, token: T0.to_string() }
    );
}

#[test]
fn plan_delete_refusals() {
    let store = one_record();
    let other = "00000000-0000-4000-8000-000000000001";
    assert_eq!(plan_delete(&store, &format!("!-{}", T0)), Plan::Answer(text(400, "invalid-id")));
    assert_eq!(
        plan_delete(&store, &format!("3w5e11264sgsg-{}", T0)),
        Plan::Answer(text(400, "invalid-id"))
    );
    assert_eq!(plan_delete(&store, "0"), Plan::Answer(text(400, "invalid-token")));
    assert_eq!(plan_delete(&store, "0-"), Plan::Answer(text(400, "invalid-token")));
    assert_eq!(plan_delete(&store, "0-not-a-token"), Plan::Answer(text(400, "invalid-token")));
    assert_eq!(plan_delete(&store, &format!("0-{}", other)), Plan::Answer(text(400, "invalid-token")));
    assert_eq!(plan_delete(&store, &format!("1-{}", T0)), Plan::Answer(text(400, "not-found")));
    // The id is looked at before the token.
    assert_eq!(plan_delete(&store, "!-not-a-token"), Plan::Answer(text(400, "invalid-id")));
}

#[test]
fn plan_delete_for_takes_the_canonical_token_as_given() {
    let store = one_record();
    assert_eq!(
        plan_delete_for(&store, "0", Some(T0.to_string())),
        Plan::AppendToJournal { line: "0\n".to_string(), id: 0, token: T0.to_string() }
    );
    assert_eq!(plan_delete_for(&store, "0", None), Plan::Answer(text(400, "invalid-token")));
    assert_eq!(
        plan_delete_for(&store, "0", Some(T0.to_uppercase())),
        Plan::Answer(text(400, "invalid-token"))
    );
    assert_eq!(plan_delete_for(&store, "?", None), Plan::Answer(text(400, "invalid-id")));
}

#[test]
fn finish_delete_answers_with_the_removed_url() {
    let mut store = one_record();
    assert_eq!(finish_delete(&mut store, 0, T0, false), text(500, "write-error"));
    assert_eq!(store.resolve(0), Ok("https://example.com/".to_string()));
    assert_eq!(finish_delete(&mut store, 0, T0, true), text(200, "https://example.com/"));
    assert_eq!(finish_delete(&mut store, 0, T0, true), text(400, "not-found"));
    assert_eq!(finish_delete(&mut store, 0, "x", true), text(400, "not-found"));
    assert_eq!(finish_delete(&mut store, 5, T0, true), text(400, "not-found"));
    assert_eq!(plan_delete(&store, &format!("0-{}", T0)), Plan::Answer(text(400, "not-found")));
    let other = "00000000-0000-4000-8000-000000000001";
    assert_eq!(plan_delete(&store, &format!("0-{}", other)), Plan::Answer(text(400, "not-found")));
}

#[test]
fn refusal_of_delete_covers_every_error() {
    assert_eq!(refusal_of_delete(StoreError::NotFound), text(400, "not-found"));
    assert_eq!(refusal_of_delete(StoreError::InvalidToken), text(400, "invalid-token"));
    assert_eq!(refusal_of_delete(StoreError::WriteFailure), text(500, "write-error"));
    assert_eq!(refusal_of_delete(StoreError::InvalidInput), text(400, "invalid-id"));
    assert_eq!(respond_with_error("anything", 418), text(418, "anything"));
}

#[test]
fn answer_resolve_redirects_or_says_why_not() {
    let mut store = one_record();
    store.create(record(T0, "https://example.com/\u{e9}"), true).unwrap();
    assert_eq!(
        answer_resolve(&store, "0"),
        Reply::Redirect { location: "https://example.com/".to_string() }
    );
    assert_eq!(
        answer_resolve(&store, ""),
        Reply::Redirect { location: "https://example.com/".to_string() }
    );
    assert_eq!(answer_resolve(&store, "1"), text(400, "invalid-url"));
    assert_eq!(answer_resolve(&store, "2"), text(404, "not-found"));
    assert_eq!(answer_resolve(&store, "0.5"), text(400, "invalid-id"));
    store.delete(0, T0, true).unwrap();
    assert_eq!(answer_resolve(&store, "0"), text(404, "not-found"));
}

#[test]
fn plan_goes_by_the_verb() {
    let store = one_record();
    assert_eq!(
        plan(&store, Verb::Other, "0"),
        Plan::Answer(Reply::Redirect { location: "https://example.com/".to_string() })
    );
    assert_eq!(
        plan(&store, Verb::Delete, &format!("0-{}", T0)),
        Plan::AppendToJournal { line: "0\n".to_string(), id: 0, token: T0.to_string() }
    );
    assert_eq!(
        plan(&store, Verb::Post, "0"),
        Plan::Answer(text(400, "invalid-url:relative-url-without-base"))
    );
    match plan(&store, Verb::Post, "https://example.org/x") {
        Plan::AppendToLog { record, .. } => assert_eq!(record.url, "https://example.org/x"),
        other => panic!("unexpected plan {:?}", other),
    }
}

#[test]
fn a_whole_exchange() {
    let mut store = Store::new();
    let (line, record) = match plan(&store, Verb::Post, param_of("/https://example.com")) {
        Plan::AppendToLog { line, record } => (line, record),
        other => panic!("unexpected plan {:?}", other),
    };
    let token = record.token.clone();
    assert_eq!(line, format!("{}https://example.com/\n", token));
    let reply = finish_create(&mut store, record, true);
    assert_eq!(reply, Reply::Json { body: format!("{{\"id\":\"0\",\"token\":\"{}\"}}", token) });
    assert_eq!(
        plan(&store, Verb::Other, param_of("/0")),
        Plan::Answer(Reply::Redirect { location: "https://example.com/".to_string() })
    );
    let path = format!("/0-{}", token);
    match plan(&store, Verb::Delete, param_of(&path)) {
        Plan::AppendToJournal { line, id, token } => {
            assert_eq!(line, "0\n");
            assert_eq!(finish_delete(&mut store, id, &token, true), text(200, "https://example.com/"));
        }
        other => panic!("unexpected plan {:?}", other),
    }
    assert_eq!(plan(&store, Verb::Other, "0"), Plan::Answer(text(404, "not-found")));
}
