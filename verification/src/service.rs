//! The request layer: what to answer to a request, and what to write first.
//!
//! A request is a verb and a parameter, the request's path without its leading
//! slash. Planning a request either answers it at once or names a line that
//! must reach the log or the journal; the caller appends the line and finishes
//! the request with the outcome of that write.

use vstd::prelude::*;
use vstd::string::*;
use vstd::utf8::is_ascii_chars;
use crate::base36::{decode_base36, decode_spec, encode_base36, encode_spec, law_decode_encode};
use crate::journal::mark_text;
use crate::log::entry_text;
use crate::record::{single_line, Record, RecordView};
use crate::store::{creatable, delete_spec, resolve_spec, step, Op, Store, StoreError};
use crate::target::{parse_error_text, parse_url, url_parse, url_parse_error_to_string};
use crate::text::push_char;
use crate::token::{canonical_token, is_random_token, uuid_canonical};

verus! {

/// The verb of a request. Every verb but the first two asks for a redirect.
#[derive(Clone, Copy, Debug, PartialEq, Eq, Structural)]
pub enum Verb {
    Post,
    Delete,
    Other,
}

/// An answer to a request.
#[derive(Debug, PartialEq, Eq)]
pub enum Reply {
    /// A body of plain text under a status code.
    Text { status: u16, body: String },
    /// Status 200 with a JSON body.
    Json { body: String },
    /// Status 302 with `location` as the place to go to.
    Redirect { location: String },
}

/// The mathematical value of a [`Reply`].
pub enum ReplyView {
    Text { status: u16, body: Seq<char> },
    Json { body: Seq<char> },
    Redirect { location: Seq<char> },
}

impl View for Reply {
    type V = ReplyView;

    open spec fn view(&self) -> ReplyView {
        match self {
            Reply::Text { status, body } => ReplyView::Text { status: *status, body: body@ },
            Reply::Json { body } => ReplyView::Json { body: body@ },
            Reply::Redirect { location } => ReplyView::Redirect { location: location@ },
        }
    }
}

/// What a request needs before it can be answered.
#[derive(Debug, PartialEq, Eq)]
pub enum Plan {
    /// Nothing: here is the answer.
    Answer(Reply),
    /// `line` appended to the log; then `record` can be created.
    AppendToLog { line: String, record: Record },
    /// `line` appended to the journal; then `token` can delete the record at `id`.
    AppendToJournal { line: String, id: u64, token: String },
}

/// The mathematical value of a [`Plan`].
pub enum PlanView {
    Answer(ReplyView),
    AppendToLog { line: Seq<char>, record: RecordView },
    AppendToJournal { line: Seq<char>, id: u64, token: Seq<char> },
}

impl View for Plan {
    type V = PlanView;

    open spec fn view(&self) -> PlanView {
        match self {
            Plan::Answer(reply) => PlanView::Answer(reply@),
            Plan::AppendToLog { line, record } => PlanView::AppendToLog {
                line: line@,
                record: record@,
            },
            Plan::AppendToJournal { line, id, token } => PlanView::AppendToJournal {
                line: line@,
                id: *id,
                token: token@,
            },
        }
    }
}

/// An error message under a status code.
pub open spec fn error_reply(message: Seq<char>, status: u16) -> ReplyView {
    ReplyView::Text { status, body: message }
}

/// The parameter of a request: its path without the first character.
pub open spec fn param_text(path: Seq<char>) -> Seq<char> {
    if path.len() == 0 {
        path
    } else {
        path.skip(1)
    }
}

/// The place of the first hyphen of `s`, or the length of `s` if it has none.
pub open spec fn first_hyphen(s: Seq<char>) -> int
    decreases s.len(),
{
    if s.len() == 0 || s[0] == '-' {
        0
    } else {
        1 + first_hyphen(s.drop_first())
    }
}

/// The id part of a delete parameter: what stands before its first hyphen.
pub open spec fn id_part(param: Seq<char>) -> Seq<char> {
    param.take(first_hyphen(param))
}

/// The token part of a delete parameter: what follows its first hyphen, if
/// there is a hyphen.
pub open spec fn token_part(param: Seq<char>) -> Option<Seq<char>> {
    if first_hyphen(param) < param.len() {
        Some(param.skip(first_hyphen(param) + 1))
    } else {
        None
    }
}

/// The body that answers a create: the id in base 36 and the token.
pub open spec fn created_body(id: u64, token: Seq<char>) -> Seq<char> {
    "{\"id\":\""@ + encode_spec(id as nat) + "\",\"token\":\""@ + token + "\"}"@
}

/// The answer to a refused or failed delete.
pub open spec fn delete_refusal(e: StoreError) -> ReplyView {
    match e {
        StoreError::NotFound => error_reply("not-found"@, 400),
        StoreError::InvalidToken => error_reply("invalid-token"@, 400),
        StoreError::WriteFailure => error_reply("write-error"@, 500),
        StoreError::InvalidInput => error_reply("invalid-id"@, 400),
    }
}

/// The answer to a refused or failed create.
pub open spec fn create_refusal(e: StoreError) -> ReplyView {
    match e {
        StoreError::WriteFailure => error_reply("write-error"@, 500),
        _ => error_reply("invalid-url:unknown"@, 400),
    }
}

/// The answer to a request for the redirect that `param` names.
pub open spec fn resolve_reply(records: Seq<RecordView>, param: Seq<char>) -> ReplyView {
    match decode_spec(param) {
        None => error_reply("invalid-id"@, 400),
        Some(id) => match resolve_spec(records, id) {
            Err(_) => error_reply("not-found"@, 404),
            Ok(url) => if is_ascii_chars(url) {
                ReplyView::Redirect { location: url }
            } else {
                error_reply("invalid-url"@, 400)
            },
        },
    }
}

/// The plan for a delete, given the id part of its parameter and the
/// canonical form of its token part, if it has one.
pub open spec fn delete_plan(
    records: Seq<RecordView>,
    id_text: Seq<char>,
    canonical: Option<Seq<char>>,
) -> PlanView {
    match decode_spec(id_text) {
        None => PlanView::Answer(error_reply("invalid-id"@, 400)),
        Some(id) => match canonical {
            None => PlanView::Answer(error_reply("invalid-token"@, 400)),
            Some(token) => match delete_spec(records, id, token) {
                Err(e) => PlanView::Answer(delete_refusal(e)),
                Ok(_) => PlanView::AppendToJournal { line: mark_text(id), id, token },
            },
        },
    }
}

/// What the URL parser made of a target, as values.
pub open spec fn parsed_text(parsed: Result<String, url::ParseError>) -> Result<
    Seq<char>,
    url::ParseError,
> {
    match parsed {
        Ok(url) => Ok(url@),
        Err(e) => Err(e),
    }
}

/// `plan` is a plan for a create, given what the URL parser made of the
/// target. A target that is no absolute URL is answered with the parser's
/// reason under status 400. A URL is staged in its normal form under a token
/// drawn at random, with the record's line to be appended to the log. (A
/// normal form that is blank or holds a line break could not be stored and
/// is answered as an unknown fault of the URL.)
pub open spec fn is_create_plan(plan: PlanView, parsed: Result<Seq<char>, url::ParseError>) -> bool {
    match parsed {
        Err(e) => plan == PlanView::Answer(error_reply(parse_error_text(e), 400)),
        Ok(url) => if url.len() > 0 && single_line(url) {
            &&& plan matches PlanView::AppendToLog { line, record }
            &&& record.url == url
            &&& is_random_token(record.token)
            &&& creatable(record)
            &&& line == entry_text(record)
        } else {
            plan == PlanView::Answer(error_reply("invalid-url:unknown"@, 400))
        },
    }
}

/// The canonical form of the token part of a delete parameter.
pub open spec fn canonical_part(param: Seq<char>) -> Option<Seq<char>> {
    match token_part(param) {
        None => None,
        Some(text) => uuid_canonical(text),
    }
}

/// The id that a create answers with names the created record: read back in
/// a later request it redirects to the record's URL, and together with the
/// record's token it is accepted for a delete.
pub proof fn law_answered_id_names_record(records: Seq<RecordView>, record: RecordView)
    requires
        creatable(record),
        records.len() <= u64::MAX,
    ensures
        ({
            let id = records.len() as u64;
            let id_text = encode_spec(id as nat);
            let after = step(records, Op::Create { record, appended: true });
            &&& resolve_reply(after, id_text) == if is_ascii_chars(record.url) {
                ReplyView::Redirect { location: record.url }
            } else {
                error_reply("invalid-url"@, 400)
            }
            &&& delete_plan(after, id_text, Some(record.token)) == PlanView::AppendToJournal {
                line: mark_text(id),
                id,
                token: record.token,
            }
        }),
{
    law_decode_encode(records.len() as u64);
}

/// The answer that carries `error` under the status `code`.
pub fn respond_with_error(error: &str, code: u16) -> (reply: Reply)
    ensures
        reply@ == error_reply(error@, code),
{
    Reply::Text { status: code, body: error.to_owned() }
}

/// The parameter of a request path.
pub fn param_of(path: &str) -> (param: &str)
    ensures
        param@ == param_text(path@),
{
    let n = path.unicode_len();
    if n == 0 {
        path
    } else {
        let param = path.substring_char(1, n);
        assert(path@.subrange(1, n as int) == path@.skip(1));
        param
    }
}

/// Where the characters before `i` hold no hyphen and a hyphen or the end
/// stands at `i`, the first hyphen is at `i`.
proof fn lemma_first_hyphen(s: Seq<char>, i: int)
    requires
        0 <= i <= s.len(),
        forall|k: int| 0 <= k < i ==> s[k] != '-',
        i == s.len() || s[i] == '-',
    ensures
        first_hyphen(s) == i,
    decreases s.len(),
{
    if i > 0 {
        let rest = s.drop_first();
        assert forall|k: int| 0 <= k < i - 1 implies rest[k] != '-' by {
            assert(rest[k] == s[k + 1]);
        }
        lemma_first_hyphen(rest, i - 1);
    }
}

/// Cuts a delete parameter at its first hyphen.
pub fn split_at_hyphen(param: &str) -> (parts: (String, Option<String>))
    ensures
        parts.0@ == id_part(param@),
        parts.1.deep_view() == token_part(param@),
{
    let mut id_text = String::new();
    let mut token_text = String::new();
    let mut seen = false;
    let ghost mut at: int = 0;
    for c in it: param.chars()
        invariant
            it.seq() == param@,
            !seen ==> {
                &&& id_text@ == param@.take(it.index() as int)
                &&& token_text@ == Seq::<char>::empty()
                &&& forall|k: int| 0 <= k < it.index() ==> param@[k] != '-'
            },
            seen ==> {
                &&& 0 <= at < it.index()
                &&& first_hyphen(param@) == at
                &&& id_text@ == param@.take(at)
                &&& token_text@ == param@.subrange(at + 1, it.index() as int)
            },
    {
        let ghost i = it.index() as int;
        if seen {
            push_char(&mut token_text, c);
            assert(token_text@ == param@.subrange(at + 1, i + 1));
        } else if c == '-' {
            proof {
                lemma_first_hyphen(param@, i);
                at = i;
            }
            seen = true;
            assert(token_text@ == param@.subrange(at + 1, i + 1));
        } else {
            push_char(&mut id_text, c);
            assert(id_text@ == param@.take(i + 1));
        }
    }
    if seen {
        assert(param@.subrange(at + 1, param@.len() as int) == param@.skip(at + 1));
        (id_text, Some(token_text))
    } else {
        proof {
            lemma_first_hyphen(param@, param@.len() as int);
        }
        (id_text, None)
    }
}

/// Plans a create from what the URL parser made of the target.
pub fn plan_parsed(parsed: Result<String, url::ParseError>) -> (plan: Plan)
    ensures
        is_create_plan(plan@, parsed_text(parsed)),
{
    match parsed {
        Err(e) => Plan::Answer(respond_with_error(url_parse_error_to_string(e), 400)),
        Ok(url) => match Store::stage_create(url) {
            Ok(staged) => Plan::AppendToLog { line: staged.line, record: staged.record },
            Err(_) => Plan::Answer(respond_with_error("invalid-url:unknown", 400)),
        },
    }
}

/// Plans a create of a redirect to `target`.
pub fn plan_create(target: &str) -> (plan: Plan)
    ensures
        is_create_plan(plan@, url_parse(target@)),
{
    plan_parsed(parse_url(target))
}

/// Finishes a create once the caller has tried to append the record's line
/// to the log: the id and the token as JSON, or `write-error` under status
/// 500 and no change to the store.
pub fn finish_create(store: &mut Store, record: Record, appended: bool) -> (reply: Reply)
    ensures
        final(store)@ == step(old(store)@, Op::Create { record: record@, appended }),
        old(store).wf() ==> final(store).wf(),
        reply@ == if !creatable(record@) {
            create_refusal(StoreError::InvalidInput)
        } else if !appended {
            create_refusal(StoreError::WriteFailure)
        } else {
            ReplyView::Json { body: created_body(old(store)@.len() as u64, record@.token) }
        },
{
    match store.create(record, appended) {
        Ok(created) => {
            let mut body = "{\"id\":\"".to_owned();
            body.append(encode_base36(created.id).as_str());
            body.append("\",\"token\":\"");
            body.append(created.token.as_str());
            body.append("\"}");
            Reply::Json { body }
        },
        Err(StoreError::WriteFailure) => respond_with_error("write-error", 500),
        Err(_) => respond_with_error("invalid-url:unknown", 400),
    }
}

/// Plans a delete from the id part of its parameter and the canonical form
/// of its token part.
pub fn plan_delete_for(store: &Store, id_text: &str, canonical: Option<String>) -> (plan: Plan)
    ensures
        plan@ == delete_plan(store@, id_text@, canonical.deep_view()),
{
    let id = match decode_base36(id_text) {
        Some(id) => id,
        None => {
            return Plan::Answer(respond_with_error("invalid-id", 400));
        },
    };
    let token = match canonical {
        Some(token) => token,
        None => {
            return Plan::Answer(respond_with_error("invalid-token", 400));
        },
    };
    match store.stage_delete(id, token.as_str()) {
        Ok(line) => Plan::AppendToJournal { line, id, token },
        Err(e) => Plan::Answer(refusal_of_delete(e)),
    }
}

/// Plans the delete that `param` asks for: an id in base 36, a hyphen, and
/// the token in any form that reads as a UUID.
pub fn plan_delete(store: &Store, param: &str) -> (plan: Plan)
    ensures
        plan@ == delete_plan(store@, id_part(param@), canonical_part(param@)),
{
    let (id_text, token_text) = split_at_hyphen(param);
    let canonical = match token_text {
        Some(text) => canonical_token(text.as_str()),
        None => None,
    };
    plan_delete_for(store, id_text.as_str(), canonical)
}

/// Finishes a delete once the caller has tried to append the id to the
/// journal: the removed URL as text, or the refusal and no change to the store.
pub fn finish_delete(store: &mut Store, id: u64, token: &str, journaled: bool) -> (reply: Reply)
    ensures
        final(store)@ == step(old(store)@, Op::Delete { id, token: token@, journaled }),
        old(store).wf() ==> final(store).wf(),
        reply@ == match delete_spec(old(store)@, id, token@) {
            Err(e) => delete_refusal(e),
            Ok(url) => if journaled {
                ReplyView::Text { status: 200, body: url }
            } else {
                delete_refusal(StoreError::WriteFailure)
            },
        },
{
    match store.delete(id, token, journaled) {
        Ok(url) => Reply::Text { status: 200, body: url },
        Err(e) => refusal_of_delete(e),
    }
}

/// The answer to a refused or failed delete.
pub fn refusal_of_delete(e: StoreError) -> (reply: Reply)
    ensures
        reply@ == delete_refusal(e),
{
    match e {
        StoreError::NotFound => respond_with_error("not-found", 400),
        StoreError::InvalidToken => respond_with_error("invalid-token", 400),
        StoreError::WriteFailure => respond_with_error("write-error", 500),
        StoreError::InvalidInput => respond_with_error("invalid-id", 400),
    }
}

/// Answers a request for the redirect that `param` names.
pub fn answer_resolve(store: &Store, param: &str) -> (reply: Reply)
    ensures
        reply@ == resolve_reply(store@, param@),
{
    let id = match decode_base36(param) {
        Some(id) => id,
        None => {
            return respond_with_error("invalid-id", 400);
        },
    };
    match store.resolve(id) {
        Err(_) => respond_with_error("not-found", 404),
        Ok(url) => {
            if url.as_str().is_ascii() {
                Reply::Redirect { location: url }
            } else {
                respond_with_error("invalid-url", 400)
            }
        },
    }
}

/// Plans any request: a create for `Post`, a delete for `Delete`, and for
/// every other verb the answer to a request for a redirect.
pub fn plan(store: &Store, verb: Verb, param: &str) -> (plan: Plan)
    ensures
        verb == Verb::Delete ==> plan@ == delete_plan(
            store@,
            id_part(param@),
            canonical_part(param@),
        ),
        verb == Verb::Other ==> plan@ == PlanView::Answer(resolve_reply(store@, param@)),
        verb == Verb::Post ==> is_create_plan(plan@, url_parse(param@)),
{
    match verb {
        Verb::Post => plan_create(param),
        Verb::Delete => plan_delete(store, param),
        Verb::Other => Plan::Answer(answer_resolve(store, param)),
    }
}

} // verus!
