//! Answers to questions, and how they reach the requests that asked.
use crate::ask::{ask_withdrawn, remove_pending_ask, AskTicket};
use crate::json::{
    array_value, bool_value, field, json_of, json_text, lemma_flat_object, nesting_limit,
    no_members, object_value, ok_mark, parse_json, parse_result, read_text, reads_alike,
    set_member, string_value, text_field, trees, write_json, Json,
};
use crate::lists::lemma_filter_at;
use crate::reply::{
    failure_body, failure_text, labelled, lemma_invalid_json_status, ok_body, ok_text,
    status_of, Reply, ReplyView,
};
use crate::state::{
    results_view, AskResult, AskResultView, ServerState, ServerView, MAX_ASK_RESULTS,
};
use crate::text::{nonblank, occurs_in, same_text, text_view, trim_nonblank, trimmed};
use vstd::prelude::*;

verus! {

/// The object of a failure to answer a question.
pub open spec fn ask_failure_json(id: Seq<char>, message: Seq<char>) -> Json {
    Json::Object(
        map!["ok"@ => Json::Bool(false), "id"@ => Json::Str(id), "error"@ => Json::Str(message)],
    )
}

/// Writes the object of a failure to answer a question.
pub fn ask_failure_object(id: &str, message: &str) -> (body: String)
    ensures
        body@ == json_text(ask_failure_json(id@, message@)),
        parse_result(body@) == (Ok::<Json, Seq<char>>(ask_failure_json(id@, message@))),
        reads_alike(body@, ask_failure_json(id@, message@)),
{
    let mut members = no_members();
    set_member(&mut members, "ok", bool_value(false));
    set_member(&mut members, "id", string_value(id));
    set_member(&mut members, "error", string_value(message));
    let value = object_value(members);
    assert(json_of(value) == ask_failure_json(id@, message@));
    proof {
        lemma_flat_object(json_of(value)->Object_0, nesting_limit());
    }
    write_json(&value)
}

/// The object of an answer.
pub open spec fn answer_json(id: Seq<char>, answer: Seq<char>, references: Seq<Json>) -> Json {
    Json::Object(
        map![
            "ok"@ => Json::Bool(true),
            "id"@ => Json::Str(id),
            "answer"@ => Json::Str(answer),
            "references"@ => Json::Array(references),
        ],
    )
}

/// Writes the object of an answer.
pub fn answer_object(id: &str, answer: &str, references: Vec<serde_json::Value>) -> (body: String)
    ensures
        body@ == json_text(answer_json(id@, answer@, trees(references@))),
        answer_json(id@, answer@, trees(references@)).nests(nesting_limit()) ==> reads_alike(
            body@,
            answer_json(id@, answer@, trees(references@)),
        ),
        answer_json(id@, answer@, trees(references@)).restorable(nesting_limit()) ==> parse_result(
            body@,
        ) == (Ok::<Json, Seq<char>>(answer_json(id@, answer@, trees(references@)))),
{
    let ghost list = trees(references@);
    let mut members = no_members();
    set_member(&mut members, "ok", bool_value(true));
    set_member(&mut members, "id", string_value(id));
    set_member(&mut members, "answer", string_value(answer));
    set_member(&mut members, "references", array_value(references));
    let value = object_value(members);
    assert(json_of(value) == answer_json(id@, answer@, list));
    write_json(&value)
}

/// What an answer says.
pub struct AnswerRequest {
    pub id: Option<String>,
    pub ok: Option<bool>,
    pub answer: Option<String>,
    pub references: Option<Vec<serde_json::Value>>,
    pub error: Option<String>,
}

#[verifier::ext_equal]
pub ghost struct AnswerRequestView {
    pub id: Option<Seq<char>>,
    pub ok: Option<bool>,
    pub answer: Option<Seq<char>>,
    pub references: Option<Seq<Json>>,
    pub error: Option<Seq<char>>,
}

impl View for AnswerRequest {
    type V = AnswerRequestView;

    open spec fn view(&self) -> AnswerRequestView {
        AnswerRequestView {
            id: text_view(self.id),
            ok: self.ok,
            answer: text_view(self.answer),
            references: match self.references {
                Some(references) => Some(trees(references@)),
                None => None,
            },
            error: text_view(self.error),
        }
    }
}

/// What a request body answers, or why it cannot be read.
pub open spec fn answered(parsed: Result<Json, Seq<char>>) -> Result<AnswerRequestView, Seq<char>> {
    match parsed {
        Ok(json) => Ok(answer_members(json)),
        Err(error) => Err(error),
    }
}

/// What an object answers.
pub open spec fn answer_members(json: Json) -> AnswerRequestView {
    AnswerRequestView {
        id: text_field(json, "id"@),
        ok: json.field("ok"@).as_bool(),
        answer: text_field(json, "answer"@),
        references: json.field("references"@).as_array(),
        error: text_field(json, "error"@),
    }
}

/// An answer or an error, as the contracts see it.
pub open spec fn answer_request_view(request: Result<AnswerRequest, String>) -> Result<
    AnswerRequestView,
    Seq<char>,
> {
    match request {
        Ok(request) => Ok(request@),
        Err(error) => Err(error@),
    }
}

/// Copies the items of an array.
fn copy_items(items: &Vec<serde_json::Value>) -> (copies: Vec<serde_json::Value>)
    ensures
        trees(copies@) == trees(items@),
{
    let mut copies: Vec<serde_json::Value> = Vec::new();
    for i in 0..items.len()
        invariant
            trees(copies@) == trees(items@).take(i as int),
    {
        let copy = items[i].clone();
        let ghost before = copies@;
        copies.push(copy);
        assert(trees(copies@) == trees(before).push(json_of(copy)));
    }
    assert(trees(items@).take(items@.len() as int) == trees(items@));
    copies
}

/// Reads what an object answers.
pub fn answer_of(value: &serde_json::Value) -> (request: AnswerRequest)
    ensures
        request@ == answer_members(json_of(*value)),
{
    let references = match field(value, "references").as_array() {
        Some(items) => Some(copy_items(items)),
        None => None,
    };
    AnswerRequest {
        id: read_text(value, "id"),
        ok: field(value, "ok").as_bool(),
        answer: read_text(value, "answer"),
        references,
        error: read_text(value, "error"),
    }
}

/// Reads what a request body answers.
pub fn read_answer(body: &str) -> (request: Result<AnswerRequest, String>)
    ensures
        answer_request_view(request) == answered(parse_result(body@)),
        request matches Err(error) ==> !occurs_in(error@, ok_mark()),
        parse_result(body@) matches Ok(json) ==> json.nests(nesting_limit()),
{
    match parse_json(body) {
        Ok(value) => Ok(answer_of(&value)),
        Err(error) => Err(error),
    }
}

/// The object with which a question is answered.
pub open spec fn answer_tree(id: Seq<char>, request: AnswerRequestView) -> Json {
    if request.ok.unwrap_or(true) {
        answer_json(
            id,
            request.answer.unwrap_or(Seq::empty()),
            request.references.unwrap_or(Seq::empty()),
        )
    } else {
        ask_failure_json(id, request.error.unwrap_or("Failed to answer question"@))
    }
}

/// The status and the body with which a question is answered.
pub open spec fn answer_reply(id: Seq<char>, request: AnswerRequestView) -> ReplyView {
    ReplyView {
        status: if request.ok.unwrap_or(true) {
            200
        } else {
            500
        },
        body: json_text(answer_tree(id, request)),
    }
}

/// The answers but for those to a question.
pub open spec fn other_results(results: Seq<AskResultView>, id: Seq<char>) -> Seq<AskResultView> {
    results.filter(|result: AskResultView| result.id != id)
}

/// The newest answers, as many as are kept.
pub open spec fn newest(results: Seq<AskResultView>) -> Seq<AskResultView> {
    if results.len() > MAX_ASK_RESULTS {
        results.skip(results.len() - MAX_ASK_RESULTS)
    } else {
        results
    }
}

/// The state and the reply after an answer came in.
pub open spec fn answer_stored(
    before: ServerView,
    request: Result<AnswerRequestView, Seq<char>>,
) -> (ServerView, Seq<char>) {
    match request {
        Err(error) => (before, failure_text("Invalid JSON: "@ + error)),
        Ok(request) => match nonblank(request.id) {
            None => (before, failure_text("id field is required"@)),
            Some(id) => match before.faults.ask_results {
                Some(error) => (before, failure_text("Lock error: "@ + error)),
                None => {
                    let reply = answer_reply(id, request);
                    let result = AskResultView { id, status: reply.status, body: reply.body };
                    (
                        ServerView {
                            ask_results: newest(other_results(before.ask_results, id).push(result)),
                            ..before
                        },
                        ok_text(),
                    )
                },
            },
        },
    }
}

/// Whether the body with which a question is answered reads as what the answer says. In the
/// references, a number that is no integer may be read as another such number.
pub open spec fn reads_as_answer(id: Seq<char>, request: AnswerRequestView) -> bool {
    let json = answer_tree(id, request);
    &&& parse_result(answer_reply(id, request).body) matches Ok(read)
    &&& read.field("ok"@) == Json::Bool(request.ok.unwrap_or(true))
    &&& read.field("id"@) == Json::Str(id)
    &&& read.field("answer"@) == json.field("answer"@)
    &&& read.field("error"@) == json.field("error"@)
    &&& request.ok != Some(false) ==> read.field("answer"@) == Json::Str(
        request.answer.unwrap_or(Seq::empty()),
    )
    &&& request.ok == Some(false) ==> read.field("error"@) == Json::Str(
        request.error.unwrap_or("Failed to answer question"@),
    )
    &&& json.alike(read, nesting_limit())
    &&& json.restorable(nesting_limit()) ==> read == json
}

/// Whether a reply to a question reads as an object that tells whether the question was
/// answered, as the status does, and which question it is.
pub open spec fn reads_as_reply(id: Seq<char>, status: u16, body: Seq<char>) -> bool {
    &&& parse_result(body) matches Ok(read)
    &&& read is Object
    &&& read.field("ok"@) == Json::Bool(status == 200)
    &&& read.field("id"@) == Json::Str(id)
}

/// Whether every stored answer reads as a reply to its question.
pub open spec fn answers_readable(view: ServerView) -> bool {
    forall|i: int|
        0 <= i < view.ask_results.len() ==> {
            let result = #[trigger] view.ask_results[i];
            reads_as_reply(result.id, result.status, result.body)
        }
}

/// Whether a stored answer is under an id that is not empty and has no white space at its
/// ends, and was made of what came in for that id: an answer or a failure.
pub open spec fn sound_result(result: AskResultView) -> bool {
    &&& result.id.len() > 0
    &&& trimmed(result.id) == result.id
    &&& (result.status == 200 && exists|answer: Seq<char>, references: Seq<Json>|
        result.body == json_text(#[trigger] answer_json(result.id, answer, references))) || (
    result.status == 500 && exists|message: Seq<char>|
        result.body == json_text(#[trigger] ask_failure_json(result.id, message)))
}

proof fn lemma_answer_nests(id: Seq<char>, json: Json)
    requires
        json.nests(nesting_limit()),
    ensures
        answer_tree(id, answer_members(json)).nests(nesting_limit()),
{
    reveal_with_fuel(Json::nests, 3);
    let request = answer_members(json);
    if let Some(items) = request.references {
        assert(json.field("references"@) == Json::Array(items));
        assert(items == request.references.unwrap_or(Seq::empty()));
    }
}

proof fn lemma_reads_as_answer(id: Seq<char>, request: AnswerRequestView)
    requires
        reads_alike(answer_reply(id, request).body, answer_tree(id, request)),
        answer_tree(id, request).restorable(nesting_limit()) ==> parse_result(
            answer_reply(id, request).body,
        ) == Ok::<Json, Seq<char>>(answer_tree(id, request)),
    ensures
        reads_as_answer(id, request),
        reads_as_reply(
            id,
            answer_reply(id, request).status,
            answer_reply(id, request).body,
        ),
{
    reveal_with_fuel(Json::alike, 2);
    reveal_strlit("ok");
    reveal_strlit("id");
    reveal_strlit("answer");
    reveal_strlit("error");
    reveal_strlit("references");
    assert("ok"@[0] != "id"@[0]);
    assert("answer"@.len() == 6);
    assert("error"@.len() == 5);
    assert("references"@.len() == 10);
    let json = answer_tree(id, request);
    let read = parse_result(answer_reply(id, request).body)->Ok_0;
    assert(json.field("ok"@) == Json::Bool(request.ok.unwrap_or(true)));
    assert(json.field("id"@) == Json::Str(id));
    assert(json->Object_0.dom() == read->Object_0.dom());
    assert(read->Object_0.contains_key("ok"@));
    assert(read->Object_0.contains_key("id"@));
    if request.ok.unwrap_or(true) {
        assert(json->Object_0.contains_key("answer"@));
        assert(!json->Object_0.contains_key("error"@));
    } else {
        assert(json->Object_0.contains_key("error"@));
        assert(!json->Object_0.contains_key("answer"@));
    }
}

/// The answers that are left and the one that came in are readable, where they were.
proof fn lemma_stored_answers(before: ServerView, id: Seq<char>, result: AskResultView)
    requires
        answers_readable(before),
        reads_as_reply(result.id, result.status, result.body),
    ensures
        ({
            let kept = newest(other_results(before.ask_results, id).push(result));
            answers_readable(ServerView { ask_results: kept, ..before })
        }),
{
    let keep = |result: AskResultView| result.id != id;
    let others = other_results(before.ask_results, id);
    let whole = others.push(result);
    let kept = newest(whole);
    assert forall|i: int| 0 <= i < kept.len() implies {
        let result = #[trigger] kept[i];
        reads_as_reply(result.id, result.status, result.body)
    } by {
        let k = i + whole.len() - kept.len();
        assert(kept[i] == whole[k]);
        if k < others.len() {
            let at = lemma_filter_at(before.ask_results, keep, k);
            assert(before.ask_results[at] == whole[k]);
        }
    }
}

/// Drops the answers to a question.
fn drop_results(results: &mut Vec<AskResult>, id: &str)
    ensures
        results_view(final(results)@) == other_results(results_view(old(results)@), id@),
{
    let ghost given = results_view(results@);
    let ghost mut done: int = 0;
    let mut i: usize = 0;
    proof {
        reveal(Seq::filter);
        assert(given.skip(0) == given);
    }
    while i < results.len()
        invariant
            i <= results@.len(),
            0 <= done <= given.len(),
            results@.len() - i == given.len() - done,
            results_view(results@).take(i as int) == other_results(given.take(done), id@),
            results_view(results@).skip(i as int) == given.skip(done),
        decreases results@.len() - i,
    {
        let ghost before = results_view(results@);
        proof {
            reveal(Seq::filter);
            assert(before[i as int] == before.skip(i as int)[0]);
            assert(given[done] == given.skip(done)[0]);
            assert(given.take(done + 1).drop_last() == given.take(done));
            assert(given.skip(done + 1) == given.skip(done).drop_first());
        }
        if same_text(results[i].id.as_str(), id) {
            results.remove(i);
            proof {
                let after = results_view(results@);
                assert(after.take(i as int) == before.take(i as int));
                assert(after.skip(i as int) == before.skip(i as int).drop_first());
            }
        } else {
            i = i + 1;
            proof {
                assert(before.take(i as int) == before.take(i - 1).push(before[i - 1]));
                assert(before.skip(i as int) == before.skip(i - 1).drop_first());
            }
        }
        proof {
            done = done + 1;
        }
    }
    assert(given.take(done) == given);
    assert(results_view(results@).take(i as int) == results_view(results@));
}

/// Drops the oldest answers, so that not too many are kept.
fn drop_oldest(results: &mut Vec<AskResult>)
    ensures
        results_view(final(results)@) == newest(results_view(old(results)@)),
{
    let ghost given = results_view(results@);
    let ghost mut dropped: int = 0;
    assert(given.skip(0) == given);
    while results.len() > MAX_ASK_RESULTS
        invariant
            0 <= dropped <= given.len(),
            results_view(results@) == given.skip(dropped),
            dropped > 0 ==> results@.len() >= MAX_ASK_RESULTS,
        decreases results@.len(),
    {
        let ghost before = results_view(results@);
        results.remove(0);
        proof {
            assert(results_view(results@) == before.drop_first());
            assert(given.skip(dropped + 1) == given.skip(dropped).drop_first());
            dropped = dropped + 1;
        }
    }
}

/// Keeps an answer for the request that asked.
pub fn store_answer(
    state: &mut ServerState,
    request: Result<AnswerRequest, String>,
) -> (reply: String)
    ensures
        (final(state)@, reply@) == answer_stored(old(state)@, answer_request_view(request)),
        answer_request_view(request) matches Ok(request) ==> (nonblank(request.id) matches Some(id)
            ==> (answer_tree(id, request).nests(nesting_limit()) ==> reads_as_answer(id, request)
            && (answers_readable(old(state)@) ==> answers_readable(final(state)@)))),
{
    let request = match request {
        Ok(request) => request,
        Err(error) => return failure_body(labelled("Invalid JSON: ", error.as_str()).as_str()),
    };
    let ghost given = request@;
    let id = match trim_nonblank(request.id) {
        Some(id) => id,
        None => return failure_body("id field is required"),
    };
    let ok = match request.ok {
        Some(ok) => ok,
        None => true,
    };
    let (status, body): (u16, String) = if ok {
        let answer = match request.answer {
            Some(answer) => answer,
            None => String::new(),
        };
        let references: Vec<serde_json::Value> = match request.references {
            Some(references) => references,
            None => Vec::new(),
        };
        assert(given.references is None ==> trees(references@) == Seq::<Json>::empty());
        (200, answer_object(id.as_str(), answer.as_str(), references))
    } else {
        let error = match request.error {
            Some(error) => error,
            None => "Failed to answer question".to_owned(),
        };
        (500, ask_failure_object(id.as_str(), error.as_str()))
    };
    proof {
        let json = answer_tree(id@, given);
        if json.nests(nesting_limit()) {
            lemma_reads_as_answer(id@, given);
            if answers_readable(state@) {
                lemma_stored_answers(state@, id@, AskResultView { id: id@, status, body: body@ });
            }
        }
    }
    match &state.faults.ask_results {
        Some(error) => failure_body(labelled("Lock error: ", error.as_str()).as_str()),
        None => {
            drop_results(&mut state.ask_results, id.as_str());
            let result = AskResult { id, status, body };
            let ghost others = state.ask_results@;
            state.ask_results.push(result);
            assert(results_view(state.ask_results@) == results_view(others).push(result@));
            drop_oldest(&mut state.ask_results);
            ok_body()
        },
    }
}

/// Handles the body of a request that answers a question.
pub fn handle_ask_answer(state: &mut ServerState, body: &str) -> (reply: String)
    ensures
        (final(state)@, reply@) == answer_stored(old(state)@, answered(parse_result(body@))),
        answered(parse_result(body@)) matches Ok(request) ==> (nonblank(request.id) matches Some(id)
            ==> reads_as_answer(id, request)),
        answers_readable(old(state)@) ==> answers_readable(final(state)@),
        parse_result(body@) is Err ==> status_of(reply@, 400) == 400,
{
    let request = read_answer(body);
    proof {
        match &request {
            Err(error) => lemma_invalid_json_status(error@, 400),
            Ok(_) => {
                let json = parse_result(body@)->Ok_0;
                if let Some(id) = nonblank(answer_members(json).id) {
                    lemma_answer_nests(id, json);
                }
            },
        }
    }
    store_answer(state, request)
}

/// What a request that waits for an answer does next.
pub enum AskPoll {
    Answered(Reply),
    Wait { nanos: u128 },
}

pub ghost enum AskPollView {
    Answered(ReplyView),
    Wait { nanos: int },
}

impl View for AskPoll {
    type V = AskPollView;

    open spec fn view(&self) -> AskPollView {
        match self {
            AskPoll::Answered(reply) => AskPollView::Answered(reply@),
            AskPoll::Wait { nanos } => AskPollView::Wait { nanos: *nanos as int },
        }
    }
}

/// The place of the first answer to a question; the number of answers where none is there.
pub open spec fn first_result(results: Seq<AskResultView>, id: Seq<char>) -> int
    decreases results.len(),
{
    if results.len() == 0 || results.first().id == id {
        0
    } else {
        1 + first_result(results.drop_first(), id)
    }
}

/// The first answer to a question is where no earlier one is for that question.
pub proof fn lemma_first_result(results: Seq<AskResultView>, id: Seq<char>, at: int)
    requires
        0 <= at <= results.len(),
        forall|i: int| 0 <= i < at ==> (#[trigger] results[i]).id != id,
        at < results.len() ==> results[at].id == id,
    ensures
        first_result(results, id) == at,
    decreases results.len(),
{
    if at > 0 {
        assert(results.first() == results[0]);
        assert forall|i: int| 0 <= i < at - 1 implies (#[trigger] results.drop_first()[i]).id
            != id by {
            assert(results[i + 1].id != id);
        }
        lemma_first_result(results.drop_first(), id, at - 1);
    }
}

/// The first answer to a question is one for that question, and none before it is.
pub proof fn lemma_first_result_bounds(results: Seq<AskResultView>, id: Seq<char>)
    ensures
        0 <= first_result(results, id) <= results.len(),
        first_result(results, id) < results.len() ==> results[first_result(results, id)].id == id,
        forall|i: int| 0 <= i < first_result(results, id) ==> (#[trigger] results[i]).id != id,
    decreases results.len(),
{
    if results.len() > 0 && results.first().id != id {
        lemma_first_result_bounds(results.drop_first(), id);
        let rest = results.drop_first();
        let at = first_result(rest, id);
        assert forall|i: int| 0 <= i < 1 + at implies (#[trigger] results[i]).id != id by {
            if i > 0 {
                assert(rest[i - 1] == results[i]);
            }
        }
        if at < rest.len() {
            assert(rest[at] == results[at + 1]);
        }
    }
}

/// Finds the first answer to a question.
fn find_result(results: &Vec<AskResult>, id: &str) -> (at: usize)
    ensures
        at == first_result(results_view(results@), id@),
        at <= results@.len(),
{
    for i in 0..results.len()
        invariant
            forall|k: int| 0 <= k < i ==> (#[trigger] results_view(results@)[k]).id != id@,
    {
        if same_text(results[i].id.as_str(), id) {
            proof {
                lemma_first_result(results_view(results@), id@, i as int);
            }
            return i;
        }
    }
    proof {
        lemma_first_result(results_view(results@), id@, results@.len() as int);
    }
    results.len()
}

/// What is said where no answer came in time.
pub open spec fn timed_out_message() -> Seq<char> {
    "Timed out waiting for the desktop app to answer. Make sure LLM Wiki is open and an LLM provider is configured."@
}

/// How many nanoseconds a question waits at most.
pub open spec fn timeout_nanos(timeout_ms: u64) -> int {
    timeout_ms * 1_000_000
}

/// The state after a look for the answer to a question, and what to do next.
///
/// An answer that is there is taken out and given. Where there is none, the question is
/// taken back once its time is over, and is waited for until then.
pub open spec fn ask_polled(
    before: ServerView,
    id: Seq<char>,
    timeout_ms: u64,
    elapsed_nanos: int,
) -> (ServerView, AskPollView) {
    let at = first_result(before.ask_results, id);
    match before.faults.ask_results {
        Some(error) => (
            ask_withdrawn(before, id),
            AskPollView::Answered(
                ReplyView {
                    status: 500,
                    body: json_text(ask_failure_json(id, "Lock error: "@ + error)),
                },
            ),
        ),
        None => if at < before.ask_results.len() {
            let result = before.ask_results[at];
            (
                ServerView { ask_results: before.ask_results.remove(at), ..before },
                AskPollView::Answered(ReplyView { status: result.status, body: result.body }),
            )
        } else if elapsed_nanos >= timeout_nanos(timeout_ms) {
            (
                ask_withdrawn(before, id),
                AskPollView::Answered(
                    ReplyView {
                        status: 504,
                        body: json_text(ask_failure_json(id, timed_out_message())),
                    },
                ),
            )
        } else {
            (before, AskPollView::Wait { nanos: timeout_nanos(timeout_ms) - elapsed_nanos })
        },
    }
}

/// Why a look for the answer to a question ends without one that was stored, if it does.
pub open spec fn failed_poll(
    before: ServerView,
    id: Seq<char>,
    timeout_ms: u64,
    elapsed_nanos: int,
) -> Option<Seq<char>> {
    match before.faults.ask_results {
        Some(error) => Some("Lock error: "@ + error),
        None => if first_result(before.ask_results, id) < before.ask_results.len()
            || elapsed_nanos < timeout_nanos(timeout_ms) {
            None
        } else {
            Some(timed_out_message())
        },
    }
}

/// Looks for the answer to a question that has waited for some time.
pub fn poll_ask(state: &mut ServerState, ticket: &AskTicket, elapsed_nanos: u128) -> (poll: AskPoll)
    ensures
        (final(state)@, poll@) == ask_polled(
            old(state)@,
            ticket.id@,
            ticket.timeout_ms,
            elapsed_nanos as int,
        ),
        // Every reply reads as one to the question, where the stored answers do.
        answers_readable(old(state)@) ==> answers_readable(final(state)@) && (
        poll@ matches AskPollView::Answered(reply) ==> reads_as_reply(
            ticket.id@,
            reply.status,
            reply.body,
        )),
        // A reply that was not stored reads as the failure that it tells of.
        failed_poll(
            old(state)@,
            ticket.id@,
            ticket.timeout_ms,
            elapsed_nanos as int,
        ) matches Some(message) ==> (poll@ matches AskPollView::Answered(reply) && parse_result(
            reply.body,
        ) == Ok::<Json, Seq<char>>(ask_failure_json(ticket.id@, message))),
{
    proof {
        reveal_strlit("ok");
        reveal_strlit("error");
        reveal_strlit("id");
        assert("ok"@[0] != "id"@[0]);
        assert("ok"@.len() != "error"@.len());
    }
    let fault = state.faults.ask_results.clone();
    if let Some(error) = fault {
        remove_pending_ask(state, ticket.id.as_str());
        let message = labelled("Lock error: ", error.as_str());
        let body = ask_failure_object(ticket.id.as_str(), message.as_str());
        return AskPoll::Answered(Reply { status: 500, body });
    }
    let at: usize = find_result(&state.ask_results, ticket.id.as_str());
    if at < state.ask_results.len() {
        let result = state.ask_results.remove(at);
        proof {
            lemma_first_result_bounds(old(state)@.ask_results, ticket.id@);
            let given = old(state)@.ask_results;
            assert(state@.ask_results == given.remove(at as int));
            assert(result@ == given[at as int]);
            assert forall|i: int| 0 <= i < state@.ask_results.len() implies given.contains(
                #[trigger] state@.ask_results[i],
            ) by {
                assert(state@.ask_results[i] == given[if i < at {
                    i
                } else {
                    i + 1
                }]);
            }
        }
        return AskPoll::Answered(Reply { status: result.status, body: result.body });
    }
    let limit: u128 = ticket.timeout_ms as u128 * 1_000_000;
    if elapsed_nanos >= limit {
        remove_pending_ask(state, ticket.id.as_str());
        let body = ask_failure_object(
            ticket.id.as_str(),
            "Timed out waiting for the desktop app to answer. Make sure LLM Wiki is open and an LLM provider is configured.",
        );
        return AskPoll::Answered(Reply { status: 504, body });
    }
    AskPoll::Wait { nanos: limit - elapsed_nanos }
}

} // verus!
