//! What the answers to questions are for.
use crate::answer::{
    answer_json, answer_reply, answer_stored, answered, ask_failure_json, ask_polled,
    failed_poll, lemma_first_result, lemma_first_result_bounds, newest, other_results,
    reads_as_answer, AnswerRequestView, AskPollView,
};
use crate::ask::ask_withdrawn;
use crate::json::{json_text, parse_result, Json};
use crate::laws::law_answer_reaches_its_question;
use crate::lists::lemma_filter_all;
use crate::project_laws::text_under;
use crate::reply::ReplyView;
use crate::state::{AskResultView, ServerView};
use crate::text::nonblank;
use vstd::prelude::*;

verus! {

// What is answered

/// An answer says what its object holds under the keys for an id, a mark of success, a text, a
/// list of references and an error, each where it is of the right kind.
pub proof fn law_answer_is_read(members: Map<Seq<char>, Json>, other: Json, error: Seq<char>)
    requires
        !(other is Object),
    ensures
        answered(Ok(Json::Object(members))) == Ok::<AnswerRequestView, Seq<char>>(
            AnswerRequestView {
                id: text_under(members, "id"@),
                ok: if members.contains_key("ok"@) && members["ok"@] is Bool {
                    Some(members["ok"@]->Bool_0)
                } else {
                    None
                },
                answer: text_under(members, "answer"@),
                references: if members.contains_key("references"@)
                    && members["references"@] is Array {
                    Some(members["references"@]->Array_0)
                } else {
                    None
                },
                error: text_under(members, "error"@),
            },
        ),
        answered(Ok(other)) == Ok::<AnswerRequestView, Seq<char>>(
            AnswerRequestView {
                id: None,
                ok: None,
                answer: None,
                references: None,
                error: None,
            },
        ),
        answered(Err(error)) == Err::<AnswerRequestView, Seq<char>>(error),
{
}

/// Unless the desktop app says that it failed, the request that asked is told the whole text and
/// all the references that came in, whether a mark of success came with them or not, and
/// whatever error came with them.
pub proof fn law_answer_is_told(id: Seq<char>, request: AnswerRequestView)
    requires
        request.ok != Some(false),
    ensures
        answer_reply(id, request).status == 200,
        request.answer matches Some(answer) ==> (request.references matches Some(references)
            ==> answer_reply(id, request).body == json_text(answer_json(id, answer, references))),
        request.answer matches Some(answer) ==> (request.references is None ==> answer_reply(
            id,
            request,
        ).body == json_text(answer_json(id, answer, Seq::empty()))),
        request.answer is None ==> (request.references matches Some(references) ==> answer_reply(
            id,
            request,
        ).body == json_text(answer_json(id, Seq::empty(), references))),
        request.answer is None && request.references is None ==> answer_reply(id, request).body
            == json_text(answer_json(id, Seq::empty(), Seq::empty())),
{
}

/// Where the desktop app says that it failed, the request that asked is told the error that came
/// in, or else that the question could not be answered.
pub proof fn law_failed_answer_is_told(id: Seq<char>, request: AnswerRequestView)
    requires
        request.ok == Some(false),
    ensures
        answer_reply(id, request).status == 500,
        request.error matches Some(error) ==> answer_reply(id, request).body == json_text(
            ask_failure_json(id, error),
        ),
        request.error is None ==> answer_reply(id, request).body == json_text(
            ask_failure_json(id, "Failed to answer question"@),
        ),
{
}

/// The object of an answer holds the mark of success, the id of the question, the text and the
/// references, as they are, and nothing else.
pub proof fn law_answers_hold_what_came_in(
    id: Seq<char>,
    answer: Seq<char>,
    references: Seq<Json>,
)
    ensures
        ({
            let members = answer_json(id, answer, references)->Object_0;
            &&& answer_json(id, answer, references) is Object
            &&& members.dom() =~= set!["ok"@, "id"@, "answer"@, "references"@]
            &&& members["ok"@] == Json::Bool(true)
            &&& members["id"@] == Json::Str(id)
            &&& members["answer"@] == Json::Str(answer)
            &&& members["references"@] == Json::Array(references)
        }),
{
    reveal_strlit("ok");
    reveal_strlit("id");
    reveal_strlit("answer");
    reveal_strlit("references");
    assert("ok"@[0] != "id"@[0]);
    assert("answer"@.len() == 6);
    assert("references"@.len() == 10);
}

/// The object of a failure to answer holds the mark of failure, the id of the question and the
/// error, and nothing else.
pub proof fn law_failures_hold_the_error(id: Seq<char>, message: Seq<char>)
    ensures
        ({
            let members = ask_failure_json(id, message)->Object_0;
            &&& ask_failure_json(id, message) is Object
            &&& members.dom() =~= set!["ok"@, "id"@, "error"@]
            &&& members["ok"@] == Json::Bool(false)
            &&& members["id"@] == Json::Str(id)
            &&& members["error"@] == Json::Str(message)
        }),
{
    reveal_strlit("ok");
    reveal_strlit("id");
    reveal_strlit("error");
    assert("ok"@[0] != "id"@[0]);
    assert("error"@.len() == 5);
}

// How answers are kept

/// An answer that comes in is kept as the newest one, under its id without the white space at
/// its ends. Nothing but the answers changes.
pub proof fn law_answer_is_kept_as_the_newest(
    before: ServerView,
    request: AnswerRequestView,
    id: Seq<char>,
)
    requires
        before.faults.ask_results is None,
        nonblank(request.id) == Some(id),
    ensures
        ({
            let (after, reply) = answer_stored(before, Ok(request));
            let told = answer_reply(id, request);
            &&& reply == "{\"ok\":true}"@
            &&& after == ServerView { ask_results: after.ask_results, ..before }
            &&& 0 < after.ask_results.len() <= 100
            &&& after.ask_results.last() == AskResultView {
                id,
                status: told.status,
                body: told.body,
            }
        }),
{
}

/// Where all the answers that are there are for other questions and there is room, they stay as
/// they are, and the one that comes in is put behind them. Where there are a hundred, the oldest
/// makes room.
pub proof fn law_other_answers_are_kept(
    before: ServerView,
    request: AnswerRequestView,
    id: Seq<char>,
)
    requires
        before.faults.ask_results is None,
        nonblank(request.id) == Some(id),
        forall|i: int| 0 <= i < before.ask_results.len() ==> (#[trigger] before.ask_results[i]).id
            != id,
        before.ask_results.len() <= 100,
    ensures
        ({
            let kept = answer_stored(before, Ok(request)).0.ask_results.drop_last();
            if before.ask_results.len() < 100 {
                kept == before.ask_results
            } else {
                kept == before.ask_results.drop_first()
            }
        }),
{
    let keep = |result: AskResultView| result.id != id;
    assert forall|i: int| 0 <= i < before.ask_results.len() implies keep(
        #[trigger] before.ask_results[i],
    ) by {
        assert(before.ask_results[i].id != id);
    }
    lemma_filter_all(before.ask_results, keep);
    assert(other_results(before.ask_results, id) == before.ask_results);
    let kept = answer_stored(before, Ok(request)).0.ask_results.drop_last();
    if before.ask_results.len() < 100 {
        assert(kept == before.ask_results);
    } else {
        assert(kept == before.ask_results.drop_first());
    }
}

/// An answer that comes in takes the place of the one that is there for its question, and of no
/// other: those before it and those behind it stay, in their order.
pub proof fn law_answer_replaces_the_one_for_its_question(
    before: ServerView,
    request: AnswerRequestView,
    id: Seq<char>,
    at: int,
)
    requires
        before.faults.ask_results is None,
        nonblank(request.id) == Some(id),
        0 <= at < before.ask_results.len() <= 100,
        before.ask_results[at].id == id,
        forall|i: int| 0 <= i < before.ask_results.len() && i != at ==> (
        #[trigger] before.ask_results[i]).id != id,
    ensures
        answer_stored(before, Ok(request)).0.ask_results.drop_last() == before.ask_results.remove(
            at,
        ),
{
    let keep = |result: AskResultView| result.id != id;
    let given = before.ask_results;
    let head = given.take(at);
    let tail = given.skip(at + 1);
    assert(given == head + seq![given[at]] + tail);
    Seq::filter_distributes_over_add(head + seq![given[at]], tail, keep);
    Seq::filter_distributes_over_add(head, seq![given[at]], keep);
    reveal_with_fuel(Seq::filter, 2);
    assert(seq![given[at]].drop_last() == Seq::<AskResultView>::empty());
    assert(seq![given[at]].filter(keep) == Seq::<AskResultView>::empty());
    assert forall|i: int| 0 <= i < head.len() implies keep(#[trigger] head[i]) by {
        assert(head[i] == given[i]);
    }
    assert forall|i: int| 0 <= i < tail.len() implies keep(#[trigger] tail[i]) by {
        assert(tail[i] == given[i + at + 1]);
    }
    lemma_filter_all(head, keep);
    lemma_filter_all(tail, keep);
    assert(given.remove(at) == head + tail);
    assert(other_results(given, id) == given.remove(at));
    assert(answer_stored(before, Ok(request)).0.ask_results.drop_last() == given.remove(at));
}

/// An answer that cannot be kept changes nothing, and is told why: a body that is no JSON, no id,
/// a failed lock.
pub proof fn law_answer_is_refused_with_the_reason(
    before: ServerView,
    request: AnswerRequestView,
    error: Seq<char>,
)
    ensures
        answer_stored(before, Err(error)) == (
            before,
            "{\"ok\":false,\"error\":\"Invalid JSON: "@ + error + "\"}"@,
        ),
        nonblank(request.id) is None ==> answer_stored(before, Ok(request)) == (
            before,
            "{\"ok\":false,\"error\":\"id field is required\"}"@,
        ),
        nonblank(request.id) is Some ==> (before.faults.ask_results matches Some(fault)
            ==> answer_stored(before, Ok(request)) == (
            before,
            "{\"ok\":false,\"error\":\"Lock error: "@ + fault + "\"}"@,
        )),
{
    reveal_strlit("{\"ok\":false,\"error\":\"");
    reveal_strlit("\"}");
    reveal_strlit("id field is required");
    reveal_strlit("{\"ok\":false,\"error\":\"id field is required\"}");
    reveal_strlit("Invalid JSON: ");
    reveal_strlit("{\"ok\":false,\"error\":\"Invalid JSON: ");
    reveal_strlit("Lock error: ");
    reveal_strlit("{\"ok\":false,\"error\":\"Lock error: ");
    assert(answer_stored(before, Err(error)).1 == "{\"ok\":false,\"error\":\"Invalid JSON: "@
        + error + "\"}"@);
    if nonblank(request.id) is None {
        assert(answer_stored(before, Ok(request)).1
            == "{\"ok\":false,\"error\":\"id field is required\"}"@);
    } else if let Some(fault) = before.faults.ask_results {
        assert(answer_stored(before, Ok(request)).1 == "{\"ok\":false,\"error\":\"Lock error: "@
            + fault + "\"}"@);
    }
}

// How answers are given

/// The request that asked is given the first answer that is there for its question, as it was
/// kept, however long it has waited; that answer is gone then, and nothing else changes.
pub proof fn law_kept_answer_is_given(
    before: ServerView,
    id: Seq<char>,
    timeout_ms: u64,
    elapsed_nanos: int,
    at: int,
)
    requires
        before.faults.ask_results is None,
        0 <= at < before.ask_results.len(),
        before.ask_results[at].id == id,
        forall|i: int| 0 <= i < at ==> (#[trigger] before.ask_results[i]).id != id,
    ensures
        ask_polled(before, id, timeout_ms, elapsed_nanos) == (
            ServerView { ask_results: before.ask_results.remove(at), ..before },
            AskPollView::Answered(
                ReplyView {
                    status: before.ask_results[at].status,
                    body: before.ask_results[at].body,
                },
            ),
        ),
{
    lemma_first_result(before.ask_results, id, at);
}

/// The text and the references that the desktop app sends for a question are what the request that
/// asked gets, whether a mark of success is sent with them or not.
pub proof fn law_sent_answer_is_given(
    before: ServerView,
    members: Map<Seq<char>, Json>,
    id: Seq<char>,
    text: Seq<char>,
    references: Seq<Json>,
    timeout_ms: u64,
    elapsed_nanos: int,
)
    requires
        before.faults.ask_results is None,
        members.contains_key("id"@) && members["id"@] is Str,
        nonblank(Some(members["id"@]->Str_0)) == Some(id),
        members.contains_key("ok"@) ==> members["ok"@] != Json::Bool(false),
        members.contains_key("answer"@) && members["answer"@] == Json::Str(text),
        members.contains_key("references"@) && members["references"@] == Json::Array(references),
    ensures
        ({
            let stored = answer_stored(before, answered(Ok(Json::Object(members)))).0;
            ask_polled(stored, id, timeout_ms, elapsed_nanos).1 == AskPollView::Answered(
                ReplyView {
                    status: 200,
                    body: json_text(
                        Json::Object(
                            map![
                                "ok"@ => Json::Bool(true),
                                "id"@ => Json::Str(id),
                                "answer"@ => Json::Str(text),
                                "references"@ => Json::Array(references),
                            ],
                        ),
                    ),
                },
            )
        }),
{
    let request = answered(Ok(Json::Object(members)))->Ok_0;
    law_answer_is_read(members, Json::Null, Seq::empty());
    law_answer_is_told(id, request);
    law_answer_reaches_its_question(before, request, id, timeout_ms, elapsed_nanos);
}

/// While no answer is there for a question, it waits until as many milliseconds have passed as
/// it was given; then it is taken back, and the request that asked is told that the time is over.
pub proof fn law_question_waits_for_its_time(
    before: ServerView,
    id: Seq<char>,
    timeout_ms: u64,
    elapsed_nanos: int,
)
    requires
        before.faults.ask_results is None,
        forall|i: int| 0 <= i < before.ask_results.len() ==> (#[trigger] before.ask_results[i]).id
            != id,
    ensures
        elapsed_nanos < timeout_ms * 1_000_000 ==> ask_polled(before, id, timeout_ms, elapsed_nanos)
            == (before, AskPollView::Wait { nanos: timeout_ms * 1_000_000 - elapsed_nanos }),
        elapsed_nanos >= timeout_ms * 1_000_000 ==> ask_polled(
            before,
            id,
            timeout_ms,
            elapsed_nanos,
        ) == (
            ask_withdrawn(before, id),
            AskPollView::Answered(
                ReplyView {
                    status: 504,
                    body: json_text(
                        ask_failure_json(
                            id,
                            "Timed out waiting for the desktop app to answer. Make sure LLM Wiki is open and an LLM provider is configured."@,
                        ),
                    ),
                },
            ),
        ),
{
    lemma_first_result(before.ask_results, id, before.ask_results.len() as int);
}

/// A look for an answer fails where the lock of the answers does, or where the time is over and
/// no answer is there; else it does not.
pub proof fn law_failed_looks(
    before: ServerView,
    id: Seq<char>,
    timeout_ms: u64,
    elapsed_nanos: int,
)
    ensures
        before.faults.ask_results matches Some(error) ==> failed_poll(
            before,
            id,
            timeout_ms,
            elapsed_nanos,
        ) == Some("Lock error: "@ + error),
        before.faults.ask_results is None ==> (failed_poll(before, id, timeout_ms, elapsed_nanos)
            is Some <==> elapsed_nanos >= timeout_ms * 1_000_000 && (forall|i: int|
            0 <= i < before.ask_results.len() ==> (#[trigger] before.ask_results[i]).id != id)),
        before.faults.ask_results is None ==> (failed_poll(
            before,
            id,
            timeout_ms,
            elapsed_nanos,
        ) matches Some(message) ==> message
            == "Timed out waiting for the desktop app to answer. Make sure LLM Wiki is open and an LLM provider is configured."@),
{
    lemma_first_result_bounds(before.ask_results, id);
}

/// A body that reads as an answer holds what came in: the id of the question, and the text or the
/// error that the desktop app gave.
pub proof fn law_answers_are_read(id: Seq<char>, request: AnswerRequestView)
    requires
        reads_as_answer(id, request),
    ensures
        ({
            let read = parse_result(answer_reply(id, request).body)->Ok_0;
            &&& parse_result(answer_reply(id, request).body) is Ok
            &&& read.field("id"@) == Json::Str(id)
            &&& request.ok == Some(false) ==> read.field("ok"@) == Json::Bool(false)
            &&& request.ok != Some(false) ==> read.field("ok"@) == Json::Bool(true)
            &&& request.ok != Some(false) && request.answer is Some ==> read.field("answer"@)
                == Json::Str(request.answer.unwrap())
            &&& request.ok != Some(false) && request.answer is None ==> read.field("answer"@)
                == Json::Str(Seq::empty())
            &&& request.ok == Some(false) && request.error is Some ==> read.field("error"@)
                == Json::Str(request.error.unwrap())
        }),
{
}

/// Where the lock of the answers fails, the question is taken back at once, and the request that
/// asked is told the error of the lock.
pub proof fn law_question_ends_with_a_failed_lock(
    before: ServerView,
    id: Seq<char>,
    timeout_ms: u64,
    elapsed_nanos: int,
    error: Seq<char>,
)
    requires
        before.faults.ask_results == Some(error),
    ensures
        ask_polled(before, id, timeout_ms, elapsed_nanos) == (
            ask_withdrawn(before, id),
            AskPollView::Answered(
                ReplyView {
                    status: 500,
                    body: json_text(ask_failure_json(id, "Lock error: "@ + error)),
                },
            ),
        ),
{
}

} // verus!
