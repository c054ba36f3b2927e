//! What the requests that ask questions are for.
use crate::ask::{
    ask_accepted, ask_id, ask_queued, ask_started, ask_timeout, ask_withdrawn, asked, asks_json,
    listed_ask, next_number, other_asks, queued_at_some_time, refusal, AcceptedAskView,
    AskRequestView, AskStartView, RefusalView,
};
use crate::json::{json_text, parse_result, Json};
use crate::project_laws::{
    law_missing_project_is_told, law_named_project_is_chosen, law_open_project_is_chosen,
    text_under,
};
use crate::reply::{failure_json, ReplyView};
use crate::state::{PendingAskView, ServerView};
use crate::text::{decimal, nonblank, signed_decimal, slashed, trimmed};
use crate::text_laws::law_blank_texts_are_missing;
use vstd::prelude::*;

verus! {

// What is asked

/// A request asks what its object holds under the keys for a question, a project and a time to
/// wait. The time counts where it is an integer that is not negative and not too great.
pub proof fn law_question_is_read(members: Map<Seq<char>, Json>, other: Json, error: Seq<char>)
    requires
        !(other is Object),
    ensures
        asked(Ok(Json::Object(members))) == Ok::<AskRequestView, Seq<char>>(
            AskRequestView {
                question: text_under(members, "question"@),
                project_path: text_under(members, "projectPath"@),
                timeout_ms: if members.contains_key("timeoutMs"@) {
                    match members["timeoutMs"@] {
                        Json::Number(number) => match number.integer {
                            Some(n) => if 0 <= n <= u64::MAX {
                                Some(n as u64)
                            } else {
                                None
                            },
                            None => None,
                        },
                        _ => None,
                    }
                } else {
                    None
                },
            },
        ),
        asked(Ok(other)) == Ok::<AskRequestView, Seq<char>>(
            AskRequestView { question: None, project_path: None, timeout_ms: None },
        ),
        asked(Err(error)) == Err::<AskRequestView, Seq<char>>(error),
{
}

/// A question waits as long as is wanted, but for at least a second and for at most half an
/// hour; five minutes where nothing is wanted.
pub proof fn law_question_waits_as_long_as_wanted(wanted: u64)
    ensures
        1_000 <= wanted <= 1_800_000 ==> ask_timeout(Some(wanted)) == wanted,
        wanted < 1_000 ==> ask_timeout(Some(wanted)) == 1_000,
        wanted > 1_800_000 ==> ask_timeout(Some(wanted)) == 1_800_000,
        ask_timeout(None) == 300_000,
{
}

// What becomes of a question

/// A question that names a project is put before the desktop app for that project, whichever
/// one is open: with the text that was asked but for white space at its ends, under the id of
/// its ticket, behind those that wait. Nothing else changes but the number of the next question.
pub proof fn law_question_is_for_the_project_that_it_names(
    before: ServerView,
    request: AskRequestView,
    question: Seq<char>,
    own: Seq<char>,
    millis: i64,
)
    requires
        before.faults.pending_asks is None,
        nonblank(request.question) == Some(question),
        request.project_path == Some(own),
        own.len() > 0,
    ensures
        ({
            let (after, start) = ask_started(before, Ok(request), millis);
            let id = ask_id(millis, before.ask_counter);
            &&& start == AskStartView::Waiting { id, timeout_ms: ask_timeout(request.timeout_ms) }
            &&& after.pending_asks == before.pending_asks.push(
                PendingAskView { id, project_path: slashed(own), question },
            )
            &&& after == ServerView {
                pending_asks: after.pending_asks,
                ask_counter: next_number(before.ask_counter),
                ..before
            }
            &&& question == trimmed(request.question.unwrap())
        }),
{
    law_named_project_is_chosen(before, own);
    law_blank_texts_are_missing(request.question.unwrap());
}

/// A question that names no project is put before the desktop app for the open one.
pub proof fn law_question_is_for_the_open_project(
    before: ServerView,
    request: AskRequestView,
    question: Seq<char>,
    millis: i64,
)
    requires
        before.faults.pending_asks is None,
        before.faults.current_project is None,
        nonblank(request.question) == Some(question),
        request.project_path matches Some(own) ==> own.len() == 0,
        before.current_project.len() > 0,
    ensures
        ({
            let (after, start) = ask_started(before, Ok(request), millis);
            let id = ask_id(millis, before.ask_counter);
            &&& start == AskStartView::Waiting { id, timeout_ms: ask_timeout(request.timeout_ms) }
            &&& after.pending_asks == before.pending_asks.push(
                PendingAskView { id, project_path: slashed(before.current_project), question },
            )
            &&& after == ServerView {
                pending_asks: after.pending_asks,
                ask_counter: next_number(before.ask_counter),
                ..before
            }
        }),
{
    law_open_project_is_chosen(before, request.project_path);
}

/// A question is accepted for the project that it names, or else for the open one, with its text
/// but for white space at its ends, and with the time that it waits; whether the questions can
/// be reached does not matter yet.
pub proof fn law_question_is_accepted(
    view: ServerView,
    request: AskRequestView,
    question: Seq<char>,
    own: Seq<char>,
)
    requires
        nonblank(request.question) == Some(question),
    ensures
        request.project_path == Some(own) && own.len() > 0 ==> ask_accepted(view, Ok(request))
            == Ok::<AcceptedAskView, RefusalView>(
            AcceptedAskView {
                question,
                project_path: slashed(own),
                timeout_ms: ask_timeout(request.timeout_ms),
            },
        ),
        (request.project_path matches Some(path) ==> path.len() == 0)
            && view.faults.current_project is None && view.current_project.len() > 0
            ==> ask_accepted(view, Ok(request)) == Ok::<AcceptedAskView, RefusalView>(
            AcceptedAskView {
                question,
                project_path: slashed(view.current_project),
                timeout_ms: ask_timeout(request.timeout_ms),
            },
        ),
{
    if request.project_path == Some(own) && own.len() > 0 {
        law_named_project_is_chosen(view, own);
    }
    if request.project_path matches Some(path) ==> path.len() == 0 {
        law_open_project_is_chosen(view, request.project_path);
    }
}

/// The text of a question and the time that it waits are those of the request, whatever is open.
pub proof fn law_accepted_question_is_the_one_asked(
    view: ServerView,
    request: AskRequestView,
    accepted: AcceptedAskView,
)
    requires
        ask_accepted(view, Ok(request)) == Ok::<AcceptedAskView, RefusalView>(accepted),
    ensures
        request.question is Some,
        accepted.question == trimmed(request.question.unwrap()),
        accepted.question.len() > 0,
        accepted.project_path.len() > 0,
        accepted.timeout_ms == ask_timeout(request.timeout_ms),
{
}

/// The first thing that keeps a question from being asked is what it is refused with: a body
/// that is no JSON, no question, a failed lock, no project. Nothing changes then.
pub proof fn law_question_is_refused_with_the_reason(
    before: ServerView,
    request: AskRequestView,
    error: Seq<char>,
    millis: i64,
)
    ensures
        ask_started(before, Err(error), millis) == (
            before,
            AskStartView::Refused(
                ReplyView { status: 400, body: json_text(failure_json("Invalid JSON: "@ + error)) },
            ),
        ),
        nonblank(request.question) is None ==> ask_started(before, Ok(request), millis) == (
            before,
            AskStartView::Refused(
                ReplyView {
                    status: 400,
                    body: json_text(failure_json("question field is required"@)),
                },
            ),
        ),
        nonblank(request.question) is Some && (request.project_path matches Some(own) ==> own.len()
            == 0) ==> {
            match before.faults.current_project {
                Some(fault) => ask_started(before, Ok(request), millis) == (
                    before,
                    AskStartView::Refused(
                        ReplyView {
                            status: 500,
                            body: json_text(failure_json("Lock error: "@ + fault)),
                        },
                    ),
                ),
                None => before.current_project.len() == 0 ==> ask_started(
                    before,
                    Ok(request),
                    millis,
                ) == (
                    before,
                    AskStartView::Refused(
                        ReplyView {
                            status: 400,
                            body: json_text(
                                failure_json(
                                    "projectPath is required (set via POST /project or include in request body)"@,
                                ),
                            ),
                        },
                    ),
                ),
            }
        },
{
    law_missing_project_is_told();
    if request.project_path matches Some(own) ==> own.len() == 0 {
        law_open_project_is_chosen(before, request.project_path);
    }
}

/// Where the lock of the questions fails, a question is refused with the error of that lock; its
/// number is used up, and nothing else changes.
pub proof fn law_question_is_not_queued_behind_a_failed_lock(
    before: ServerView,
    ask: AcceptedAskView,
    millis: i64,
    error: Seq<char>,
)
    requires
        before.faults.pending_asks == Some(error),
    ensures
        ask_queued(before, ask, millis) == (
            ServerView { ask_counter: next_number(before.ask_counter), ..before },
            AskStartView::Refused(
                ReplyView { status: 500, body: json_text(failure_json("Lock error: "@ + error)) },
            ),
        ),
{
}

/// The id of a question tells the time when it was asked and its number.
pub proof fn law_ids_tell_time_and_number(millis: i64, number: u64)
    ensures
        ask_id(millis, number) == "ask_"@ + signed_decimal(millis as int) + "_"@ + decimal(
            number as nat,
        ),
{
}

/// An accepted question is put behind those that wait, as it is, and under the time and the
/// number that it has.
pub proof fn law_accepted_question_is_queued(
    before: ServerView,
    ask: AcceptedAskView,
    millis: i64,
)
    requires
        before.faults.pending_asks is None,
    ensures
        ({
            let (after, start) = ask_queued(before, ask, millis);
            let id = "ask_"@ + signed_decimal(millis as int) + "_"@ + decimal(
                before.ask_counter as nat,
            );
            &&& start == AskStartView::Waiting { id, timeout_ms: ask.timeout_ms }
            &&& after.pending_asks.len() == before.pending_asks.len() + 1
            &&& after.pending_asks.take(before.pending_asks.len() as int) == before.pending_asks
            &&& after.pending_asks.last().id == id
            &&& after.pending_asks.last().question == ask.question
            &&& after.pending_asks.last().project_path == ask.project_path
            &&& after == ServerView {
                pending_asks: after.pending_asks,
                ask_counter: after.ask_counter,
                ..before
            }
            &&& before.ask_counter < u64::MAX ==> after.ask_counter == before.ask_counter + 1
            &&& before.ask_counter == u64::MAX ==> after.ask_counter == 0
        }),
{
    let after = ask_queued(before, ask, millis).0;
    assert(after.pending_asks.take(before.pending_asks.len() as int) == before.pending_asks);
}

/// A question that was put before the desktop app at some time is there as it was accepted, behind
/// those that wait, and its ticket has its id and the time that it waits.
pub proof fn law_queued_question_is_there(
    before: ServerView,
    ask: AcceptedAskView,
    after: ServerView,
    start: AskStartView,
)
    requires
        queued_at_some_time(before, ask, after, start),
        before.faults.pending_asks is None,
    ensures
        after.pending_asks.len() == before.pending_asks.len() + 1,
        after.pending_asks.take(before.pending_asks.len() as int) == before.pending_asks,
        after.pending_asks.last().question == ask.question,
        after.pending_asks.last().project_path == ask.project_path,
        start == (AskStartView::Waiting {
            id: after.pending_asks.last().id,
            timeout_ms: ask.timeout_ms,
        }),
        exists|millis: i64|
            after.pending_asks.last().id == #[trigger] ask_id(millis, before.ask_counter),
        after == (ServerView {
            pending_asks: after.pending_asks,
            ask_counter: after.ask_counter,
            ..before
        }),
        before.ask_counter < u64::MAX ==> after.ask_counter == before.ask_counter + 1,
{
    let millis = choose|millis: i64| (after, start) == #[trigger] ask_queued(before, ask, millis);
    law_accepted_question_is_queued(before, ask, millis);
    law_ids_tell_time_and_number(millis, before.ask_counter);
}

/// A reply that reads as a refusal has its status, is the object with its message, and is read as
/// that object again.
pub proof fn law_refusals_are_read(refused: RefusalView, reply: ReplyView)
    requires
        refused.reads(reply),
    ensures
        reply.status == refused.status,
        reply.body == json_text(failure_json(refused.message)),
        parse_result(reply.body) == Ok::<Json, Seq<char>>(failure_json(refused.message)),
{
}

/// What a refusal says is the message that goes with it, and that it is no success.
pub proof fn law_refusals_tell_their_message(status: u16, message: Seq<char>)
    ensures
        refusal(status, message).reply() == (ReplyView {
            status,
            body: json_text(failure_json(message)),
        }),
        failure_json(message) is Object,
        failure_json(message)->Object_0.dom() =~= set!["ok"@, "error"@],
        failure_json(message)->Object_0["ok"@] == Json::Bool(false),
        failure_json(message)->Object_0["error"@] == Json::Str(message),
{
    reveal_strlit("ok");
    reveal_strlit("error");
    assert("ok"@.len() != "error"@.len());
}

// The questions that wait

/// Every question that waits is handed out at its place, with its id, its project and its text,
/// and with nothing else.
pub proof fn law_questions_are_handed_out(view: ServerView, at: int)
    requires
        0 <= at < view.pending_asks.len(),
    ensures
        ({
            let members = asks_json(view)->Object_0;
            let items = members["asks"@]->Array_0;
            let item = items[at]->Object_0;
            &&& asks_json(view) is Object
            &&& members.dom() =~= set!["ok"@, "asks"@]
            &&& members["ok"@] == Json::Bool(true)
            &&& members["asks"@] is Array
            &&& items.len() == view.pending_asks.len()
            &&& items[at] is Object
            &&& item.dom() =~= set!["id"@, "projectPath"@, "question"@]
            &&& item["id"@] == Json::Str(view.pending_asks[at].id)
            &&& item["projectPath"@] == Json::Str(view.pending_asks[at].project_path)
            &&& item["question"@] == Json::Str(view.pending_asks[at].question)
        }),
{
    reveal_strlit("ok");
    reveal_strlit("asks");
    reveal_strlit("id");
    reveal_strlit("projectPath");
    reveal_strlit("question");
    assert("ok"@.len() != "asks"@.len());
    assert("id"@.len() == 2);
    assert("projectPath"@.len() == 11);
    assert("question"@.len() == 8);
    let items = asks_json(view)->Object_0["asks"@]->Array_0;
    assert(items[at] == listed_ask(view.pending_asks[at]));
}

/// A question that is sent with a project is handed to the desktop app as the last one, with the
/// text that was sent but for white space at its ends, for the project that was sent.
pub proof fn law_sent_question_is_handed_out(
    before: ServerView,
    members: Map<Seq<char>, Json>,
    text: Seq<char>,
    own: Seq<char>,
    millis: i64,
)
    requires
        before.faults.pending_asks is None,
        members.contains_key("question"@),
        members["question"@] == Json::Str(text),
        nonblank(Some(text)) is Some,
        members.contains_key("projectPath"@),
        members["projectPath"@] == Json::Str(own),
        own.len() > 0,
    ensures
        ({
            let after = ask_started(before, asked(Ok(Json::Object(members))), millis).0;
            let item = asks_json(after)->Object_0["asks"@]->Array_0.last()->Object_0;
            &&& item["question"@] == Json::Str(trimmed(text))
            &&& item["projectPath"@] == Json::Str(slashed(own))
            &&& item["id"@] == Json::Str(ask_id(millis, before.ask_counter))
        }),
{
    let request = asked(Ok(Json::Object(members)))->Ok_0;
    law_question_is_read(members, Json::Null, Seq::empty());
    law_blank_texts_are_missing(text);
    law_question_is_for_the_project_that_it_names(before, request, trimmed(text), own, millis);
    let after = ask_started(before, asked(Ok(Json::Object(members))), millis).0;
    law_questions_are_handed_out(after, after.pending_asks.len() - 1);
}

/// Where no question waits, an empty list is handed out.
pub proof fn law_no_questions_are_handed_out(view: ServerView)
    requires
        view.pending_asks.len() == 0,
    ensures
        asks_json(view) == Json::Object(
            map!["ok"@ => Json::Bool(true), "asks"@ => Json::Array(Seq::empty())],
        ),
{
    let items = view.pending_asks.map_values(|ask: PendingAskView| listed_ask(ask));
    assert(items == Seq::<Json>::empty());
}

/// Taking a question back takes out what has its id, and leaves every other question, in the
/// order that they had: of two lists one behind the other, what is left of the first and then
/// what is left of the second. Nothing but the questions changes, and not even they where
/// their lock fails.
pub proof fn law_withdrawal_leaves_the_others(
    before: ServerView,
    id: Seq<char>,
    first: Seq<PendingAskView>,
    second: Seq<PendingAskView>,
    ask: PendingAskView,
)
    ensures
        ({
            let after = ask_withdrawn(before, id);
            &&& after == ServerView { pending_asks: after.pending_asks, ..before }
            &&& before.faults.pending_asks is Some ==> after == before
            &&& before.faults.pending_asks is None ==> {
                let left = |asks: Seq<PendingAskView>|
                    ask_withdrawn(ServerView { pending_asks: asks, ..before }, id).pending_asks;
                &&& left(first + second) == left(first) + left(second)
                &&& ask.id == id ==> left(seq![ask]).len() == 0
                &&& ask.id != id ==> left(seq![ask]) == seq![ask]
                &&& left(Seq::empty()).len() == 0
            }
        }),
{
    let keep = |ask: PendingAskView| ask.id != id;
    Seq::filter_distributes_over_add(first, second, keep);
    reveal_with_fuel(Seq::filter, 2);
    assert(seq![ask].drop_last() == Seq::<PendingAskView>::empty());
    assert(other_asks(seq![ask], id).len() == 0 || other_asks(seq![ask], id) == seq![ask]);
}

} // verus!
