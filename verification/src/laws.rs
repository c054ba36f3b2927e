//! What holds of requests together.
use crate::answer::{
    answer_json, answer_reply, answer_stored, answered, ask_failure_json, ask_polled,
    first_result, lemma_first_result, lemma_first_result_bounds, newest, other_results,
    sound_result, timeout_nanos, AnswerRequestView, AskPollView,
};
use crate::ask::{
    ask_id, ask_started, ask_timeout, ask_withdrawn, asks_json, listed_ask, next_number,
    numbered_before, other_asks, AskRequestView, AskStartView, MAX_ASK_TIMEOUT_MS,
    MIN_ASK_TIMEOUT_MS,
};
use crate::clip::{
    clip_accepted, clip_advanced, clips_json, event_fits, listed_clip, ClipEvent,
    ClipRequestView, ClipStepView,
};
use crate::http::{answer_with, responded, Route};
use crate::json::{json_text, listing, ok_mark, parse_result, Json};
use crate::lists::{
    lemma_filter_again, lemma_filter_all, lemma_filter_at, lemma_filter_order,
    lemma_filters_commute,
};
use crate::project::{
    given_projects, listed_project, named_path, no_project_message, project_json,
    project_opened, projects_json, with_path,
};
use crate::reply::{
    failure_text, law_failure_status, law_ok_status, lemma_invalid_json_status,
    lemma_labelled_unmarked, status_of,
};
use crate::state::{AskResultView, FaultsView, PendingAskView, ServerView};
use crate::text::{
    decimal, is_white, lemma_decimal_digits, lemma_decimal_injective, lemma_signed_decimal,
    lemma_signed_decimal_injective, lemma_trimmed_again, nonblank, occurs_in, signed_decimal,
    slashed, trimmed,
};
use vstd::prelude::*;

verus! {

// Paths

/// A text with slashes for backslashes has no backslash.
pub proof fn law_slashed_has_no_backslash(text: Seq<char>)
    ensures
        !slashed(text).contains('\\'),
{
}

/// A text without a backslash stays as it is.
pub proof fn law_slashed_keeps(text: Seq<char>)
    requires
        !text.contains('\\'),
    ensures
        slashed(text) == text,
{
    assert forall|i: int| 0 <= i < text.len() implies slashed(text)[i] == text[i] by {
        assert(text.contains(text[i]));
    }
    assert(slashed(text) == text);
}

/// The project that a request opened is the one that is shown, with slashes for
/// backslashes.
pub proof fn law_opened_project_is_shown(
    before: ServerView,
    path: Seq<char>,
    body: Result<Seq<char>, Seq<char>>,
)
    requires
        before.faults.current_project is None,
    ensures
        ({
            let (opened, reply) = project_opened(before, Ok(Some(path)));
            &&& status_of(reply, 400) == 200
            &&& responded(opened, Route::GetProject, body) == (
                opened,
                answer_with(200, json_text(project_json(slashed(path)))),
            )
        }),
{
    law_ok_status(400);
}

/// In the list of the projects, just those count as open that have the path of the open
/// project.
pub proof fn law_current_project_is_marked(view: ServerView, i: int)
    requires
        0 <= i < view.projects.len(),
    ensures
        ({
            let item = projects_json(view).field("projects"@).as_array().unwrap()[i];
            &&& item.field("name"@).as_str() == Some(view.projects[i].0)
            &&& item.field("path"@).as_str() == Some(view.projects[i].1)
            &&& item.field("current"@).as_bool() == Some(
                view.projects[i].1 == view.current_project,
            )
        }),
{
    reveal_strlit("ok");
    reveal_strlit("projects");
    reveal_strlit("name");
    reveal_strlit("path");
    reveal_strlit("current");
    assert("name"@[0] != "path"@[0]);
    assert("current"@.len() != "path"@.len());
    assert("ok"@.len() != "projects"@.len());
    let item = listed_project(view.projects[i], view.current_project);
    assert(projects_json(view).field("projects"@).as_array().unwrap()[i] == item);
}

// Lists that are handed out

/// The waiting clips are handed out once.
pub proof fn law_clips_are_handed_out_once(
    before: ServerView,
    body: Result<Seq<char>, Seq<char>>,
)
    ensures
        ({
            let after = responded(before, Route::PendingClips, body).0;
            responded(after, Route::PendingClips, body) == (
                after,
                answer_with(200, json_text(listing("clips"@, Seq::empty()))),
            )
        }),
{
    let after = responded(before, Route::PendingClips, body).0;
    assert(after.pending_clips.map_values(
        |clip: (Seq<char>, Seq<char>)| listed_clip(clip),
    ) == Seq::<Json>::empty());
    assert(clips_json(after) == listing("clips"@, Seq::empty()));
}

/// The questions are handed out once.
pub proof fn law_asks_are_handed_out_once(before: ServerView, body: Result<Seq<char>, Seq<char>>)
    ensures
        ({
            let after = responded(before, Route::PendingAsks, body).0;
            responded(after, Route::PendingAsks, body) == (
                after,
                answer_with(200, json_text(listing("asks"@, Seq::empty()))),
            )
        }),
{
    let after = responded(before, Route::PendingAsks, body).0;
    assert(after.pending_asks.map_values(|ask: PendingAskView| listed_ask(ask)) == Seq::<
        Json,
    >::empty());
    assert(asks_json(after) == listing("asks"@, Seq::empty()));
}

// Ids

/// Two questions have the same id only where they have the same number and were asked in
/// the same millisecond.
pub proof fn law_ask_ids_differ(millis1: i64, number1: u64, millis2: i64, number2: u64)
    ensures
        ask_id(millis1, number1) == ask_id(millis2, number2) <==> millis1 == millis2 && number1
            == number2,
{
    reveal_strlit("ask_");
    reveal_strlit("_");
    let a = ask_id(millis1, number1);
    let b = ask_id(millis2, number2);
    let m1 = signed_decimal(millis1 as int);
    let m2 = signed_decimal(millis2 as int);
    let n1 = decimal(number1 as nat);
    let n2 = decimal(number2 as nat);
    lemma_signed_decimal(millis1 as int);
    lemma_signed_decimal(millis2 as int);
    if a == b {
        assert(a[4int + m1.len()] == '_');
        assert(b[4int + m2.len()] == '_');
        if m1.len() < m2.len() {
            assert(b[4int + m1.len()] == m2[m1.len() as int]);
        } else if m2.len() < m1.len() {
            assert(a[4int + m2.len()] == m1[m2.len() as int]);
        }
        assert forall|i: int| 0 <= i < m1.len() implies m1[i] == m2[i] by {
            assert(a[4 + i] == m1[i]);
            assert(b[4 + i] == m2[i]);
        }
        assert(m1 == m2);
        assert(a.len() == 5 + m1.len() + n1.len());
        assert(b.len() == 5 + m2.len() + n2.len());
        assert forall|i: int| 0 <= i < n1.len() implies n1[i] == n2[i] by {
            assert(a[5 + m1.len() + i] == n1[i]);
            assert(b[5 + m2.len() + i] == n2[i]);
        }
        assert(n1 == n2);
        lemma_signed_decimal_injective(millis1 as int, millis2 as int);
        lemma_decimal_injective(number1 as nat, number2 as nat);
    }
}

// Questions and answers

/// A question waits for a time within the limits.
pub proof fn law_ask_timeout_is_bounded(wanted: Option<u64>)
    ensures
        MIN_ASK_TIMEOUT_MS <= ask_timeout(wanted) <= MAX_ASK_TIMEOUT_MS,
{
}

/// A question that cannot be asked leaves the questions as they are; one that can is put
/// behind them, under the id of its ticket.
pub proof fn law_ask_is_queued_or_refused(
    before: ServerView,
    request: Result<AskRequestView, Seq<char>>,
    millis: i64,
)
    ensures
        ({
            let (after, start) = ask_started(before, request, millis);
            match start {
                AskStartView::Refused(_) => after.pending_asks == before.pending_asks,
                AskStartView::Waiting { id, .. } => {
                    &&& after.pending_asks.len() == before.pending_asks.len() + 1
                    &&& after.pending_asks.drop_last() == before.pending_asks
                    &&& after.pending_asks.last().id == id
                    &&& after.pending_asks.last().question.len() > 0
                    &&& after.pending_asks.last().project_path.len() > 0
                },
            }
        }),
{
    let (after, start) = ask_started(before, request, millis);
    if start is Waiting {
        assert(after.pending_asks.drop_last() == before.pending_asks);
    }
}

proof fn lemma_filtered_ids(results: Seq<AskResultView>, id: Seq<char>)
    ensures
        forall|i: int|
            0 <= i < other_results(results, id).len() ==> (#[trigger] other_results(
                results,
                id,
            )[i]).id != id,
{
    let others = |result: AskResultView| result.id != id;
    assert forall|i: int| 0 <= i < other_results(results, id).len() implies (
    #[trigger] other_results(results, id)[i]).id != id by {
        results.lemma_filter_pred(others, i);
        assert(others(results.filter(others)[i]));
    }
}

/// The answer that came in for a question is what the request that asked gets next, however
/// long it has waited, and no other answer takes its place. With that it is used up.
pub proof fn law_answer_reaches_its_question(
    before: ServerView,
    request: AnswerRequestView,
    id: Seq<char>,
    timeout_ms: u64,
    elapsed_nanos: int,
)
    requires
        before.faults.ask_results is None,
        nonblank(request.id) == Some(id),
    ensures
        ({
            let stored = answer_stored(before, Ok(request)).0;
            let (after, poll) = ask_polled(stored, id, timeout_ms, elapsed_nanos);
            &&& poll == AskPollView::Answered(answer_reply(id, request))
            &&& first_result(after.ask_results, id) == after.ask_results.len()
        }),
{
    let others = other_results(before.ask_results, id);
    let reply = answer_reply(id, request);
    let result = AskResultView { id, status: reply.status, body: reply.body };
    let kept = newest(others.push(result));
    lemma_filtered_ids(before.ask_results, id);
    let last = kept.len() - 1;
    assert(kept[last] == result);
    let skipped = others.len() + 1 - kept.len();
    assert forall|i: int| 0 <= i < last implies (#[trigger] kept[i]).id != id by {
        assert(kept[i] == others[i + skipped]);
    }
    lemma_first_result(kept, id, last);
    let rest = kept.remove(last);
    assert forall|i: int| 0 <= i < rest.len() implies (#[trigger] rest[i]).id != id by {
        assert(rest[i] == kept[i]);
    }
    lemma_first_result(rest, id, rest.len() as int);
    assert(ask_polled(
        answer_stored(before, Ok(request)).0,
        id,
        timeout_ms,
        elapsed_nanos,
    ).0.ask_results == rest);
}

/// A second answer for one question takes the place of the first, which was the newest of
/// those that are kept, and changes nothing else.
pub proof fn law_second_answer_replaces_the_first(
    before: ServerView,
    request1: AnswerRequestView,
    request2: AnswerRequestView,
    id: Seq<char>,
)
    requires
        before.faults.ask_results is None,
        nonblank(request1.id) == Some(id),
        nonblank(request2.id) == Some(id),
    ensures
        ({
            let once = answer_stored(before, Ok(request1)).0;
            let twice = answer_stored(once, Ok(request2)).0;
            let reply = answer_reply(id, request2);
            &&& once.ask_results.len() > 0
            &&& once.ask_results.last().id == id
            &&& twice == ServerView {
                ask_results: once.ask_results.drop_last().push(
                    AskResultView { id, status: reply.status, body: reply.body },
                ),
                ..once
            }
        }),
{
    let keep = |result: AskResultView| result.id != id;
    let reply = answer_reply(id, request1);
    let result = AskResultView { id, status: reply.status, body: reply.body };
    let others = other_results(before.ask_results, id);
    let kept = newest(others.push(result));
    let rest = kept.drop_last();
    lemma_filtered_ids(before.ask_results, id);
    assert(kept.last() == result);
    let skipped = others.len() + 1 - kept.len();
    assert forall|i: int| 0 <= i < rest.len() implies keep(#[trigger] rest[i]) by {
        assert(rest[i] == others[i + skipped]);
    }
    assert(other_results(kept, id) == rest) by {
        reveal(Seq::filter);
        lemma_filter_all(rest, keep);
    }
}

/// It does not matter which of two questions is taken back first, and one that was taken back
/// cannot be taken back again.
pub proof fn law_withdrawals_commute(before: ServerView, id1: Seq<char>, id2: Seq<char>)
    ensures
        ask_withdrawn(ask_withdrawn(before, id1), id2) == ask_withdrawn(
            ask_withdrawn(before, id2),
            id1,
        ),
        ask_withdrawn(ask_withdrawn(before, id1), id1) == ask_withdrawn(before, id1),
{
    let keep1 = |ask: PendingAskView| ask.id != id1;
    let keep2 = |ask: PendingAskView| ask.id != id2;
    lemma_filters_commute(before.pending_asks, keep1, keep2);
    lemma_filter_again(before.pending_asks, keep1);
}

/// The id of a question is taken as it is when its answer comes in: there is no white space
/// at its ends.
pub proof fn law_ask_id_is_taken_as_it_is(millis: i64, number: u64)
    ensures
        nonblank(Some(ask_id(millis, number))) == Some(ask_id(millis, number)),
{
    reveal_strlit("ask_");
    let id = ask_id(millis, number);
    let tail = decimal(number as nat);
    lemma_decimal_digits(number as nat);
    assert(id.first() == 'a');
    assert(id.last() == tail.last());
    assert(tail.last() == tail[tail.len() - 1]);
    assert(!is_white(id.first()));
    assert(!is_white(id.last()));
    assert(trimmed(id) == id);
}

/// A question that was asked is handed to the desktop app, and the answer that it gives under
/// the id of the question reaches the request that asked.
pub proof fn law_question_gets_its_answer(
    before: ServerView,
    question: AskRequestView,
    millis: i64,
    body: Result<Seq<char>, Seq<char>>,
    reply: AnswerRequestView,
    elapsed_nanos: int,
)
    requires
        before.faults == FaultsView::none(),
        ask_started(before, Ok(question), millis).1 matches AskStartView::Waiting { id, .. }
            && reply.id == Some(id),
    ensures
        ({
            let (waiting, start) = ask_started(before, Ok(question), millis);
            let handed = asks_json(waiting).field("asks"@).as_array().unwrap();
            let picked_up = responded(waiting, Route::PendingAsks, body).0;
            let stored = answer_stored(picked_up, Ok(reply)).0;
            &&& start matches AskStartView::Waiting { id, timeout_ms }
            &&& handed.last().field("id"@).as_str() == Some(id)
            &&& handed.last().field("question"@).as_str() == nonblank(question.question)
            &&& ask_polled(stored, id, timeout_ms, elapsed_nanos).1 == AskPollView::Answered(
                answer_reply(id, reply),
            )
        }),
{
    let (waiting, start) = ask_started(before, Ok(question), millis);
    let picked_up = responded(waiting, Route::PendingAsks, body).0;
    law_ask_id_is_taken_as_it_is(millis, before.ask_counter);
    if let AskStartView::Waiting { id, timeout_ms } = start {
        law_answer_reaches_its_question(picked_up, reply, id, timeout_ms, elapsed_nanos);
        reveal_strlit("ok");
        reveal_strlit("asks");
        reveal_strlit("id");
        reveal_strlit("question");
        reveal_strlit("projectPath");
        assert("ok"@.len() != "asks"@.len());
        assert("id"@.len() != "question"@.len());
        assert("id"@.len() != "projectPath"@.len());
        assert("question"@.len() != "projectPath"@.len());
        let handed = asks_json(waiting).field("asks"@).as_array().unwrap();
        assert(handed == waiting.pending_asks.map_values(|ask: PendingAskView| listed_ask(ask)));
        assert(handed.last() == listed_ask(waiting.pending_asks.last()));
    }
}

/// A question that no answer is there for is waited for as long as its time lasts, and is
/// then answered with a failure; it is no longer among the questions then.
pub proof fn law_unanswered_question_times_out(
    before: ServerView,
    id: Seq<char>,
    timeout_ms: u64,
    elapsed_nanos: int,
)
    requires
        before.faults.ask_results is None,
        before.faults.pending_asks is None,
        forall|i: int| 0 <= i < before.ask_results.len() ==> (#[trigger] before.ask_results[i]).id
            != id,
    ensures
        ({
            let (after, poll) = ask_polled(before, id, timeout_ms, elapsed_nanos);
            if elapsed_nanos < timeout_nanos(timeout_ms) {
                &&& after == before
                &&& poll == AskPollView::Wait { nanos: timeout_nanos(timeout_ms) - elapsed_nanos }
            } else {
                &&& poll matches AskPollView::Answered(reply) && reply.status == 504
                &&& forall|i: int|
                    0 <= i < after.pending_asks.len() ==> (#[trigger] after.pending_asks[i]).id
                        != id
            }
        }),
{
    lemma_first_result(before.ask_results, id, before.ask_results.len() as int);
    lemma_withdrawn(before, id);
}

// What a refused request is answered

/// Whether a text has nothing of a truthful `ok` member in it.
pub open spec fn unmarked(text: Option<Seq<char>>) -> bool {
    text matches Some(text) ==> !occurs_in(text, ok_mark())
}

proof fn lemma_plain_message(message: Seq<char>, failure: u16)
    requires
        !message.contains('"'),
        message.len() > 0 && message[0] != 'o',
    ensures
        status_of(failure_text(message), failure) == failure,
{
    assert(!occurs_in(Seq::empty(), ok_mark())) by {
        reveal_strlit("\"ok\":true");
    }
    lemma_labelled_unmarked(message, Seq::empty());
    assert(message + Seq::empty() == message);
    law_failure_status(message, failure);
}

proof fn lemma_labelled_message(label: Seq<char>, error: Seq<char>, failure: u16)
    requires
        !label.contains('"'),
        label.len() > 0 && label[0] != 'o',
        !occurs_in(error, ok_mark()),
    ensures
        status_of(failure_text(label + error), failure) == failure,
{
    lemma_labelled_unmarked(label, error);
    assert((label + error)[0] == label[0]);
    law_failure_status(label + error, failure);
}

proof fn lemma_lock_error(error: Seq<char>, failure: u16)
    requires
        !occurs_in(error, ok_mark()),
    ensures
        status_of(failure_text("Lock error: "@ + error), failure) == failure,
{
    reveal_strlit("Lock error: ");
    lemma_labelled_message("Lock error: "@, error, failure);
}

/// A request to open a project is answered with the code of success exactly where the
/// project was opened; else nothing has changed.
pub proof fn law_open_project_status(
    before: ServerView,
    path: Result<Option<Seq<char>>, Seq<char>>,
)
    requires
        unmarked(before.faults.current_project),
        path matches Err(error) ==> !occurs_in(error, ok_mark()),
    ensures
        ({
            let (after, reply) = project_opened(before, path);
            if path matches Ok(Some(path)) && before.faults.current_project is None {
                status_of(reply, 400) == 200
            } else {
                status_of(reply, 400) == 400 && after == before
            }
        }),
{
    law_ok_status(400);
    reveal_strlit("path field is required");
    lemma_plain_message("path field is required"@, 400);
    match path {
        Err(error) => lemma_invalid_json_status(error, 400),
        Ok(_) => match before.faults.current_project {
            Some(error) => lemma_lock_error(error, 400),
            None => {},
        },
    }
}

/// An answer is acknowledged with the code of success exactly where it was stored; else
/// nothing has changed.
pub proof fn law_answer_status(
    before: ServerView,
    request: Result<AnswerRequestView, Seq<char>>,
)
    requires
        unmarked(before.faults.ask_results),
        request matches Err(error) ==> !occurs_in(error, ok_mark()),
    ensures
        ({
            let (after, reply) = answer_stored(before, request);
            if (request matches Ok(request) && nonblank(request.id) is Some)
                && before.faults.ask_results is None {
                status_of(reply, 400) == 200
            } else {
                status_of(reply, 400) == 400 && after == before
            }
        }),
{
    law_ok_status(400);
    reveal_strlit("id field is required");
    lemma_plain_message("id field is required"@, 400);
    match request {
        Err(error) => lemma_invalid_json_status(error, 400),
        Ok(_) => match before.faults.ask_results {
            Some(error) => lemma_lock_error(error, 400),
            None => {},
        },
    }
}

/// A clip that is refused at the start is answered with the code of failure.
pub proof fn law_refused_clip_status(
    view: ServerView,
    request: Result<ClipRequestView, Seq<char>>,
)
    requires
        unmarked(view.faults.current_project),
        request matches Err(error) ==> !occurs_in(error, ok_mark()),
    ensures
        clip_accepted(view, request) matches Err(reply) ==> status_of(reply, 500) == 500,
{
    reveal_strlit(
        "projectPath is required (set via POST /project or include in request body)",
    );
    lemma_plain_message(no_project_message(), 500);
    reveal_strlit("content is required");
    lemma_plain_message("content is required"@, 500);
    match request {
        Err(error) => lemma_invalid_json_status(error, 500),
        Ok(_) => match view.faults.current_project {
            Some(error) => lemma_lock_error(error, 500),
            None => {},
        },
    }
}

/// A clip whose directory cannot be made, or whose file cannot be written, is answered with
/// the code of failure, and does not wait to be picked up.
pub proof fn law_failed_clip_status(
    before: ServerView,
    step: ClipStepView,
    event: ClipEvent,
    error: String,
)
    requires
        event_fits(step, event),
        event == (ClipEvent::DirFailed { error }) || event == (ClipEvent::WriteFailed { error }),
        !occurs_in(error@, ok_mark()),
    ensures
        ({
            let (after, next) = clip_advanced(before, step, event);
            &&& after == before
            &&& next matches ClipStepView::Done { reply } && status_of(reply, 500) == 500
        }),
{
    reveal_strlit("Failed to create directory: ");
    lemma_labelled_message("Failed to create directory: "@, error@, 500);
    reveal_strlit("Failed to write file: ");
    lemma_labelled_message("Failed to write file: "@, error@, 500);
}

/// A request that only looks something up, or that is unknown, changes nothing.
pub proof fn law_lookups_change_nothing(
    before: ServerView,
    route: Route,
    body: Result<Seq<char>, Seq<char>>,
)
    requires
        route == Route::Preflight || route == Route::Status || route == Route::GetProject || route
            == Route::GetProjects || route == Route::NotFound,
    ensures
        responded(before, route, body).0 == before,
{
}

// What every request keeps

proof fn lemma_others_are_distinct(results: Seq<AskResultView>, id: Seq<char>)
    requires
        forall|i: int, j: int|
            0 <= i < j < results.len() ==> (#[trigger] results[i]).id != (#[trigger] results[j]).id,
        forall|i: int| 0 <= i < results.len() ==> sound_result(#[trigger] results[i]),
    ensures
        ({
            let others = other_results(results, id);
            &&& others.len() <= results.len()
            &&& forall|i: int, j: int|
                0 <= i < j < others.len() ==> (#[trigger] others[i]).id != (
                #[trigger] others[j]).id
            &&& forall|i: int|
                0 <= i < others.len() ==> sound_result(#[trigger] others[i]) && others[i].id != id
        }),
{
    let keep = |result: AskResultView| result.id != id;
    let others = other_results(results, id);
    results.lemma_filter_len(keep);
    assert forall|i: int, j: int| 0 <= i < j < others.len() implies (#[trigger] others[i]).id != (
    #[trigger] others[j]).id by {
        let (p, q) = lemma_filter_order(results, keep, i, j);
        assert(results[p].id != results[q].id);
    }
    assert forall|i: int| 0 <= i < others.len() implies sound_result(#[trigger] others[i])
        && others[i].id != id by {
        let at = lemma_filter_at(results, keep, i);
        assert(sound_result(results[at]));
    }
}

/// An answer that comes in keeps what is stored sound, and the state well formed.
pub proof fn law_answer_keeps_well_formed(
    before: ServerView,
    request: Result<AnswerRequestView, Seq<char>>,
)
    requires
        before.stores_sound(),
    ensures
        answer_stored(before, request).0.stores_sound(),
        before.well_formed() ==> answer_stored(before, request).0.well_formed(),
{
    if let Ok(request) = request {
        if let Some(id) = nonblank(request.id) {
            let reply = answer_reply(id, request);
            let result = AskResultView { id, status: reply.status, body: reply.body };
            let others = other_results(before.ask_results, id);
            let whole = others.push(result);
            let kept = newest(whole);
            lemma_others_are_distinct(before.ask_results, id);
            lemma_trimmed_again(request.id.unwrap());
            assert(sound_result(result)) by {
                let answer = request.answer.unwrap_or(Seq::empty());
                let references = request.references.unwrap_or(Seq::empty());
                let error = request.error.unwrap_or("Failed to answer question"@);
                assert(result.body == json_text(answer_json(id, answer, references))
                    || result.body == json_text(ask_failure_json(id, error)));
            }
            let skipped = whole.len() - kept.len();
            assert forall|i: int, j: int| 0 <= i < j < kept.len() implies (#[trigger] kept[i]).id
                != (#[trigger] kept[j]).id by {
                assert(kept[i] == whole[i + skipped] && kept[j] == whole[j + skipped]);
            }
            assert forall|i: int| 0 <= i < kept.len() implies sound_result(
                #[trigger] kept[i],
            ) by {
                assert(kept[i] == whole[i + skipped]);
            }
        }
    }
}

/// A question that is taken back is no longer among those that wait; the others stay distinct.
pub proof fn lemma_withdrawn(before: ServerView, id: Seq<char>)
    ensures
        before.asks_numbered() ==> ask_withdrawn(before, id).asks_numbered(),
        forall|i: int|
            0 <= i < other_asks(before.pending_asks, id).len() ==> (#[trigger] other_asks(
                before.pending_asks,
                id,
            )[i]).id != id,
{
    let keep = |ask: PendingAskView| ask.id != id;
    let asks = before.pending_asks;
    let left = other_asks(asks, id);
    assert forall|i: int| 0 <= i < left.len() implies (#[trigger] left[i]).id != id by {
        let at = lemma_filter_at(asks, keep, i);
    }
    if before.asks_numbered() {
        assert forall|i: int, j: int| 0 <= i < j < left.len() implies (#[trigger] left[i]).id != (
        #[trigger] left[j]).id by {
            let (p, q) = lemma_filter_order(asks, keep, i, j);
            assert(asks[p].id != asks[q].id);
        }
        assert forall|i: int| 0 <= i < left.len() implies numbered_before(
            (#[trigger] left[i]).id,
            before.ask_counter,
        ) by {
            let at = lemma_filter_at(asks, keep, i);
            assert(numbered_before(asks[at].id, before.ask_counter));
        }
    }
}

/// A look for an answer keeps what is stored sound, and the state well formed.
pub proof fn law_poll_keeps_well_formed(
    before: ServerView,
    id: Seq<char>,
    timeout_ms: u64,
    elapsed_nanos: int,
)
    requires
        before.stores_sound(),
    ensures
        ask_polled(before, id, timeout_ms, elapsed_nanos).0.stores_sound(),
        before.well_formed() ==> ask_polled(before, id, timeout_ms, elapsed_nanos).0.well_formed(),
{
    lemma_first_result_bounds(before.ask_results, id);
    lemma_withdrawn(before, id);
}

/// A question keeps what is stored sound. It keeps the state well formed too, unless the
/// numbers of the questions start again after it.
pub proof fn law_ask_keeps_well_formed(
    before: ServerView,
    request: Result<AskRequestView, Seq<char>>,
    millis: i64,
)
    requires
        before.stores_sound(),
    ensures
        ask_started(before, request, millis).0.stores_sound(),
        before.well_formed() && before.ask_counter < u64::MAX ==> ask_started(
            before,
            request,
            millis,
        ).0.well_formed(),
{
    if before.well_formed() && before.ask_counter < u64::MAX {
        let after = ask_started(before, request, millis).0;
        let asks = before.pending_asks;
        let id = ask_id(millis, before.ask_counter);
        assert forall|i: int| 0 <= i < asks.len() implies numbered_before(
            (#[trigger] asks[i]).id,
            next_number(before.ask_counter),
        ) && asks[i].id != id by {
            assert(numbered_before(asks[i].id, before.ask_counter));
            let (m, n) = choose|m: i64, n: u64|
                n < before.ask_counter && asks[i].id == #[trigger] ask_id(m, n);
            assert(asks[i].id == ask_id(m, n) && n < before.ask_counter);
            law_ask_ids_differ(m, n, millis, before.ask_counter);
        }
        assert(numbered_before(id, next_number(before.ask_counter)));
    }
}

/// A step of a clip keeps what is stored sound, and the state well formed.
pub proof fn law_clip_keeps_well_formed(before: ServerView, step: ClipStepView, event: ClipEvent)
    requires
        before.stores_sound(),
    ensures
        clip_advanced(before, step, event).0.stores_sound(),
        before.well_formed() ==> clip_advanced(before, step, event).0.well_formed(),
{
}

/// Every other request keeps what is stored sound, and the state well formed.
pub proof fn law_requests_keep_well_formed(
    before: ServerView,
    route: Route,
    body: Result<Seq<char>, Seq<char>>,
)
    requires
        before.stores_sound(),
    ensures
        responded(before, route, body).0.stores_sound(),
        before.well_formed() ==> responded(before, route, body).0.well_formed(),
{
    if let Ok(body) = body {
        let parsed = parse_result(body);
        law_answer_keeps_well_formed(before, answered(parsed));
        if let Ok(Some(path)) = named_path(parsed) {
            law_slashed_has_no_backslash(path);
        }
        if let Some(entries) = given_projects(parsed) {
            let listed = |entry: (Seq<char>, Seq<char>)| entry.1.len() > 0;
            assert forall|i: int| 0 <= i < with_path(entries).len() implies (
            #[trigger] with_path(entries)[i]).1.len() > 0 by {
                entries.lemma_filter_pred(listed, i);
                assert(listed(entries.filter(listed)[i]));
            }
        }
    }
}

} // verus!
