//! What holds of whatever the server is asked to do, one thing after the other.
use crate::answer::{
    answer_json, answer_reply, answer_stored, answered, ask_failure_json, ask_polled,
    first_result, lemma_first_result, lemma_first_result_bounds, newest, other_results,
    AnswerRequestView, AskPollView,
};
use crate::ask::{ask_started, next_number, AskRequestView, AskStartView};
use crate::clip::{clip_advanced, ClipEvent, ClipStepView};
use crate::http::{responded, Route};
use crate::json::{json_text, parse_result, Json};
use crate::laws::{
    law_ask_id_is_taken_as_it_is, law_ask_ids_differ, law_ask_keeps_well_formed,
    law_clip_keeps_well_formed, law_poll_keeps_well_formed, law_requests_keep_well_formed,
    lemma_withdrawn,
};
use crate::lists::{lemma_filter_at, lemma_filter_keeps, lemma_filter_order};
use crate::project::{chosen_project, named_path};
use crate::reply::{failure_json, ReplyView};
use crate::state::{AskResultView, FaultsView, ServerView, MAX_ASK_RESULTS};
use crate::text::{nonblank, slashed};
use vstd::prelude::*;

verus! {

/// Something that the server does.
pub ghost enum Move {
    /// It answers a request.
    Request { route: Route, body: Result<Seq<char>, Seq<char>> },
    /// It takes a question at a time.
    Ask { request: Result<AskRequestView, Seq<char>>, millis: i64 },
    /// It looks for the answer to a question that has waited for some time.
    Poll { id: Seq<char>, timeout_ms: u64, elapsed_nanos: int },
    /// It takes note of what became of a step for a clip.
    Clip { step: ClipStepView, event: ClipEvent },
    /// It finds that some locks fail and the others do not.
    Lock { faults: FaultsView },
}

/// The state after a move.
pub open spec fn moved(before: ServerView, next: Move) -> ServerView {
    match next {
        Move::Request { route, body } => responded(before, route, body).0,
        Move::Ask { request, millis } => ask_started(before, request, millis).0,
        Move::Poll { id, timeout_ms, elapsed_nanos } => ask_polled(
            before,
            id,
            timeout_ms,
            elapsed_nanos,
        ).0,
        Move::Clip { step, event } => clip_advanced(before, step, event).0,
        Move::Lock { faults } => ServerView { faults, ..before },
    }
}

/// The state after some moves.
pub open spec fn run(before: ServerView, moves: Seq<Move>) -> ServerView
    decreases moves.len(),
{
    if moves.len() == 0 {
        before
    } else {
        moved(run(before, moves.drop_last()), moves.last())
    }
}

// What is stored

proof fn lemma_move_keeps_well_formed(before: ServerView, next: Move)
    requires
        before.stores_sound(),
    ensures
        moved(before, next).stores_sound(),
        before.well_formed() && before.ask_counter < u64::MAX ==> moved(before, next).well_formed(),
{
    match next {
        Move::Request { route, body } => law_requests_keep_well_formed(before, route, body),
        Move::Ask { request, millis } => law_ask_keeps_well_formed(before, request, millis),
        Move::Poll { id, timeout_ms, elapsed_nanos } => law_poll_keeps_well_formed(
            before,
            id,
            timeout_ms,
            elapsed_nanos,
        ),
        Move::Clip { step, event } => law_clip_keeps_well_formed(before, step, event),
        Move::Lock { .. } => {},
    }
}

/// Whatever the server does, what it has stored stays sound: at most as many answers as are
/// kept, no two for one question, each under an id without white space at its ends, and each
/// made either of an answer or of a failure for the question with that id.
pub proof fn law_stores_stay_sound(before: ServerView, moves: Seq<Move>)
    requires
        before.stores_sound(),
    ensures
        run(before, moves).stores_sound(),
    decreases moves.len(),
{
    if moves.len() > 0 {
        law_stores_stay_sound(before, moves.drop_last());
        lemma_move_keeps_well_formed(run(before, moves.drop_last()), moves.last());
    }
}

/// How the number of the next question changes: by one, for a question that is taken.
proof fn lemma_counter_of_move(before: ServerView, next: Move)
    ensures
        moved(before, next).ask_counter == before.ask_counter || moved(before, next).ask_counter
            == next_number(before.ask_counter),
{
}

/// The number some places after a number; the numbers start again after the greatest.
pub open spec fn number_after(number: u64, places: nat) -> u64
    recommends
        places <= u64::MAX,
{
    if number + places <= u64::MAX {
        (number + places) as u64
    } else {
        (number + places - u64::MAX - 1) as u64
    }
}

proof fn lemma_counter_of_run(before: ServerView, moves: Seq<Move>) -> (places: nat)
    requires
        moves.len() <= u64::MAX,
    ensures
        places <= moves.len(),
        run(before, moves).ask_counter == number_after(before.ask_counter, places),
    decreases moves.len(),
{
    if moves.len() == 0 {
        0
    } else {
        let earlier = lemma_counter_of_run(before, moves.drop_last());
        let mid = run(before, moves.drop_last());
        lemma_counter_of_move(mid, moves.last());
        if run(before, moves).ask_counter == mid.ask_counter {
            earlier
        } else {
            earlier + 1
        }
    }
}

/// Whatever a server does that was started anew, its state is well formed: in particular, no
/// two of the questions that wait have one id. The server would have to do as much as there
/// are numbers for questions to leave such states.
pub proof fn law_states_are_well_formed(moves: Seq<Move>)
    requires
        moves.len() < u64::MAX,
    ensures
        run(ServerView::initial(), moves).well_formed(),
    decreases moves.len(),
{
    if moves.len() > 0 {
        let before = ServerView::initial();
        law_states_are_well_formed(moves.drop_last());
        let places = lemma_counter_of_run(before, moves.drop_last());
        lemma_move_keeps_well_formed(run(before, moves.drop_last()), moves.last());
    }
}

// Ids

/// Two questions have different ids, whatever happens between them, unless as much happens
/// as there are numbers for questions.
pub proof fn law_ids_of_questions_differ(
    before: ServerView,
    request1: AskRequestView,
    millis1: i64,
    moves: Seq<Move>,
    request2: AskRequestView,
    millis2: i64,
)
    requires
        moves.len() < u64::MAX,
    ensures
        ({
            let (asked, start1) = ask_started(before, Ok(request1), millis1);
            let (_, start2) = ask_started(run(asked, moves), Ok(request2), millis2);
            start1 matches AskStartView::Waiting { id: id1, .. } ==> (
            start2 matches AskStartView::Waiting { id: id2, .. } ==> id1 != id2)
        }),
{
    let asked = ask_started(before, Ok(request1), millis1).0;
    let later = run(asked, moves);
    let places = lemma_counter_of_run(asked, moves);
    law_ask_ids_differ(millis1, before.ask_counter, millis2, later.ask_counter);
}

// The open project

/// The path of the project that a move opens, if it opens one.
pub open spec fn opening(before: ServerView, next: Move) -> Option<Seq<char>> {
    match next {
        Move::Request { route: Route::SetProject, body: Ok(body) } => match named_path(
            parse_result(body),
        ) {
            Ok(Some(path)) => if before.faults.current_project is None {
                Some(path)
            } else {
                None
            },
            _ => None,
        },
        _ => None,
    }
}

/// As long as no project is opened, the open project stays the same: none, for a server that
/// was started anew.
pub proof fn law_open_project_stays(before: ServerView, moves: Seq<Move>)
    requires
        forall|k: int|
            0 <= k < moves.len() ==> opening(
                run(before, #[trigger] moves.take(k)),
                moves[k],
            ) is None,
    ensures
        run(before, moves).current_project == before.current_project,
    decreases moves.len(),
{
    if moves.len() > 0 {
        let rest = moves.drop_last();
        assert forall|k: int| 0 <= k < rest.len() implies opening(
            run(before, #[trigger] rest.take(k)),
            rest[k],
        ) is None by {
            assert(rest.take(k) == moves.take(k));
        }
        law_open_project_stays(before, rest);
        assert(moves.take(moves.len() - 1) == rest);
    }
}

/// Whatever the server does, the open project is the one that was opened last, with slashes for
/// backslashes.
pub proof fn law_last_opened_project_is_open(
    before: ServerView,
    moves: Seq<Move>,
    at: int,
    path: Seq<char>,
)
    requires
        0 <= at < moves.len(),
        opening(run(before, moves.take(at)), moves[at]) == Some(path),
        forall|k: int|
            at < k < moves.len() ==> opening(
                run(before, #[trigger] moves.take(k)),
                moves[k],
            ) is None,
    ensures
        run(before, moves).current_project == slashed(path),
    decreases moves.len(),
{
    let rest = moves.drop_last();
    assert(moves.take(moves.len() - 1) == rest);
    if at < rest.len() {
        assert(rest.take(at) == moves.take(at));
        assert forall|k: int| at < k < rest.len() implies opening(
            run(before, #[trigger] rest.take(k)),
            rest[k],
        ) is None by {
            assert(rest.take(k) == moves.take(k));
        }
        law_last_opened_project_is_open(before, rest, at, path);
    }
}

// Answers that wait

/// The id under which a move brings an answer, if it brings one.
pub open spec fn answered_id(next: Move) -> Option<Seq<char>> {
    match next {
        Move::Request { route: Route::AnswerAsk, body: Ok(body) } => match answered(
            parse_result(body),
        ) {
            Ok(request) => nonblank(request.id),
            Err(_) => None,
        },
        _ => None,
    }
}

/// Whether a move leaves the answers to a question alone: it brings none for it, does not look
/// for one, and finds the lock of the answers whole.
pub open spec fn leaves_answers(next: Move, id: Seq<char>) -> bool {
    &&& answered_id(next) != Some(id)
    &&& next matches Move::Poll { id: other, .. } ==> other != id
    &&& next matches Move::Lock { faults } ==> faults.ask_results is None
}

/// How many answers some moves bring.
pub open spec fn answers_in(moves: Seq<Move>) -> nat {
    moves.filter(|next: Move| answered_id(next) is Some).len()
}

/// Whether an answer is at a place among the answers, and no other one for its question is
/// there.
pub open spec fn waits_at(results: Seq<AskResultView>, result: AskResultView, at: int) -> bool {
    &&& 0 <= at < results.len()
    &&& results[at] == result
    &&& forall|i: int| 0 <= i < results.len() && i != at ==> (#[trigger] results[i]).id != result.id
}

/// The answer that came in is the last one, and the only one for its question.
proof fn lemma_stored_last(
    before: ServerView,
    request: AnswerRequestView,
    id: Seq<char>,
) -> (last: int)
    requires
        before.faults.ask_results is None,
        nonblank(request.id) == Some(id),
    ensures
        ({
            let results = answer_stored(before, Ok(request)).0.ask_results;
            let reply = answer_reply(id, request);
            let result = AskResultView { id, status: reply.status, body: reply.body };
            &&& last == results.len() - 1
            &&& waits_at(results, result, last)
        }),
{
    let keep = |result: AskResultView| result.id != id;
    let others = other_results(before.ask_results, id);
    let kept = answer_stored(before, Ok(request)).0.ask_results;
    let skipped = others.len() + 1 - kept.len();
    assert forall|i: int| 0 <= i < kept.len() - 1 implies (#[trigger] kept[i]).id != id by {
        let at = lemma_filter_at(before.ask_results, keep, i + skipped);
        assert(kept[i] == others[i + skipped]);
    }
    kept.len() - 1
}

proof fn lemma_answer_stays(
    before: ServerView,
    result: AskResultView,
    at: int,
    request: AnswerRequestView,
    other: Seq<char>,
) -> (place: int)
    requires
        waits_at(before.ask_results, result, at),
        before.faults.ask_results is None,
        nonblank(request.id) == Some(other),
        other != result.id,
        before.ask_results.len() - at < MAX_ASK_RESULTS,
    ensures
        ({
            let after = answer_stored(before, Ok(request)).0.ask_results;
            &&& waits_at(after, result, place)
            &&& after.len() - place <= before.ask_results.len() - at + 1
        }),
{
    let keep = |result: AskResultView| result.id != other;
    let given = before.ask_results;
    let others = other_results(given, other);
    let q = lemma_filter_keeps(given, keep, at);
    let reply = answer_reply(other, request);
    let whole = others.push(AskResultView { id: other, status: reply.status, body: reply.body });
    let kept = newest(whole);
    let place = q - (whole.len() - kept.len());
    assert forall|i: int| 0 <= i < others.len() && i != q implies (#[trigger] others[i]).id
        != result.id by {
        if i < q {
            let (a, b) = lemma_filter_order(given, keep, i, q);
            assert(given[b].id == result.id);
            assert(given[a] == others[i]);
        } else {
            let (a, b) = lemma_filter_order(given, keep, q, i);
            assert(given[a].id == result.id);
            assert(given[b] == others[i]);
        }
    }
    assert forall|i: int| 0 <= i < kept.len() && i != place implies (#[trigger] kept[i]).id
        != result.id by {
        assert(kept[i] == whole[i + (whole.len() - kept.len())]);
    }
    assert(kept[place] == whole[q]);
    place
}

proof fn lemma_answer_waits(
    before: ServerView,
    result: AskResultView,
    at: int,
    moves: Seq<Move>,
) -> (place: int)
    requires
        waits_at(before.ask_results, result, at),
        before.faults.ask_results is None,
        before.ask_results.len() - at + answers_in(moves) <= MAX_ASK_RESULTS,
        forall|k: int| 0 <= k < moves.len() ==> leaves_answers(#[trigger] moves[k], result.id),
    ensures
        waits_at(run(before, moves).ask_results, result, place),
        run(before, moves).faults.ask_results is None,
        run(before, moves).ask_results.len() - place <= before.ask_results.len() - at + answers_in(
            moves,
        ),
    decreases moves.len(),
{
    reveal(Seq::filter);
    if moves.len() == 0 {
        at
    } else {
        let rest = moves.drop_last();
        let next = moves.last();
        assert(next == moves[moves.len() - 1]);
        assert(leaves_answers(next, result.id));
        assert forall|k: int| 0 <= k < rest.len() implies leaves_answers(
            #[trigger] rest[k],
            result.id,
        ) by {
            assert(rest[k] == moves[k]);
        }
        let mid = run(before, rest);
        let place = lemma_answer_waits(before, result, at, rest);
        if let Some(other) = answered_id(next) {
            let request = answered(parse_result(next->Request_body->Ok_0))->Ok_0;
            lemma_answer_stays(mid, result, place, request, other)
        } else if let Move::Poll { id, timeout_ms, elapsed_nanos } = next {
            lemma_first_result_bounds(mid.ask_results, id);
            let gone = first_result(mid.ask_results, id);
            if gone < place {
                place - 1
            } else {
                place
            }
        } else {
            place
        }
    }
}

/// An answer that came in reaches its question, whatever the server does before the request that
/// asked looks for it, as long as fewer answers than are kept come in meanwhile, none for that
/// question, nobody else looks for it, and the lock of the answers does not fail.
pub proof fn law_answer_waits_for_its_question(
    before: ServerView,
    request: AnswerRequestView,
    id: Seq<char>,
    moves: Seq<Move>,
    timeout_ms: u64,
    elapsed_nanos: int,
)
    requires
        before.faults.ask_results is None,
        nonblank(request.id) == Some(id),
        answers_in(moves) < MAX_ASK_RESULTS,
        forall|k: int| 0 <= k < moves.len() ==> leaves_answers(#[trigger] moves[k], id),
    ensures
        ask_polled(
            run(answer_stored(before, Ok(request)).0, moves),
            id,
            timeout_ms,
            elapsed_nanos,
        ).1 == AskPollView::Answered(answer_reply(id, request)),
{
    let reply = answer_reply(id, request);
    let result = AskResultView { id, status: reply.status, body: reply.body };
    let stored = answer_stored(before, Ok(request)).0;
    let last = lemma_stored_last(before, request, id);
    let place = lemma_answer_waits(stored, result, last, moves);
    lemma_first_result(run(stored, moves).ask_results, id, place);
}

/// A question gets the answer that the desktop app gives under its id, whatever the server does
/// between the question and the answer and, within the bounds of
/// [`law_answer_waits_for_its_question`], between the answer and the look for it.
pub proof fn law_asked_question_gets_its_answer(
    before: ServerView,
    question: AskRequestView,
    millis: i64,
    between: Seq<Move>,
    reply: AnswerRequestView,
    moves: Seq<Move>,
    elapsed_nanos: int,
)
    requires
        ask_started(before, Ok(question), millis).1 matches AskStartView::Waiting { id, .. }
            && reply.id == Some(id) && (forall|k: int|
            0 <= k < moves.len() ==> leaves_answers(#[trigger] moves[k], id)),
        run(ask_started(before, Ok(question), millis).0, between).faults.ask_results is None,
        answers_in(moves) < MAX_ASK_RESULTS,
    ensures
        ({
            let (asked, start) = ask_started(before, Ok(question), millis);
            let stored = answer_stored(run(asked, between), Ok(reply)).0;
            start matches AskStartView::Waiting { id, timeout_ms } && ask_polled(
                run(stored, moves),
                id,
                timeout_ms,
                elapsed_nanos,
            ).1 == AskPollView::Answered(answer_reply(id, reply))
        }),
{
    let (asked, start) = ask_started(before, Ok(question), millis);
    law_ask_id_is_taken_as_it_is(millis, before.ask_counter);
    if let AskStartView::Waiting { id, timeout_ms } = start {
        law_answer_waits_for_its_question(
            run(asked, between),
            reply,
            id,
            moves,
            timeout_ms,
            elapsed_nanos,
        );
    }
}

// What a question is answered

/// Whether the body of a reply is that of an object that tells whether the status stands for
/// success.
pub open spec fn tells_success(reply: ReplyView) -> bool {
    exists|json: Json|
        reply.body == #[trigger] json_text(json) && json is Object && json.field("ok"@)
            == Json::Bool(reply.status == 200)
}

/// Whether the body of a reply is that of an object that tells whether the status stands for
/// success, and names a question.
pub open spec fn tells_success_of(reply: ReplyView, id: Seq<char>) -> bool {
    exists|json: Json|
        reply.body == #[trigger] json_text(json) && json is Object && json.field("ok"@)
            == Json::Bool(reply.status == 200) && json.field("id"@) == Json::Str(id)
}

proof fn lemma_failure_fields(id: Seq<char>, message: Seq<char>)
    ensures
        failure_json(message).field("ok"@) == Json::Bool(false),
        failure_json(message).field("error"@) == Json::Str(message),
        ask_failure_json(id, message).field("ok"@) == Json::Bool(false),
        ask_failure_json(id, message).field("id"@) == Json::Str(id),
        ask_failure_json(id, message).field("error"@) == Json::Str(message),
{
    reveal_strlit("ok");
    reveal_strlit("id");
    reveal_strlit("error");
    assert("ok"@[0] != "id"@[0]);
    assert("error"@.len() == 5);
}

proof fn lemma_answer_fields(id: Seq<char>, answer: Seq<char>, references: Seq<Json>)
    ensures
        answer_json(id, answer, references).field("ok"@) == Json::Bool(true),
        answer_json(id, answer, references).field("id"@) == Json::Str(id),
{
    reveal_strlit("ok");
    reveal_strlit("id");
    reveal_strlit("answer");
    reveal_strlit("references");
    assert("ok"@[0] != "id"@[0]);
    assert("answer"@.len() == 6);
    assert("references"@.len() == 10);
}

/// A question that is not taken is answered with one of two codes, neither of which stands
/// for success, and the body says so.
pub proof fn law_refused_question_is_told(
    before: ServerView,
    request: Result<AskRequestView, Seq<char>>,
    millis: i64,
)
    ensures
        ask_started(before, request, millis).1 matches AskStartView::Refused(reply) ==> (
        reply.status == 400 || reply.status == 500) && tells_success(reply),
{
    if let AskStartView::Refused(reply) = ask_started(before, request, millis).1 {
        let message = choose|message: Seq<char>|
            reply.body == json_text(#[trigger] failure_json(message));
        lemma_failure_fields(Seq::empty(), message);
    }
}

proof fn lemma_poll_is_told(
    before: ServerView,
    id: Seq<char>,
    timeout_ms: u64,
    elapsed_nanos: int,
)
    requires
        before.stores_sound(),
    ensures
        ask_polled(before, id, timeout_ms, elapsed_nanos).1 matches AskPollView::Answered(reply)
            ==> (reply.status == 200 || reply.status == 500 || reply.status == 504)
            && tells_success_of(reply, id),
{
    lemma_first_result_bounds(before.ask_results, id);
    if let AskPollView::Answered(reply) = ask_polled(before, id, timeout_ms, elapsed_nanos).1 {
        if reply.status == 200 {
            let (answer, references) = choose|answer: Seq<char>, references: Seq<Json>|
                reply.body == json_text(#[trigger] answer_json(id, answer, references));
            lemma_answer_fields(id, answer, references);
        } else {
            let message = choose|message: Seq<char>|
                reply.body == json_text(#[trigger] ask_failure_json(id, message));
            lemma_failure_fields(id, message);
        }
    }
}

/// A question that was taken gets, whatever the server does meanwhile, one of three codes and
/// an object under its id; that object says that the question was answered exactly where the
/// code is that of success.
pub proof fn law_question_is_told(
    before: ServerView,
    request: AskRequestView,
    millis: i64,
    moves: Seq<Move>,
    elapsed_nanos: int,
)
    requires
        before.stores_sound(),
    ensures
        ({
            let (asked, start) = ask_started(before, Ok(request), millis);
            start matches AskStartView::Waiting { id, timeout_ms } ==> (ask_polled(
                run(asked, moves),
                id,
                timeout_ms,
                elapsed_nanos,
            ).1 matches AskPollView::Answered(reply) ==> (reply.status == 200 || reply.status == 500
                || reply.status == 504) && tells_success_of(reply, id))
        }),
{
    let (asked, start) = ask_started(before, Ok(request), millis);
    law_ask_keeps_well_formed(before, Ok(request), millis);
    law_stores_stay_sound(asked, moves);
    if let AskStartView::Waiting { id, timeout_ms } = start {
        lemma_poll_is_told(run(asked, moves), id, timeout_ms, elapsed_nanos);
    }
}

/// A question that would be taken but for a lock that fails is answered with the code of a
/// server's failure and the error of that lock, and is not among those that wait.
pub proof fn law_failed_lock_refuses_question(
    before: ServerView,
    request: AskRequestView,
    millis: i64,
)
    requires
        nonblank(request.question) is Some,
        chosen_project(before, request.project_path) matches Ok(path) ==> path.len() > 0
            && before.faults.pending_asks is Some,
    ensures
        ({
            let (after, start) = ask_started(before, Ok(request), millis);
            let error = match chosen_project(before, request.project_path) {
                Err(error) => error,
                Ok(_) => before.faults.pending_asks.unwrap(),
            };
            let json = failure_json("Lock error: "@ + error);
            &&& start == AskStartView::Refused(ReplyView { status: 500, body: json_text(json) })
            &&& json.field("error"@) == Json::Str("Lock error: "@ + error)
            &&& after.pending_asks == before.pending_asks
        }),
{
    let error = match chosen_project(before, request.project_path) {
        Err(error) => error,
        Ok(_) => before.faults.pending_asks.unwrap(),
    };
    lemma_failure_fields(Seq::empty(), "Lock error: "@ + error);
}

/// A question that waits when the lock of the answers fails is answered with the code of a
/// server's failure and the error of that lock, under its id, and is taken back.
pub proof fn law_failed_lock_withdraws_question(
    before: ServerView,
    id: Seq<char>,
    timeout_ms: u64,
    elapsed_nanos: int,
    error: Seq<char>,
)
    requires
        before.faults.ask_results == Some(error),
        before.faults.pending_asks is None,
    ensures
        ({
            let (after, poll) = ask_polled(before, id, timeout_ms, elapsed_nanos);
            let json = ask_failure_json(id, "Lock error: "@ + error);
            &&& poll == AskPollView::Answered(ReplyView { status: 500, body: json_text(json) })
            &&& json.field("id"@) == Json::Str(id)
            &&& json.field("error"@) == Json::Str("Lock error: "@ + error)
            &&& forall|i: int|
                0 <= i < after.pending_asks.len() ==> (#[trigger] after.pending_asks[i]).id != id
        }),
{
    lemma_withdrawn(before, id);
    lemma_failure_fields(id, "Lock error: "@ + error);
}

} // verus!
