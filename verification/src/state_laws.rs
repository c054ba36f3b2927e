//! How the contracts see what the server holds: field by field, with nothing left out.
use crate::answer::{answer_request_view, AnswerRequest, AnswerRequestView, AskPoll, AskPollView};
use crate::ask::{ask_request_view, AcceptedAsk, AskRequest, AskRequestView, AskStart, AskStartView};
use crate::clip::{
    accepted_clip_view, clip_request_view, AcceptedClip, AcceptedClipView, ClipJob, ClipRequest,
    ClipRequestView, ClipStep, ClipStepView,
};
use crate::http::{body_view, Outcome, OutcomeView};
use crate::json::{json_of, trees};
use crate::reply::Reply;
use crate::state::{AskResult, Faults, PendingAsk, ServerState, ServerView, MAX_ASK_RESULTS};
use crate::text::text_view;
use vstd::prelude::*;

verus! {

/// A text that may be missing is seen as it is.
pub proof fn law_texts_are_seen(text: String)
    ensures
        text_view(Some(text)) == Some(text@),
        text_view(None) is None,
        body_view(Ok(text)) == Ok::<Seq<char>, Seq<char>>(text@),
        body_view(Err(text)) == Err::<Seq<char>, Seq<char>>(text@),
{
}

/// The stores are seen item by item, in their order.
pub proof fn law_stores_are_seen(state: ServerState)
    ensures
        state@.current_project == state.current_project@,
        state@.ask_counter == state.ask_counter,
        state@.faults == state.faults@,
        state@.projects.len() == state.projects@.len(),
        forall|i: int|
            0 <= i < state.projects@.len() ==> #[trigger] state@.projects[i] == (
                state.projects@[i].0@,
                state.projects@[i].1@,
            ),
        state@.pending_clips.len() == state.pending_clips@.len(),
        forall|i: int|
            0 <= i < state.pending_clips@.len() ==> #[trigger] state@.pending_clips[i] == (
                state.pending_clips@[i].0@,
                state.pending_clips@[i].1@,
            ),
        state@.pending_asks.len() == state.pending_asks@.len(),
        forall|i: int|
            0 <= i < state.pending_asks@.len() ==> #[trigger] state@.pending_asks[i]
                == state.pending_asks@[i]@,
        state@.ask_results.len() == state.ask_results@.len(),
        forall|i: int|
            0 <= i < state.ask_results@.len() ==> #[trigger] state@.ask_results[i]
                == state.ask_results@[i]@,
{
}

/// The items of the stores, and what is known of the locks, are seen field by field.
pub proof fn law_items_are_seen(ask: PendingAsk, result: AskResult, faults: Faults, reply: Reply)
    ensures
        ask@.id == ask.id@,
        ask@.project_path == ask.project_path@,
        ask@.question == ask.question@,
        result@.id == result.id@,
        result@.status == result.status,
        result@.body == result.body@,
        reply@.status == reply.status,
        reply@.body == reply.body@,
        faults@.current_project == text_view(faults.current_project),
        faults@.projects == text_view(faults.projects),
        faults@.pending_clips == text_view(faults.pending_clips),
        faults@.pending_asks == text_view(faults.pending_asks),
        faults@.ask_results == text_view(faults.ask_results),
{
}

/// The requests are seen field by field.
pub proof fn law_requests_are_seen(ask: AskRequest, answer: AnswerRequest, clip: ClipRequest)
    ensures
        ask@.question == text_view(ask.question),
        ask@.project_path == text_view(ask.project_path),
        ask@.timeout_ms == ask.timeout_ms,
        answer@.id == text_view(answer.id),
        answer@.ok == answer.ok,
        answer@.answer == text_view(answer.answer),
        answer@.error == text_view(answer.error),
        answer@.references is Some <==> answer.references is Some,
        answer.references matches Some(values) ==> answer@.references.unwrap() == trees(values@),
        clip@.title == text_view(clip.title),
        clip@.url == text_view(clip.url),
        clip@.content == text_view(clip.content),
        clip@.project_path == text_view(clip.project_path),
{
}

/// A request that was read, or the error of reading it, is seen as it is.
pub proof fn law_read_requests_are_seen(
    ask: AskRequest,
    answer: AnswerRequest,
    clip: ClipRequest,
    accepted: AcceptedClip,
    text: String,
)
    ensures
        ask_request_view(Ok(ask)) == Ok::<AskRequestView, Seq<char>>(ask@),
        ask_request_view(Err(text)) == Err::<AskRequestView, Seq<char>>(text@),
        answer_request_view(Ok(answer)) == Ok::<AnswerRequestView, Seq<char>>(answer@),
        answer_request_view(Err(text)) == Err::<AnswerRequestView, Seq<char>>(text@),
        clip_request_view(Ok(clip)) == Ok::<ClipRequestView, Seq<char>>(clip@),
        clip_request_view(Err(text)) == Err::<ClipRequestView, Seq<char>>(text@),
        accepted_clip_view(Ok(accepted)) == Ok::<AcceptedClipView, Seq<char>>(accepted@),
        accepted_clip_view(Err(text)) == Err::<AcceptedClipView, Seq<char>>(text@),
{
}

/// A list of values is seen value by value, in their order.
pub proof fn law_values_are_seen(values: Seq<serde_json::Value>)
    ensures
        trees(values).len() == values.len(),
        forall|i: int| 0 <= i < values.len() ==> #[trigger] trees(values)[i] == json_of(values[i]),
{
}

/// What was accepted is seen field by field.
pub proof fn law_accepted_requests_are_seen(ask: AcceptedAsk, clip: AcceptedClip, job: ClipJob)
    ensures
        ask@.question == ask.question@,
        ask@.project_path == ask.project_path@,
        ask@.timeout_ms == ask.timeout_ms,
        clip@.title == clip.title@,
        clip@.url == clip.url@,
        clip@.content == clip.content@,
        clip@.project_path == clip.project_path@,
        job@.project_path == job.project_path@,
        job@.style == job.style,
        job@.base_name == job.base_name@,
        job@.markdown == job.markdown@,
{
}

/// What is to be done next is seen as it is.
pub proof fn law_next_steps_are_seen(
    start: AskStart,
    poll: AskPoll,
    step: ClipStep,
    outcome: Outcome,
)
    ensures
        start matches AskStart::Refused(reply) ==> start@ == AskStartView::Refused(reply@),
        start matches AskStart::Waiting(ticket) ==> start@ == (AskStartView::Waiting {
            id: ticket.id@,
            timeout_ms: ticket.timeout_ms,
        }),
        poll matches AskPoll::Answered(reply) ==> poll@ == AskPollView::Answered(reply@),
        poll matches AskPoll::Wait { nanos } ==> poll@ == (AskPollView::Wait {
            nanos: nanos as int,
        }),
        step matches ClipStep::MakeDir { job, dir } ==> step@ == (ClipStepView::MakeDir {
            job: job@,
            dir: dir@,
        }),
        step matches ClipStep::Probe { job, number, path } ==> step@ == (ClipStepView::Probe {
            job: job@,
            number,
            path: path@,
        }),
        step matches ClipStep::Write { job, number, path } ==> step@ == (ClipStepView::Write {
            job: job@,
            number,
            path: path@,
        }),
        step matches ClipStep::Done { reply } ==> step@ == (ClipStepView::Done { reply: reply@ }),
        outcome matches Outcome::Answer(reply) ==> outcome@ == OutcomeView::Answer(reply@),
        outcome matches Outcome::Ask { body } ==> outcome@ == (OutcomeView::Ask { body: body@ }),
        outcome matches Outcome::Clip { body } ==> outcome@ == (OutcomeView::Clip { body: body@ }),
{
}

/// A server that was started anew knows no project and holds nothing, all its locks are whole,
/// and its first question has the number one. It keeps a hundred answers.
pub proof fn law_server_starts_empty()
    ensures
        ServerView::initial().current_project.len() == 0,
        ServerView::initial().projects.len() == 0,
        ServerView::initial().pending_clips.len() == 0,
        ServerView::initial().pending_asks.len() == 0,
        ServerView::initial().ask_results.len() == 0,
        ServerView::initial().ask_counter == 1,
        ServerView::initial().faults.current_project is None,
        ServerView::initial().faults.projects is None,
        ServerView::initial().faults.pending_clips is None,
        ServerView::initial().faults.pending_asks is None,
        ServerView::initial().faults.ask_results is None,
        MAX_ASK_RESULTS == 100,
{
}

} // verus!
