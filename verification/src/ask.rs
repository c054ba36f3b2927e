//! Questions for the desktop app.
use crate::answer::answers_readable;
use crate::clock::now_millis;
use crate::json::{
    field, json_of, json_text, listing, listing_body, no_members, object_value, parse_json,
    parse_result, read_text, set_member, string_value, text_field, trees, Json,
};
use crate::project::{choose_project, chosen_project, no_project_message};
use crate::reply::{failure_json, failure_object, labelled, Reply, ReplyView};
use crate::state::{asks_view, PendingAsk, PendingAskView, ServerState, ServerView};
use crate::text::{
    decimal, nonblank, same_text, signed_decimal, text_view, trim_nonblank, write_decimal,
    write_signed,
};
use vstd::prelude::*;

verus! {

/// How long a question waits for its answer, where it does not say.
pub const DEFAULT_ASK_TIMEOUT_MS: u64 = 300_000;

/// How long a question waits for its answer at least.
pub const MIN_ASK_TIMEOUT_MS: u64 = 1_000;

/// How long a question waits for its answer at most.
pub const MAX_ASK_TIMEOUT_MS: u64 = 1_800_000;

/// What a question says.
pub struct AskRequest {
    pub question: Option<String>,
    pub project_path: Option<String>,
    pub timeout_ms: Option<u64>,
}

#[verifier::ext_equal]
pub ghost struct AskRequestView {
    pub question: Option<Seq<char>>,
    pub project_path: Option<Seq<char>>,
    pub timeout_ms: Option<u64>,
}

impl View for AskRequest {
    type V = AskRequestView;

    open spec fn view(&self) -> AskRequestView {
        AskRequestView {
            question: text_view(self.question),
            project_path: text_view(self.project_path),
            timeout_ms: self.timeout_ms,
        }
    }
}

/// A question that waits for its answer.
pub struct AskTicket {
    pub id: String,
    pub timeout_ms: u64,
}

/// What becomes of a question at first.
pub enum AskStart {
    Refused(Reply),
    Waiting(AskTicket),
}

pub ghost enum AskStartView {
    Refused(ReplyView),
    Waiting { id: Seq<char>, timeout_ms: u64 },
}

impl View for AskStart {
    type V = AskStartView;

    open spec fn view(&self) -> AskStartView {
        match self {
            AskStart::Refused(reply) => AskStartView::Refused(reply@),
            AskStart::Waiting(ticket) => AskStartView::Waiting {
                id: ticket.id@,
                timeout_ms: ticket.timeout_ms,
            },
        }
    }
}

/// What a request body asks, or why it cannot be read.
pub open spec fn asked(parsed: Result<Json, Seq<char>>) -> Result<AskRequestView, Seq<char>> {
    match parsed {
        Ok(json) => Ok(ask_members(json)),
        Err(error) => Err(error),
    }
}

/// What an object asks.
pub open spec fn ask_members(json: Json) -> AskRequestView {
    AskRequestView {
        question: text_field(json, "question"@),
        project_path: text_field(json, "projectPath"@),
        timeout_ms: json.field("timeoutMs"@).as_u64(),
    }
}

/// Reads what an object asks.
pub fn ask_of(value: &serde_json::Value) -> (request: AskRequest)
    ensures
        request@ == ask_members(json_of(*value)),
{
    AskRequest {
        question: read_text(value, "question"),
        project_path: read_text(value, "projectPath"),
        timeout_ms: field(value, "timeoutMs").as_u64(),
    }
}

/// A request or an error, as the contracts see it.
pub open spec fn ask_request_view(request: Result<AskRequest, String>) -> Result<
    AskRequestView,
    Seq<char>,
> {
    match request {
        Ok(request) => Ok(request@),
        Err(error) => Err(error@),
    }
}

/// Reads what a request body asks.
pub fn read_ask(body: &str) -> (request: Result<AskRequest, String>)
    ensures
        ask_request_view(request) == asked(parse_result(body@)),
{
    match parse_json(body) {
        Ok(value) => Ok(ask_of(&value)),
        Err(error) => Err(error),
    }
}

/// How long a question waits for its answer.
pub open spec fn ask_timeout(wanted: Option<u64>) -> u64 {
    let timeout = wanted.unwrap_or(DEFAULT_ASK_TIMEOUT_MS);
    if timeout < MIN_ASK_TIMEOUT_MS {
        MIN_ASK_TIMEOUT_MS
    } else if timeout > MAX_ASK_TIMEOUT_MS {
        MAX_ASK_TIMEOUT_MS
    } else {
        timeout
    }
}

/// Decides how long a question waits for its answer.
pub fn clamp_timeout(wanted: Option<u64>) -> (timeout: u64)
    ensures
        timeout == ask_timeout(wanted),
        MIN_ASK_TIMEOUT_MS <= timeout <= MAX_ASK_TIMEOUT_MS,
{
    let timeout = match wanted {
        Some(timeout) => timeout,
        None => DEFAULT_ASK_TIMEOUT_MS,
    };
    if timeout < MIN_ASK_TIMEOUT_MS {
        MIN_ASK_TIMEOUT_MS
    } else if timeout > MAX_ASK_TIMEOUT_MS {
        MAX_ASK_TIMEOUT_MS
    } else {
        timeout
    }
}

/// The id of the question with a number, asked at a time.
pub open spec fn ask_id(millis: i64, number: u64) -> Seq<char> {
    "ask_"@ + signed_decimal(millis as int) + "_"@ + decimal(number as nat)
}

/// Makes the id of a question.
pub fn make_ask_id(millis: i64, number: u64) -> (id: String)
    ensures
        id@ == ask_id(millis, number),
{
    let mut id = "ask_".to_owned();
    id.append(write_signed(millis).as_str());
    id.append("_");
    id.append(write_decimal(number).as_str());
    id
}

/// Whether an id is one of a question with a lower number.
pub open spec fn numbered_before(id: Seq<char>, counter: u64) -> bool {
    exists|millis: i64, number: u64| number < counter && id == #[trigger] ask_id(millis, number)
}

/// The number after a number; the numbers start again after the greatest.
pub open spec fn next_number(number: u64) -> u64 {
    if number == u64::MAX {
        0
    } else {
        (number + 1) as u64
    }
}

/// A question that can be put before the desktop app.
pub struct AcceptedAsk {
    pub question: String,
    pub project_path: String,
    pub timeout_ms: u64,
}

#[verifier::ext_equal]
pub ghost struct AcceptedAskView {
    pub question: Seq<char>,
    pub project_path: Seq<char>,
    pub timeout_ms: u64,
}

impl View for AcceptedAsk {
    type V = AcceptedAskView;

    open spec fn view(&self) -> AcceptedAskView {
        AcceptedAskView {
            question: self.question@,
            project_path: self.project_path@,
            timeout_ms: self.timeout_ms,
        }
    }
}

/// The status with which a question is refused, and why it is.
pub ghost struct RefusalView {
    pub status: u16,
    pub message: Seq<char>,
}

impl RefusalView {
    /// The reply that refuses a question.
    pub open spec fn reply(self) -> ReplyView {
        ReplyView { status: self.status, body: json_text(failure_json(self.message)) }
    }

    /// Whether a reply is the one that refuses a question, and reads as the object that says
    /// why.
    pub open spec fn reads(self, reply: ReplyView) -> bool {
        reply == self.reply() && parse_result(reply.body) == Ok::<Json, Seq<char>>(
            failure_json(self.message),
        )
    }
}

pub open spec fn refusal(status: u16, message: Seq<char>) -> RefusalView {
    RefusalView { status, message }
}

/// What a question is accepted as, or how it is refused.
pub open spec fn ask_accepted(
    view: ServerView,
    request: Result<AskRequestView, Seq<char>>,
) -> Result<AcceptedAskView, RefusalView> {
    match request {
        Err(error) => Err(refusal(400, "Invalid JSON: "@ + error)),
        Ok(request) => match (
            nonblank(request.question),
            chosen_project(view, request.project_path),
        ) {
            (None, _) => Err(refusal(400, "question field is required"@)),
            (_, Err(error)) => Err(refusal(500, "Lock error: "@ + error)),
            (Some(question), Ok(project_path)) => if project_path.len() == 0 {
                Err(refusal(400, no_project_message()))
            } else {
                Ok(
                    AcceptedAskView {
                        question,
                        project_path,
                        timeout_ms: ask_timeout(request.timeout_ms),
                    },
                )
            },
        },
    }
}

/// The state after a question was put before the desktop app at a time, and what becomes of
/// the question. Its number is used up even where the lock of the questions fails.
pub open spec fn ask_queued(before: ServerView, ask: AcceptedAskView, millis: i64) -> (
    ServerView,
    AskStartView,
) {
    let id = ask_id(millis, before.ask_counter);
    let counted = ServerView { ask_counter: next_number(before.ask_counter), ..before };
    match before.faults.pending_asks {
        Some(error) => (
            counted,
            AskStartView::Refused(refusal(500, "Lock error: "@ + error).reply()),
        ),
        None => (
            ServerView {
                pending_asks: before.pending_asks.push(
                    PendingAskView {
                        id,
                        project_path: ask.project_path,
                        question: ask.question,
                    },
                ),
                ..counted
            },
            AskStartView::Waiting { id, timeout_ms: ask.timeout_ms },
        ),
    }
}

/// The state after a question was asked at a time, and what becomes of the question.
pub open spec fn ask_started(
    before: ServerView,
    request: Result<AskRequestView, Seq<char>>,
    millis: i64,
) -> (ServerView, AskStartView) {
    match ask_accepted(before, request) {
        Err(refused) => (before, AskStartView::Refused(refused.reply())),
        Ok(ask) => ask_queued(before, ask, millis),
    }
}

fn refuse(status: u16, message: &str) -> (reply: Reply)
    ensures
        refusal(status, message@).reads(reply@),
{
    Reply { status, body: failure_object(message) }
}

/// Decides whether a question can be put before the desktop app.
pub fn accept_ask(state: &ServerState, request: Result<AskRequest, String>) -> (accepted: Result<
    AcceptedAsk,
    Reply,
>)
    ensures
        ask_accepted(state@, ask_request_view(request)) matches Ok(ask) ==> (
        accepted matches Ok(accepted) && accepted@ == ask),
        ask_accepted(state@, ask_request_view(request)) matches Err(refused) ==> (
        accepted matches Err(reply) && refused.reads(reply@)),
{
    let request = match request {
        Ok(request) => request,
        Err(error) => return Err(refuse(400, labelled("Invalid JSON: ", error.as_str()).as_str())),
    };
    let question = match trim_nonblank(request.question) {
        Some(question) => question,
        None => return Err(refuse(400, "question field is required")),
    };
    let project_path = match choose_project(state, request.project_path) {
        Ok(project_path) => project_path,
        Err(error) => return Err(refuse(500, labelled("Lock error: ", error.as_str()).as_str())),
    };
    if project_path.as_str().is_empty() {
        return Err(
            refuse(
                400,
                "projectPath is required (set via POST /project or include in request body)",
            ),
        );
    }
    Ok(AcceptedAsk { question, project_path, timeout_ms: clamp_timeout(request.timeout_ms) })
}

/// Puts a question before the desktop app, at the time that goes into its id.
pub fn queue_ask(state: &mut ServerState, ask: AcceptedAsk, millis: i64) -> (start: AskStart)
    ensures
        (final(state)@, start@) == ask_queued(old(state)@, ask@, millis),
        old(state)@.faults.pending_asks matches Some(error) ==> (
        start@ matches AskStartView::Refused(reply) && refusal(500, "Lock error: "@ + error).reads(
            reply,
        )),
{
    let id = make_ask_id(millis, state.ask_counter);
    state.ask_counter = state.ask_counter.wrapping_add(1);
    match &state.faults.pending_asks {
        Some(error) => AskStart::Refused(
            refuse(500, labelled("Lock error: ", error.as_str()).as_str()),
        ),
        None => {
            let pending = PendingAsk {
                id: id.clone(),
                project_path: ask.project_path,
                question: ask.question,
            };
            let ghost asks = state.pending_asks@;
            state.pending_asks.push(pending);
            assert(asks_view(asks.push(pending)) == asks_view(asks).push(pending@));
            AskStart::Waiting(AskTicket { id, timeout_ms: ask.timeout_ms })
        },
    }
}

/// Whether a question was put before the desktop app at some time.
pub open spec fn queued_at_some_time(
    before: ServerView,
    ask: AcceptedAskView,
    after: ServerView,
    start: AskStartView,
) -> bool {
    exists|millis: i64| (after, start) == #[trigger] ask_queued(before, ask, millis)
}

/// Handles the body of a request that asks a question. The time that goes into the id of a
/// question that is accepted is that of the clock, of which nothing is known.
pub fn handle_ask(state: &mut ServerState, body: &str) -> (start: AskStart)
    ensures
        ask_accepted(old(state)@, asked(parse_result(body@))) matches Err(refused)
            ==> final(state)@ == old(state)@ && (start@ matches AskStartView::Refused(reply)
            && refused.reads(reply)),
        ask_accepted(old(state)@, asked(parse_result(body@))) matches Ok(ask)
            ==> queued_at_some_time(old(state)@, ask, final(state)@, start@) && (
        old(state)@.faults.pending_asks matches Some(error) ==> (
        start@ matches AskStartView::Refused(reply) && refusal(500, "Lock error: "@ + error).reads(
            reply,
        ))),
        answers_readable(old(state)@) ==> answers_readable(final(state)@),
{
    match accept_ask(state, read_ask(body)) {
        Err(reply) => AskStart::Refused(reply),
        Ok(ask) => {
            let ghost accepted = ask@;
            let millis: i64 = now_millis();
            let start = queue_ask(state, ask, millis);
            assert(queued_at_some_time(old(state)@, accepted, state@, start@));
            start
        },
    }
}

/// The questions but for those with an id.
pub open spec fn other_asks(asks: Seq<PendingAskView>, id: Seq<char>) -> Seq<PendingAskView> {
    asks.filter(|ask: PendingAskView| ask.id != id)
}

/// The state after a question was taken back; unchanged where the lock of the questions
/// fails.
pub open spec fn ask_withdrawn(before: ServerView, id: Seq<char>) -> ServerView {
    if before.faults.pending_asks is None {
        ServerView { pending_asks: other_asks(before.pending_asks, id), ..before }
    } else {
        before
    }
}

/// Takes a question back.
pub fn remove_pending_ask(state: &mut ServerState, id: &str)
    ensures
        final(state)@ == ask_withdrawn(old(state)@, id@),
{
    if state.faults.pending_asks.is_some() {
        return;
    }
    let ghost given = asks_view(state.pending_asks@);
    let ghost mut done: int = 0;
    let mut i: usize = 0;
    proof {
        reveal(Seq::filter);
        assert(given.skip(0) == given);
    }
    while i < state.pending_asks.len()
        invariant
            state@ == (ServerView { pending_asks: state@.pending_asks, ..old(state)@ }),
            i <= state@.pending_asks.len(),
            0 <= done <= given.len(),
            state@.pending_asks.len() - i == given.len() - done,
            state@.pending_asks.take(i as int) == other_asks(given.take(done), id@),
            state@.pending_asks.skip(i as int) == given.skip(done),
        decreases state@.pending_asks.len() - i,
    {
        let ghost before = state@.pending_asks;
        proof {
            reveal(Seq::filter);
            assert(before[i as int] == before.skip(i as int)[0]);
            assert(given[done] == given.skip(done)[0]);
            assert(given.take(done + 1).drop_last() == given.take(done));
            assert(given.skip(done + 1) == given.skip(done).drop_first());
        }
        if same_text(state.pending_asks[i].id.as_str(), id) {
            state.pending_asks.remove(i);
            proof {
                assert(state@.pending_asks.take(i as int) == before.take(i as int));
                assert(state@.pending_asks.skip(i as int) == before.skip(i as int).drop_first());
            }
        } else {
            i = i + 1;
            proof {
                assert(before.take(i as int) == before.take(i - 1).push(before[i - 1]));
                assert(before.skip(i as int) == before.skip(i - 1).drop_first());
            }
        }
        proof {
            done = done + 1;
        }
    }
    assert(given.take(done) == given);
    assert(state@.pending_asks.take(i as int) == state@.pending_asks);
}

/// How a question is handed to the desktop app.
pub open spec fn listed_ask(ask: PendingAskView) -> Json {
    Json::Object(
        map![
            "id"@ => Json::Str(ask.id),
            "projectPath"@ => Json::Str(ask.project_path),
            "question"@ => Json::Str(ask.question),
        ],
    )
}

/// What a request for the questions is answered.
pub open spec fn asks_json(view: ServerView) -> Json {
    listing("asks"@, view.pending_asks.map_values(|ask: PendingAskView| listed_ask(ask)))
}

/// Hands the questions to the desktop app, and forgets them.
pub fn take_pending_asks(state: &mut ServerState) -> (body: String)
    requires
        old(state)@.faults.pending_asks is None,
    ensures
        final(state)@ == (ServerView { pending_asks: Seq::empty(), ..old(state)@ }),
        body@ == json_text(asks_json(old(state)@)),
        parse_result(body@) == (Ok::<Json, Seq<char>>(asks_json(old(state)@))),
{
    let mut items: Vec<serde_json::Value> = Vec::new();
    let ghost listed = state@.pending_asks.map_values(|ask: PendingAskView| listed_ask(ask));
    for i in 0..state.pending_asks.len()
        invariant
            *state == *old(state),
            listed == state@.pending_asks.map_values(|ask: PendingAskView| listed_ask(ask)),
            items@.len() == i,
            forall|k: int| 0 <= k < i ==> json_of(#[trigger] items@[k]) == listed[k],
    {
        let mut members = no_members();
        set_member(&mut members, "id", string_value(state.pending_asks[i].id.as_str()));
        set_member(
            &mut members,
            "projectPath",
            string_value(state.pending_asks[i].project_path.as_str()),
        );
        set_member(&mut members, "question", string_value(state.pending_asks[i].question.as_str()));
        let item = object_value(members);
        assert(json_of(item) == listed[i as int]);
        items.push(item);
    }
    assert(trees(items@) == listed);
    state.pending_asks.clear();
    listing_body("asks", items)
}

} // verus!
