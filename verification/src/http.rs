//! Requests and what they are answered.
use crate::answer::{answer_stored, answered, answers_readable, handle_ask_answer};
use crate::ask::{asks_json, take_pending_asks};
use crate::clip::{clips_json, take_pending_clips};
use crate::json::{json_text, parse_result, Json};
use crate::project::{
    current_project_body, given_projects, handle_set_project, handle_set_projects, named_path,
    project_json, project_opened, projects_body, projects_json, projects_replaced,
    read_projects,
};
use crate::reply::{
    failure_body, failure_text, labelled, ok_body, ok_text, reply_status, status_of, Reply,
    ReplyView,
};
use crate::state::{ServerState, ServerView};
use crate::text::same_text;
use vstd::prelude::*;

verus! {

/// The method of a request, as far as the server tells methods apart.
#[derive(Clone, Copy, PartialEq, Eq, Structural)]
pub enum HttpMethod {
    Get,
    Post,
    Options,
    Other,
}

/// What a request is for.
#[derive(Clone, Copy, PartialEq, Eq, Structural)]
pub enum Route {
    Preflight,
    Status,
    GetProject,
    SetProject,
    GetProjects,
    SetProjects,
    PendingClips,
    PendingAsks,
    AnswerAsk,
    Ask,
    Clip,
    NotFound,
}

/// What a request with a method and a URL is for.
pub open spec fn routed(method: HttpMethod, url: Seq<char>) -> Route {
    match method {
        HttpMethod::Options => Route::Preflight,
        HttpMethod::Get => if url == "/status"@ {
            Route::Status
        } else if url == "/project"@ {
            Route::GetProject
        } else if url == "/projects"@ {
            Route::GetProjects
        } else if url == "/clips/pending"@ {
            Route::PendingClips
        } else if url == "/asks/pending"@ {
            Route::PendingAsks
        } else {
            Route::NotFound
        },
        HttpMethod::Post => if url == "/project"@ {
            Route::SetProject
        } else if url == "/projects"@ {
            Route::SetProjects
        } else if url == "/asks/answer"@ {
            Route::AnswerAsk
        } else if url == "/ask"@ {
            Route::Ask
        } else if url == "/clip"@ {
            Route::Clip
        } else {
            Route::NotFound
        },
        HttpMethod::Other => Route::NotFound,
    }
}

/// Tells what a request is for.
pub fn route(method: HttpMethod, url: &str) -> (route: Route)
    ensures
        route == routed(method, url@),
{
    match method {
        HttpMethod::Options => Route::Preflight,
        HttpMethod::Get => if same_text(url, "/status") {
            Route::Status
        } else if same_text(url, "/project") {
            Route::GetProject
        } else if same_text(url, "/projects") {
            Route::GetProjects
        } else if same_text(url, "/clips/pending") {
            Route::PendingClips
        } else if same_text(url, "/asks/pending") {
            Route::PendingAsks
        } else {
            Route::NotFound
        },
        HttpMethod::Post => if same_text(url, "/project") {
            Route::SetProject
        } else if same_text(url, "/projects") {
            Route::SetProjects
        } else if same_text(url, "/asks/answer") {
            Route::AnswerAsk
        } else if same_text(url, "/ask") {
            Route::Ask
        } else if same_text(url, "/clip") {
            Route::Clip
        } else {
            Route::NotFound
        },
        HttpMethod::Other => Route::NotFound,
    }
}

/// Whether the body of a request is read.
pub open spec fn body_is_read(route: Route) -> bool {
    route == Route::SetProject || route == Route::SetProjects || route == Route::AnswerAsk || route
        == Route::Ask || route == Route::Clip
}

/// Tells whether the body of a request is read.
pub fn reads_body(route: Route) -> (reads: bool)
    ensures
        reads == body_is_read(route),
{
    match route {
        Route::SetProject | Route::SetProjects | Route::AnswerAsk => true,
        Route::Ask | Route::Clip => true,
        _ => false,
    }
}

/// The headers of every reply, with which a page of any origin may call the server.
pub open spec fn header_list() -> Seq<(Seq<char>, Seq<char>)> {
    seq![
        ("Access-Control-Allow-Origin"@, "*"@),
        ("Access-Control-Allow-Methods"@, "GET, POST, OPTIONS"@),
        ("Access-Control-Allow-Headers"@, "Content-Type"@),
        ("Content-Type"@, "application/json"@),
    ]
}

/// Gives the headers of every reply.
pub fn reply_headers() -> (headers: Vec<(&'static str, &'static str)>)
    ensures
        headers@.map_values(|header: (&'static str, &'static str)| (header.0@, header.1@))
            == header_list(),
{
    let mut headers: Vec<(&'static str, &'static str)> = Vec::new();
    headers.push(("Access-Control-Allow-Origin", "*"));
    headers.push(("Access-Control-Allow-Methods", "GET, POST, OPTIONS"));
    headers.push(("Access-Control-Allow-Headers", "Content-Type"));
    headers.push(("Content-Type", "application/json"));
    headers
}

/// What is done with a request.
pub enum Outcome {
    /// The request is answered.
    Answer(Reply),
    /// The request asks a question, with the given body.
    Ask { body: String },
    /// The request clips a page, with the given body.
    Clip { body: String },
}

pub ghost enum OutcomeView {
    Answer(ReplyView),
    Ask { body: Seq<char> },
    Clip { body: Seq<char> },
}

impl View for Outcome {
    type V = OutcomeView;

    open spec fn view(&self) -> OutcomeView {
        match self {
            Outcome::Answer(reply) => OutcomeView::Answer(reply@),
            Outcome::Ask { body } => OutcomeView::Ask { body: body@ },
            Outcome::Clip { body } => OutcomeView::Clip { body: body@ },
        }
    }
}

/// A body or the error of reading it, as the contracts see it.
pub open spec fn body_view(body: Result<String, String>) -> Result<Seq<char>, Seq<char>> {
    match body {
        Ok(body) => Ok(body@),
        Err(error) => Err(error@),
    }
}

/// Whether a body gives a project list.
pub open spec fn gives_projects(body: Result<Seq<char>, Seq<char>>) -> bool {
    body matches Ok(body) && given_projects(parse_result(body)) is Some
}

/// The locks without which a request cannot be answered.
pub open spec fn locks_hold(
    view: ServerView,
    route: Route,
    body: Result<Seq<char>, Seq<char>>,
) -> bool {
    match route {
        Route::GetProject => view.faults.current_project is None,
        Route::GetProjects => view.faults.projects is None && view.faults.current_project is None,
        Route::SetProjects => gives_projects(body) ==> view.faults.projects is None,
        Route::PendingClips => view.faults.pending_clips is None,
        Route::PendingAsks => view.faults.pending_asks is None,
        _ => true,
    }
}

/// Tells whether the locks hold without which a request cannot be answered.
pub fn can_respond(state: &ServerState, route: Route, body: &Result<String, String>) -> (can: bool)
    ensures
        can == locks_hold(state@, route, body_view(*body)),
{
    match route {
        Route::GetProject => state.faults.current_project.is_none(),
        Route::GetProjects => state.faults.projects.is_none()
            && state.faults.current_project.is_none(),
        Route::SetProjects => state.faults.projects.is_none() || match body {
            Ok(body) => read_projects(body.as_str()).is_none(),
            Err(_) => true,
        },
        Route::PendingClips => state.faults.pending_clips.is_none(),
        Route::PendingAsks => state.faults.pending_asks.is_none(),
        _ => true,
    }
}

pub open spec fn answer_with(status: u16, body: Seq<char>) -> OutcomeView {
    OutcomeView::Answer(ReplyView { status, body })
}

/// The answer to a request whose body cannot be read.
pub open spec fn unread_answer(error: Seq<char>) -> OutcomeView {
    answer_with(400, failure_text("Failed to read body: "@ + error))
}

/// The state after a request, and what is done with it.
pub open spec fn responded(
    before: ServerView,
    route: Route,
    body: Result<Seq<char>, Seq<char>>,
) -> (ServerView, OutcomeView) {
    match route {
        Route::Preflight => (before, answer_with(204, Seq::empty())),
        Route::Status => (before, answer_with(200, "{\"ok\":true,\"version\":\"0.1.0\"}"@)),
        Route::GetProject => (
            before,
            answer_with(200, json_text(project_json(before.current_project))),
        ),
        Route::SetProject => match body {
            Ok(body) => {
                let (after, reply) = project_opened(before, named_path(parse_result(body)));
                (after, answer_with(status_of(reply, 400), reply))
            },
            Err(error) => (before, unread_answer(error)),
        },
        Route::GetProjects => (before, answer_with(200, json_text(projects_json(before)))),
        Route::SetProjects => (
            match body {
                Ok(body) => projects_replaced(before, given_projects(parse_result(body))),
                Err(_) => before,
            },
            answer_with(200, ok_text()),
        ),
        Route::PendingClips => (
            ServerView { pending_clips: Seq::empty(), ..before },
            answer_with(200, json_text(clips_json(before))),
        ),
        Route::PendingAsks => (
            ServerView { pending_asks: Seq::empty(), ..before },
            answer_with(200, json_text(asks_json(before))),
        ),
        Route::AnswerAsk => match body {
            Ok(body) => {
                let (after, reply) = answer_stored(before, answered(parse_result(body)));
                (after, answer_with(status_of(reply, 400), reply))
            },
            Err(error) => (before, unread_answer(error)),
        },
        Route::Ask => match body {
            Ok(body) => (before, OutcomeView::Ask { body }),
            Err(error) => (before, unread_answer(error)),
        },
        Route::Clip => match body {
            Ok(body) => (before, OutcomeView::Clip { body }),
            Err(error) => (before, unread_answer(error)),
        },
        Route::NotFound => (before, answer_with(404, failure_text("Not found"@))),
    }
}

/// The object that a request to look something up is answered, if it is such a request.
pub open spec fn shown(view: ServerView, route: Route) -> Option<Json> {
    match route {
        Route::GetProject => Some(project_json(view.current_project)),
        Route::GetProjects => Some(projects_json(view)),
        Route::PendingClips => Some(clips_json(view)),
        Route::PendingAsks => Some(asks_json(view)),
        _ => None,
    }
}

fn reply(status: u16, body: String) -> (outcome: Outcome)
    ensures
        outcome@ == answer_with(status, body@),
{
    Outcome::Answer(Reply { status, body })
}

fn unread(error: String) -> (outcome: Outcome)
    ensures
        outcome@ == unread_answer(error@),
{
    reply(400, failure_body(labelled("Failed to read body: ", error.as_str()).as_str()))
}

/// Whether what is looked up can be read from the answer, whatever characters are in it, and
/// whether a body that is no JSON is refused.
pub open spec fn answer_reads(
    view: ServerView,
    route: Route,
    body: Result<Seq<char>, Seq<char>>,
    outcome: OutcomeView,
) -> bool {
    &&& shown(view, route) matches Some(json) ==> (outcome matches OutcomeView::Answer(reply)
        && reply.status == 200 && parse_result(reply.body) == Ok::<Json, Seq<char>>(json))
    &&& (route == Route::SetProject || route == Route::AnswerAsk) ==> (body matches Ok(body) ==> (
    parse_result(body) is Err ==> (outcome matches OutcomeView::Answer(reply) && reply.status
        == 400)))
}

/// Answers a request, but for questions and clips, which take more than one step. The body
/// matters only where [`reads_body`] says so.
pub fn respond(
    state: &mut ServerState,
    route: Route,
    body: Result<String, String>,
) -> (outcome: Outcome)
    requires
        locks_hold(old(state)@, route, body_view(body)),
    ensures
        (final(state)@, outcome@) == responded(old(state)@, route, body_view(body)),
        answer_reads(old(state)@, route, body_view(body), outcome@),
        answers_readable(old(state)@) ==> answers_readable(final(state)@),
{
    match route {
        Route::Preflight => reply(204, String::new()),
        Route::Status => reply(200, "{\"ok\":true,\"version\":\"0.1.0\"}".to_owned()),
        Route::GetProject => reply(200, current_project_body(state)),
        Route::SetProject => match body {
            Ok(body) => {
                let text = handle_set_project(state, body.as_str());
                reply(reply_status(text.as_str(), 400), text)
            },
            Err(error) => unread(error),
        },
        Route::GetProjects => reply(200, projects_body(state)),
        Route::SetProjects => match body {
            Ok(body) => reply(200, handle_set_projects(state, body.as_str())),
            Err(_) => reply(200, ok_body()),
        },
        Route::PendingClips => reply(200, take_pending_clips(state)),
        Route::PendingAsks => reply(200, take_pending_asks(state)),
        Route::AnswerAsk => match body {
            Ok(body) => {
                let text = handle_ask_answer(state, body.as_str());
                reply(reply_status(text.as_str(), 400), text)
            },
            Err(error) => unread(error),
        },
        Route::Ask => match body {
            Ok(body) => Outcome::Ask { body },
            Err(error) => unread(error),
        },
        Route::Clip => match body {
            Ok(body) => Outcome::Clip { body },
            Err(error) => unread(error),
        },
        Route::NotFound => reply(404, failure_body("Not found")),
    }
}

/// Answers a request as [`respond`] does, unless a lock fails that it needs: nothing is done
/// then.
pub fn try_respond(
    state: &mut ServerState,
    route: Route,
    body: Result<String, String>,
) -> (outcome: Option<Outcome>)
    ensures
        outcome is Some <==> locks_hold(old(state)@, route, body_view(body)),
        outcome is None ==> final(state)@ == old(state)@,
        outcome matches Some(outcome) ==> (final(state)@, outcome@) == responded(
            old(state)@,
            route,
            body_view(body),
        ) && answer_reads(old(state)@, route, body_view(body), outcome@),
        answers_readable(old(state)@) ==> answers_readable(final(state)@),
{
    if can_respond(state, route, &body) {
        Some(respond(state, route, body))
    } else {
        None
    }
}

/// Answers a request that clips a page, once it is done.
pub fn clip_reply(reply: String) -> (answer: Reply)
    ensures
        answer@ == (ReplyView { status: status_of(reply@, 500), body: reply@ }),
{
    let status = reply_status(reply.as_str(), 500);
    Reply { status, body: reply }
}

} // verus!
