//! What requests are for, and what each is answered.
use crate::answer::{answer_stored, answered};
use crate::ask::asks_json;
use crate::clip::clips_json;
use crate::http::{
    answer_reads, body_is_read, header_list, locks_hold, responded, routed, HttpMethod,
    OutcomeView, Route,
};
use crate::json::{json_text, parse_result, Json};
use crate::project::{
    given_projects, named_path, project_json, project_opened, projects_json, projects_replaced,
};
use crate::project_laws::{law_known_projects_are_the_last_list, law_known_projects_have_paths};
use crate::reply::{failure_text, ok_text, status_of, ReplyView};
use crate::state::ServerView;
use crate::text::occurs_in;
use vstd::prelude::*;

verus! {

// Routes

/// A request is for what its method and its address name together, letter by letter; what they
/// do not name is not found.
pub proof fn law_routes(url: Seq<char>)
    ensures
        routed(HttpMethod::Options, url) == Route::Preflight,
        routed(HttpMethod::Other, url) == Route::NotFound,
        routed(HttpMethod::Get, url) == Route::Status <==> url == "/status"@,
        routed(HttpMethod::Get, url) == Route::GetProject <==> url == "/project"@,
        routed(HttpMethod::Get, url) == Route::GetProjects <==> url == "/projects"@,
        routed(HttpMethod::Get, url) == Route::PendingClips <==> url == "/clips/pending"@,
        routed(HttpMethod::Get, url) == Route::PendingAsks <==> url == "/asks/pending"@,
        routed(HttpMethod::Get, url) == Route::NotFound <==> url != "/status"@ && url
            != "/project"@ && url != "/projects"@ && url != "/clips/pending"@ && url
            != "/asks/pending"@,
        routed(HttpMethod::Post, url) == Route::SetProject <==> url == "/project"@,
        routed(HttpMethod::Post, url) == Route::SetProjects <==> url == "/projects"@,
        routed(HttpMethod::Post, url) == Route::AnswerAsk <==> url == "/asks/answer"@,
        routed(HttpMethod::Post, url) == Route::Ask <==> url == "/ask"@,
        routed(HttpMethod::Post, url) == Route::Clip <==> url == "/clip"@,
        routed(HttpMethod::Post, url) == Route::NotFound <==> url != "/project"@ && url
            != "/projects"@ && url != "/asks/answer"@ && url != "/ask"@ && url != "/clip"@,
{
    reveal_strlit("/status");
    reveal_strlit("/project");
    reveal_strlit("/projects");
    reveal_strlit("/clips/pending");
    reveal_strlit("/asks/pending");
    reveal_strlit("/asks/answer");
    reveal_strlit("/ask");
    reveal_strlit("/clip");
    assert("/status"@.len() == 7);
    assert("/project"@.len() == 8);
    assert("/projects"@.len() == 9);
    assert("/clips/pending"@.len() == 14);
    assert("/asks/pending"@.len() == 13);
    assert("/asks/answer"@.len() == 12);
    assert("/ask"@.len() == 4);
    assert("/clip"@.len() == 5);
}

/// The bodies that are read are those of the requests that send something.
pub proof fn law_bodies_that_are_read(method: HttpMethod, url: Seq<char>)
    ensures
        body_is_read(routed(method, url)) <==> method == HttpMethod::Post && routed(method, url)
            != Route::NotFound,
{
}

/// Every reply allows pages of any origin to call the server with the methods that it knows, and
/// says that it is JSON.
pub proof fn law_headers()
    ensures
        header_list().len() == 4,
        header_list()[0] == ("Access-Control-Allow-Origin"@, "*"@),
        header_list()[1] == ("Access-Control-Allow-Methods"@, "GET, POST, OPTIONS"@),
        header_list()[2] == ("Access-Control-Allow-Headers"@, "Content-Type"@),
        header_list()[3] == ("Content-Type"@, "application/json"@),
{
}

/// The locks that a request needs are those of what it looks at or changes, and of a list of
/// projects only where it gives one.
pub proof fn law_locks_that_are_needed(
    view: ServerView,
    body: Result<Seq<char>, Seq<char>>,
    route: Route,
)
    ensures
        locks_hold(view, Route::GetProject, body) <==> view.faults.current_project is None,
        locks_hold(view, Route::GetProjects, body) <==> view.faults.projects is None
            && view.faults.current_project is None,
        locks_hold(view, Route::PendingClips, body) <==> view.faults.pending_clips is None,
        locks_hold(view, Route::PendingAsks, body) <==> view.faults.pending_asks is None,
        !locks_hold(view, Route::SetProjects, body) <==> view.faults.projects is Some && (
        body matches Ok(text) && given_projects(parse_result(text)) is Some),
        route != Route::GetProject && route != Route::GetProjects && route != Route::PendingClips
            && route != Route::PendingAsks && route != Route::SetProjects ==> locks_hold(
            view,
            route,
            body,
        ),
{
}

// Answers

/// The codes of replies: success where the text of a truthful mark is in the body, and else the
/// code of failure that is given.
pub proof fn law_codes_of_replies(body: Seq<char>, failure: u16)
    ensures
        occurs_in(body, "\"ok\":true"@) ==> status_of(body, failure) == 200,
        !occurs_in(body, "\"ok\":true"@) ==> status_of(body, failure) == failure,
{
}

/// The plain replies: success as such, and a failure with its message.
pub proof fn law_plain_replies(message: Seq<char>)
    ensures
        ok_text() == "{\"ok\":true}"@,
        failure_text(message) == "{\"ok\":false,\"error\":\""@ + message + "\"}"@,
{
}

/// What only looks something up is answered from what is there, and changes nothing.
pub proof fn law_lookups_are_answered(before: ServerView, body: Result<Seq<char>, Seq<char>>)
    ensures
        responded(before, Route::Preflight, body) == (
            before,
            OutcomeView::Answer(ReplyView { status: 204, body: Seq::empty() }),
        ),
        responded(before, Route::Status, body) == (
            before,
            OutcomeView::Answer(
                ReplyView { status: 200, body: "{\"ok\":true,\"version\":\"0.1.0\"}"@ },
            ),
        ),
        responded(before, Route::GetProject, body) == (
            before,
            OutcomeView::Answer(
                ReplyView { status: 200, body: json_text(project_json(before.current_project)) },
            ),
        ),
        responded(before, Route::GetProjects, body) == (
            before,
            OutcomeView::Answer(ReplyView { status: 200, body: json_text(projects_json(before)) }),
        ),
        responded(before, Route::NotFound, body) == (
            before,
            OutcomeView::Answer(
                ReplyView { status: 404, body: "{\"ok\":false,\"error\":\"Not found\"}"@ },
            ),
        ),
{
    reveal_strlit("{\"ok\":false,\"error\":\"");
    reveal_strlit("Not found");
    reveal_strlit("\"}");
    reveal_strlit("{\"ok\":false,\"error\":\"Not found\"}");
    assert("{\"ok\":false,\"error\":\""@ + "Not found"@ + "\"}"@
        == "{\"ok\":false,\"error\":\"Not found\"}"@);
}

/// What is handed out is all that waits, and is gone then; nothing else changes.
pub proof fn law_what_waits_is_handed_out(before: ServerView, body: Result<Seq<char>, Seq<char>>)
    ensures
        ({
            let (after, outcome) = responded(before, Route::PendingClips, body);
            &&& after.pending_clips.len() == 0
            &&& after == ServerView { pending_clips: after.pending_clips, ..before }
            &&& outcome == OutcomeView::Answer(
                ReplyView { status: 200, body: json_text(clips_json(before)) },
            )
        }),
        ({
            let (after, outcome) = responded(before, Route::PendingAsks, body);
            &&& after.pending_asks.len() == 0
            &&& after == ServerView { pending_asks: after.pending_asks, ..before }
            &&& outcome == OutcomeView::Answer(
                ReplyView { status: 200, body: json_text(asks_json(before)) },
            )
        }),
{
}

/// What is sent is handled by what it is for, with the whole body; questions and clips are passed
/// on with the whole body, and change nothing yet.
pub proof fn law_what_is_sent_is_handled(before: ServerView, body: Seq<char>)
    ensures
        ({
            let (after, outcome) = responded(before, Route::SetProject, Ok(body));
            let (opened, reply) = project_opened(before, named_path(parse_result(body)));
            &&& after == opened
            &&& outcome == OutcomeView::Answer(
                ReplyView { status: status_of(reply, 400), body: reply },
            )
        }),
        ({
            let (after, outcome) = responded(before, Route::AnswerAsk, Ok(body));
            let (stored, reply) = answer_stored(before, answered(parse_result(body)));
            &&& after == stored
            &&& outcome == OutcomeView::Answer(
                ReplyView { status: status_of(reply, 400), body: reply },
            )
        }),
        responded(before, Route::SetProjects, Ok(body)) == (
            projects_replaced(before, given_projects(parse_result(body))),
            OutcomeView::Answer(ReplyView { status: 200, body: "{\"ok\":true}"@ }),
        ),
        responded(before, Route::Ask, Ok(body)) == (before, OutcomeView::Ask { body }),
        responded(before, Route::Clip, Ok(body)) == (before, OutcomeView::Clip { body }),
{
}

/// A body that cannot be read changes nothing. It is refused with the error of reading it, but
/// for a list of projects, which then counts as not given.
pub proof fn law_unread_bodies_change_nothing(before: ServerView, route: Route, error: Seq<char>)
    requires
        route == Route::SetProject || route == Route::AnswerAsk || route == Route::Ask || route
            == Route::Clip,
    ensures
        responded(before, route, Err(error)) == (
            before,
            OutcomeView::Answer(
                ReplyView {
                    status: 400,
                    body: "{\"ok\":false,\"error\":\"Failed to read body: "@ + error + "\"}"@,
                },
            ),
        ),
        responded(before, Route::SetProjects, Err(error)) == (
            before,
            OutcomeView::Answer(ReplyView { status: 200, body: "{\"ok\":true}"@ }),
        ),
{
    reveal_strlit("{\"ok\":false,\"error\":\"");
    reveal_strlit("Failed to read body: ");
    reveal_strlit("{\"ok\":false,\"error\":\"Failed to read body: ");
    assert("{\"ok\":false,\"error\":\""@ + ("Failed to read body: "@ + error) + "\"}"@
        == "{\"ok\":false,\"error\":\"Failed to read body: "@ + error + "\"}"@);
}

/// What is looked up can be read from the answer, and a body that is no JSON is refused.
pub proof fn law_answers_can_be_read(
    view: ServerView,
    route: Route,
    body: Result<Seq<char>, Seq<char>>,
    reply: ReplyView,
)
    requires
        answer_reads(view, route, body, OutcomeView::Answer(reply)),
    ensures
        route == Route::GetProject ==> parse_result(reply.body) == Ok::<Json, Seq<char>>(
            project_json(view.current_project),
        ),
        route == Route::GetProjects ==> parse_result(reply.body) == Ok::<Json, Seq<char>>(
            projects_json(view),
        ),
        route == Route::PendingClips ==> parse_result(reply.body) == Ok::<Json, Seq<char>>(
            clips_json(view),
        ),
        route == Route::PendingAsks ==> parse_result(reply.body) == Ok::<Json, Seq<char>>(
            asks_json(view),
        ),
        (route == Route::SetProject || route == Route::AnswerAsk) && (body matches Ok(text)
            && parse_result(text) is Err) ==> reply.status == 400,
{
}

/// The list of projects that is told is the one that was given last: each entry with a path, with
/// the name and the path that it has, and marked where it is the open one.
pub proof fn law_given_projects_are_told(
    before: ServerView,
    given: Seq<char>,
    body: Result<Seq<char>, Seq<char>>,
    entries: Seq<(Seq<char>, Seq<char>)>,
)
    requires
        given_projects(parse_result(given)) == Some(entries),
        forall|i: int| 0 <= i < entries.len() ==> (#[trigger] entries[i]).1.len() > 0,
    ensures
        ({
            let after = responded(before, Route::SetProjects, Ok(given)).0;
            responded(after, Route::GetProjects, body).1 == OutcomeView::Answer(
                ReplyView {
                    status: 200,
                    body: json_text(
                        projects_json(ServerView { projects: entries, ..before }),
                    ),
                },
            )
        }),
{
    law_known_projects_have_paths(
        before,
        entries,
        entries,
        (Seq::empty(), Seq::empty()),
    );
    law_known_projects_are_the_last_list(before, before, entries, entries);
}

} // verus!
