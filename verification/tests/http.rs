use clip_server::http::{
    can_respond, clip_reply, reads_body, reply_headers, respond, route, try_respond, HttpMethod,
    Outcome, Route,
};
use clip_server::reply::{failure_body, failure_object, reply_status};
use clip_server::state::ServerState;

fn answer_of(state: &mut ServerState, route: Route, body: Result<String, String>) -> (u16, String) {
    match respond(state, route, body) {
        Outcome::Answer(reply) => (reply.status, reply.body),
        _ => panic!("no answer"),
    }
}

#[test]
fn requests_are_routed() {
    let get = |url: &str| route(HttpMethod::Get, url);
    let post = |url: &str| route(HttpMethod::Post, url);
    assert!(get("/status") == Route::Status);
    assert!(get("/project") == Route::GetProject);
    assert!(get("/projects") == Route::GetProjects);
    assert!(get("/clips/pending") == Route::PendingClips);
    assert!(get("/asks/pending") == Route::PendingAsks);
    assert!(get("/ask") == Route::NotFound);
    assert!(get("/status?x") == Route::NotFound);
    assert!(post("/project") == Route::SetProject);
    assert!(post("/projects") == Route::SetProjects);
    assert!(post("/asks/answer") == Route::AnswerAsk);
    assert!(post("/ask") == Route::Ask);
    assert!(post("/clip") == Route::Clip);
    assert!(post("/status") == Route::NotFound);
    assert!(route(HttpMethod::Options, "/anything") == Route::Preflight);
    assert!(route(HttpMethod::Other, "/status") == Route::NotFound);
}

#[test]
fn fixed_answers() {
    let mut state = ServerState::new();
    let none = || Ok(String::new());
    assert_eq!(answer_of(&mut state, Route::Preflight, none()), (204, "".to_string()));
    assert_eq!(
        answer_of(&mut state, Route::Status, none()),
        (200, "{\"ok\":true,\"version\":\"0.1.0\"}".to_string())
    );
    assert_eq!(
        answer_of(&mut state, Route::NotFound, none()),
        (404, "{\"ok\":false,\"error\":\"Not found\"}".to_string())
    );
}

#[test]
fn bodies_that_cannot_be_read() {
    let mut state = ServerState::new();
    for route in [Route::SetProject, Route::AnswerAsk, Route::Ask, Route::Clip] {
        assert!(reads_body(route));
        assert_eq!(
            answer_of(&mut state, route, Err("cut off".to_string())),
            (400, "{\"ok\":false,\"error\":\"Failed to read body: cut off\"}".to_string())
        );
    }
    assert!(reads_body(Route::SetProjects));
    assert!(!reads_body(Route::GetProjects));
}

#[test]
fn answers_are_acknowledged() {
    let mut state = ServerState::new();
    let body = Ok("{\"id\":\"a\"}".to_string());
    assert_eq!(
        answer_of(&mut state, Route::AnswerAsk, body),
        (200, "{\"ok\":true}".to_string())
    );
    let body = Ok("{\"answer\":\"a\"}".to_string());
    assert_eq!(answer_of(&mut state, Route::AnswerAsk, body).0, 400);
    let body = Ok("?".to_string());
    assert_eq!(answer_of(&mut state, Route::AnswerAsk, body).0, 400);
}

#[test]
fn questions_and_clips_are_passed_on() {
    let mut state = ServerState::new();
    match respond(&mut state, Route::Ask, Ok("q".to_string())) {
        Outcome::Ask { body } => assert_eq!(body, "q"),
        _ => panic!("no question"),
    }
    match respond(&mut state, Route::Clip, Ok("c".to_string())) {
        Outcome::Clip { body } => assert_eq!(body, "c"),
        _ => panic!("no clip"),
    }
}

#[test]
fn lists_start_empty() {
    let mut state = ServerState::new();
    let none = || Ok(String::new());
    assert_eq!(
        answer_of(&mut state, Route::PendingClips, none()),
        (200, "{\"clips\":[],\"ok\":true}".to_string())
    );
    assert_eq!(
        answer_of(&mut state, Route::PendingAsks, none()),
        (200, "{\"asks\":[],\"ok\":true}".to_string())
    );
    assert_eq!(
        answer_of(&mut state, Route::GetProjects, none()),
        (200, "{\"ok\":true,\"projects\":[]}".to_string())
    );
}

#[test]
fn status_codes_of_bodies() {
    assert_eq!(reply_status("{\"ok\":true}", 400), 200);
    assert_eq!(reply_status("{\"id\":1,\"ok\":true}", 400), 200);
    assert_eq!(reply_status("{\"ok\":false}", 400), 400);
    assert_eq!(clip_reply("{\"ok\":false}".to_string()).status, 500);
}

#[test]
fn failures_are_written() {
    assert_eq!(failure_body("a \"b\""), "{\"ok\":false,\"error\":\"a \"b\"\"}");
    assert_eq!(failure_object("a \"b\""), "{\"error\":\"a \\\"b\\\"\",\"ok\":false}");
}

#[test]
fn headers_allow_every_origin() {
    assert_eq!(
        reply_headers(),
        vec![
            ("Access-Control-Allow-Origin", "*"),
            ("Access-Control-Allow-Methods", "GET, POST, OPTIONS"),
            ("Access-Control-Allow-Headers", "Content-Type"),
            ("Content-Type", "application/json"),
        ]
    );
}

#[test]
fn lookups_leave_the_state_as_it_is() {
    let mut state = ServerState::new();
    answer_of(&mut state, Route::SetProject, Ok("{\"path\":\"/p\"}".to_string()));
    for route in [Route::Preflight, Route::Status, Route::GetProject, Route::GetProjects, Route::NotFound] {
        let first = answer_of(&mut state, route, Ok(String::new()));
        let second = answer_of(&mut state, route, Ok(String::new()));
        assert_eq!(first, second);
    }
    assert_eq!(state.current_project, "/p");
    assert_eq!(state.ask_counter, 1);
}

#[test]
fn failed_locks_stop_lookups() {
    let mut state = ServerState::new();
    let routes = [
        Route::GetProject,
        Route::GetProjects,
        Route::SetProjects,
        Route::PendingClips,
        Route::PendingAsks,
    ];
    let body = Ok("{\"projects\":[{\"name\":\"n\",\"path\":\"/p\"}]}".to_string());
    assert!(routes.iter().all(|route| can_respond(&state, *route, &body)));
    state.faults.current_project = Some("p".to_string());
    state.faults.projects = Some("p".to_string());
    state.faults.pending_clips = Some("p".to_string());
    state.faults.pending_asks = Some("p".to_string());
    assert!(!routes.iter().any(|route| can_respond(&state, *route, &body)));
    for route in routes {
        assert!(try_respond(&mut state, route, body.clone()).is_none());
    }
    assert!(can_respond(&state, Route::SetProject, &body));
    assert!(can_respond(&state, Route::Ask, &body));
    assert_eq!(state.projects.len(), 0);
}

#[test]
fn request_without_a_project_list_needs_no_lock() {
    let mut state = ServerState::new();
    state.projects.push(("n".to_string(), "/p".to_string()));
    state.faults.projects = Some("p".to_string());
    let bodies = [
        Ok("nope".to_string()),
        Ok("{}".to_string()),
        Ok("{\"projects\":7}".to_string()),
        Err("cut off".to_string()),
    ];
    for body in bodies {
        assert!(can_respond(&state, Route::SetProjects, &body));
        match try_respond(&mut state, Route::SetProjects, body) {
            Some(Outcome::Answer(reply)) => {
                assert_eq!((reply.status, reply.body.as_str()), (200, "{\"ok\":true}"))
            }
            _ => panic!("no answer"),
        }
        assert_eq!(state.projects.len(), 1);
    }
    let list = Ok("{\"projects\":[]}".to_string());
    assert!(!can_respond(&state, Route::SetProjects, &list));
    assert!(try_respond(&mut state, Route::SetProjects, list.clone()).is_none());
    assert_eq!(state.projects.len(), 1);
    state.faults.projects = None;
    assert!(try_respond(&mut state, Route::SetProjects, list).is_some());
    assert_eq!(state.projects.len(), 0);
}

#[test]
fn last_opened_project_is_open() {
    let mut state = ServerState::new();
    let open = |state: &mut ServerState, body: &str| {
        answer_of(state, Route::SetProject, Ok(body.to_string())).0
    };
    assert_eq!(open(&mut state, "{}"), 400);
    assert_eq!(state.current_project, "");
    assert_eq!(open(&mut state, "{\"path\":\"/a\"}"), 200);
    assert_eq!(open(&mut state, "{\"path\":\"C:\\\\b\"}"), 200);
    assert_eq!(open(&mut state, "{\"path\":7}"), 400);
    answer_of(&mut state, Route::SetProjects, Ok("{\"projects\":[{\"path\":\"/z\"}]}".to_string()));
    state.faults.current_project = Some("p".to_string());
    assert_eq!(open(&mut state, "{\"path\":\"/c\"}"), 400);
    state.faults.current_project = None;
    assert_eq!(
        answer_of(&mut state, Route::GetProject, Ok(String::new())),
        (200, "{\"ok\":true,\"path\":\"C:/b\"}".to_string())
    );
}
