use clip_server::http::{respond, Outcome, Route};
use clip_server::project::{handle_set_project, handle_set_projects, open_project, replace_projects};
use clip_server::state::ServerState;

fn answer(state: &mut ServerState, route: Route, body: &str) -> (u16, String) {
    match respond(state, route, Ok(body.to_string())) {
        Outcome::Answer(reply) => (reply.status, reply.body),
        _ => panic!("no answer"),
    }
}

#[test]
fn opened_project_is_shown_with_slashes() {
    let mut state = ServerState::new();
    let (status, body) = answer(&mut state, Route::GetProject, "");
    assert_eq!((status, body.as_str()), (200, "{\"ok\":true,\"path\":\"\"}"));
    let reply = handle_set_project(&mut state, "{\"path\":\"C:\\\\wiki\\\\one\"}");
    assert_eq!(reply, "{\"ok\":true}");
    assert_eq!(state.current_project, "C:/wiki/one");
    let (status, body) = answer(&mut state, Route::GetProject, "");
    assert_eq!((status, body.as_str()), (200, "{\"ok\":true,\"path\":\"C:/wiki/one\"}"));
}

#[test]
fn odd_characters_survive_in_answers() {
    let mut state = ServerState::new();
    state.current_project = "a\\b\"c\u{1}\n漢".to_string();
    let (_, body) = answer(&mut state, Route::GetProject, "");
    let value: serde_json::Value = serde_json::from_str(&body).unwrap();
    assert_eq!(value["path"].as_str(), Some("a\\b\"c\u{1}\n漢"));
}

#[test]
fn project_is_not_opened_without_a_path() {
    let mut state = ServerState::new();
    let required = "{\"ok\":false,\"error\":\"path field is required\"}";
    for body in ["{}", "{\"path\":5}", "[]", "null", "\"path\""] {
        assert_eq!(answer(&mut state, Route::SetProject, body), (400, required.to_string()));
    }
    let (status, body) = answer(&mut state, Route::SetProject, "{");
    assert_eq!(status, 400);
    assert_eq!(
        body,
        "{\"ok\":false,\"error\":\"Invalid JSON: EOF while parsing an object at line 1 column 1\"}"
    );
    assert_eq!(state.current_project, "");
    assert_eq!(open_project(&mut state, Ok(Some("/p".to_string()))), "{\"ok\":true}");
    assert_eq!(
        open_project(&mut state, Err("bad".to_string())),
        "{\"ok\":false,\"error\":\"Invalid JSON: bad\"}"
    );
    assert_eq!(state.current_project, "/p");
}

#[test]
fn project_is_not_opened_behind_a_failed_lock() {
    let mut state = ServerState::new();
    state.faults.current_project = Some("poisoned".to_string());
    assert_eq!(
        answer(&mut state, Route::SetProject, "{\"path\":\"/p\"}"),
        (400, "{\"ok\":false,\"error\":\"Lock error: poisoned\"}".to_string())
    );
    assert_eq!(state.current_project, "");
}

#[test]
fn known_projects_are_replaced_and_listed() {
    let mut state = ServerState::new();
    handle_set_project(&mut state, "{\"path\":\"/b\"}");
    let body = "{\"projects\":[{\"name\":\"A\",\"path\":\"/a\"},{\"name\":\"gone\"},\
                {\"path\":\"/b\"},{\"name\":\"C\",\"path\":\"\"},7]}";
    assert_eq!(
        answer(&mut state, Route::SetProjects, body),
        (200, "{\"ok\":true}".to_string())
    );
    assert_eq!(
        state.projects,
        vec![("A".to_string(), "/a".to_string()), ("".to_string(), "/b".to_string())]
    );
    let (status, body) = answer(&mut state, Route::GetProjects, "");
    assert_eq!(status, 200);
    assert_eq!(
        body,
        "{\"ok\":true,\"projects\":[{\"current\":false,\"name\":\"A\",\"path\":\"/a\"},\
         {\"current\":true,\"name\":\"\",\"path\":\"/b\"}]}"
    );
}

#[test]
fn known_projects_stay_without_a_list() {
    let mut state = ServerState::new();
    handle_set_projects(&mut state, "{\"projects\":[{\"name\":\"A\",\"path\":\"/a\"}]}");
    for body in ["", "{", "{}", "{\"projects\":{}}", "[]"] {
        assert_eq!(handle_set_projects(&mut state, body), "{\"ok\":true}");
    }
    assert_eq!(replace_projects(&mut state, None), "{\"ok\":true}");
    match respond(&mut state, Route::SetProjects, Err("lost".to_string())) {
        Outcome::Answer(reply) => assert_eq!((reply.status, reply.body.as_str()), (200, "{\"ok\":true}")),
        _ => panic!("no answer"),
    }
    assert_eq!(state.projects.len(), 1);
    handle_set_projects(&mut state, "{\"projects\":[]}");
    assert_eq!(state.projects.len(), 0);
}
