use clip_server::answer::{handle_ask_answer, poll_ask, store_answer, AnswerRequest, AskPoll};
use clip_server::ask::{
    accept_ask, clamp_timeout, handle_ask, make_ask_id, queue_ask, read_ask, remove_pending_ask,
    take_pending_asks, AskRequest, AskStart, AskTicket,
};
use clip_server::state::ServerState;

fn start_ask(
    state: &mut ServerState,
    request: Result<AskRequest, String>,
    millis: i64,
) -> AskStart {
    match accept_ask(state, request) {
        Ok(ask) => queue_ask(state, ask, millis),
        Err(reply) => AskStart::Refused(reply),
    }
}

fn value(text: &str) -> serde_json::Value {
    serde_json::from_str(text).unwrap()
}

fn asking(question: &str, project: &str) -> Result<AskRequest, String> {
    Ok(AskRequest {
        question: Some(question.to_string()),
        project_path: Some(project.to_string()),
        timeout_ms: None,
    })
}

fn ticket(start: AskStart) -> AskTicket {
    match start {
        AskStart::Waiting(ticket) => ticket,
        AskStart::Refused(reply) => panic!("{}", reply.body),
    }
}

fn refusal(start: AskStart) -> (u16, String) {
    match start {
        AskStart::Waiting(_) => panic!("not refused"),
        AskStart::Refused(reply) => (reply.status, reply.body),
    }
}

fn reply(poll: AskPoll) -> (u16, String) {
    match poll {
        AskPoll::Answered(reply) => (reply.status, reply.body),
        AskPoll::Wait { .. } => panic!("no answer yet"),
    }
}

#[test]
fn question_is_read() {
    let request =
        read_ask("{\"question\":\"why?\",\"projectPath\":\"/p\",\"timeoutMs\":5000}").unwrap();
    assert_eq!(request.question.as_deref(), Some("why?"));
    assert_eq!(request.project_path.as_deref(), Some("/p"));
    assert_eq!(request.timeout_ms, Some(5000));
    for body in ["{\"timeoutMs\":-5}", "{\"timeoutMs\":1.5}", "{\"timeoutMs\":\"5\"}", "[]"] {
        let request = read_ask(body).unwrap();
        assert!(request.timeout_ms.is_none() && request.question.is_none());
    }
    assert!(read_ask("nope").is_err());
}

#[test]
fn timeouts_are_clamped() {
    assert_eq!(clamp_timeout(None), 300_000);
    assert_eq!(clamp_timeout(Some(0)), 1_000);
    assert_eq!(clamp_timeout(Some(1_000)), 1_000);
    assert_eq!(clamp_timeout(Some(5_000)), 5_000);
    assert_eq!(clamp_timeout(Some(1_800_001)), 1_800_000);
    assert_eq!(clamp_timeout(Some(u64::MAX)), 1_800_000);
}

#[test]
fn ids_hold_time_and_number() {
    assert_eq!(make_ask_id(1700000000123, 7), "ask_1700000000123_7");
    assert_eq!(make_ask_id(-1, 0), "ask_-1_0");
}

#[test]
fn question_is_queued_and_handed_out_once() {
    let mut state = ServerState::new();
    let first = ticket(start_ask(&mut state, asking("  why? \n", "C:\\w"), 10));
    let second = ticket(start_ask(&mut state, asking("how?", "/w"), 10));
    assert_eq!(first.id, "ask_10_1");
    assert_eq!(first.timeout_ms, 300_000);
    assert_eq!(second.id, "ask_10_2");
    assert_eq!(
        take_pending_asks(&mut state),
        "{\"asks\":[{\"id\":\"ask_10_1\",\"projectPath\":\"C:/w\",\"question\":\"why?\"},\
         {\"id\":\"ask_10_2\",\"projectPath\":\"/w\",\"question\":\"how?\"}],\"ok\":true}"
    );
    assert_eq!(take_pending_asks(&mut state), "{\"asks\":[],\"ok\":true}");
}

#[test]
fn question_falls_back_on_the_open_project() {
    let mut state = ServerState::new();
    state.current_project = "/open".to_string();
    ticket(handle_ask(&mut state, "{\"question\":\"why?\"}"));
    ticket(handle_ask(&mut state, "{\"question\":\"why?\",\"projectPath\":\"\"}"));
    assert_eq!(state.pending_asks.len(), 2);
    for ask in &state.pending_asks {
        assert_eq!(ask.project_path, "/open");
        assert!(ask.id.starts_with("ask_"));
    }
    assert!(state.pending_asks[0].id.ends_with("_1"));
    assert!(state.pending_asks[1].id.ends_with("_2"));
    assert_eq!(state.ask_counter, 3);
}

#[test]
fn clock_gives_a_plausible_time() {
    let mut state = ServerState::new();
    let id = ticket(handle_ask(&mut state, "{\"question\":\"q\",\"projectPath\":\"/p\"}")).id;
    let parts: Vec<&str> = id.split('_').collect();
    assert_eq!(parts.len(), 3);
    assert!(parts[1].parse::<i64>().unwrap() > 1_600_000_000_000);
}

#[test]
fn questions_are_refused() {
    let mut state = ServerState::new();
    let required = "{\"error\":\"question field is required\",\"ok\":false}".to_string();
    assert_eq!(refusal(handle_ask(&mut state, "{}")), (400, required.clone()));
    assert_eq!(refusal(handle_ask(&mut state, "{\"question\":\" \\t \"}")), (400, required));
    assert_eq!(
        refusal(handle_ask(&mut state, "{\"question\":\"why?\"}")),
        (
            400,
            "{\"error\":\"projectPath is required (set via POST /project or include in request body)\",\
             \"ok\":false}"
                .to_string()
        )
    );
    assert_eq!(
        refusal(handle_ask(&mut state, "x")),
        (
            400,
            "{\"error\":\"Invalid JSON: expected value at line 1 column 1\",\"ok\":false}".to_string()
        )
    );
    assert_eq!(state.pending_asks.len(), 0);
    assert_eq!(state.ask_counter, 1);
}

#[test]
fn failed_locks_refuse_questions() {
    let mut state = ServerState::new();
    state.faults.current_project = Some("p".to_string());
    let failed = "{\"error\":\"Lock error: p\",\"ok\":false}".to_string();
    assert_eq!(refusal(start_ask(&mut state, asking("why?", ""), 0)), (500, failed.clone()));
    assert_eq!(state.ask_counter, 1);
    ticket(start_ask(&mut state, asking("why?", "/p"), 0));
    state.faults.pending_asks = Some("p".to_string());
    assert_eq!(refusal(start_ask(&mut state, asking("why?", "/p"), 0)), (500, failed));
    assert_eq!(state.ask_counter, 3);
    assert_eq!(state.pending_asks.len(), 1);
}

#[test]
fn counter_starts_again_after_the_greatest_number() {
    let mut state = ServerState::new();
    state.ask_counter = u64::MAX;
    assert_eq!(
        ticket(start_ask(&mut state, asking("q", "/p"), 5)).id,
        "ask_5_18446744073709551615"
    );
    assert_eq!(ticket(start_ask(&mut state, asking("q", "/p"), 5)).id, "ask_5_0");
}

#[test]
fn answer_reaches_its_question() {
    let mut state = ServerState::new();
    let ask = ticket(start_ask(&mut state, asking("why?", "/p"), 1));
    match poll_ask(&mut state, &ask, 1_000) {
        AskPoll::Wait { nanos } => assert_eq!(nanos, 300_000_000_000 - 1_000),
        AskPoll::Answered(reply) => panic!("{}", reply.body),
    }
    let body = "{\"id\":\" ask_1_1 \",\"answer\":\"because \\\\ \\\"so\\\"\",\
                \"references\":[{\"n\":1.10},2,null,\"x\"]}";
    assert_eq!(handle_ask_answer(&mut state, body), "{\"ok\":true}");
    let (status, body) = reply(poll_ask(&mut state, &ask, u128::MAX));
    assert_eq!(status, 200);
    assert_eq!(
        body,
        "{\"answer\":\"because \\\\ \\\"so\\\"\",\"id\":\"ask_1_1\",\"ok\":true,\
         \"references\":[{\"n\":1.1},2,null,\"x\"]}"
    );
    assert_eq!(state.ask_results.len(), 0);
    assert_eq!(state.pending_asks.len(), 1);
}

#[test]
fn answers_have_defaults() {
    let mut state = ServerState::new();
    handle_ask_answer(&mut state, "{\"id\":\"a\",\"ok\":\"no\"}");
    handle_ask_answer(&mut state, "{\"id\":\"b\",\"ok\":false}");
    handle_ask_answer(&mut state, "{\"id\":\"c\",\"ok\":false,\"error\":\"tired\"}");
    let bodies: Vec<(u16, &str)> =
        state.ask_results.iter().map(|r| (r.status, r.body.as_str())).collect();
    assert_eq!(
        bodies,
        vec![
            (200, "{\"answer\":\"\",\"id\":\"a\",\"ok\":true,\"references\":[]}"),
            (500, "{\"error\":\"Failed to answer question\",\"id\":\"b\",\"ok\":false}"),
            (500, "{\"error\":\"tired\",\"id\":\"c\",\"ok\":false}"),
        ]
    );
}

#[test]
fn answers_without_an_id_are_refused() {
    let mut state = ServerState::new();
    let required = "{\"ok\":false,\"error\":\"id field is required\"}";
    assert_eq!(handle_ask_answer(&mut state, "{}"), required);
    assert_eq!(handle_ask_answer(&mut state, "{\"id\":\"  \"}"), required);
    assert_eq!(handle_ask_answer(&mut state, "{\"id\":7}"), required);
    assert_eq!(
        handle_ask_answer(&mut state, "{\"id\""),
        "{\"ok\":false,\"error\":\"Invalid JSON: EOF while parsing an object at line 1 column 5\"}"
    );
    state.faults.ask_results = Some("p".to_string());
    assert_eq!(
        handle_ask_answer(&mut state, "{\"id\":\"a\"}"),
        "{\"ok\":false,\"error\":\"Lock error: p\"}"
    );
    assert_eq!(state.ask_results.len(), 0);
}

#[test]
fn the_newest_hundred_answers_are_kept_one_for_each_question() {
    let mut state = ServerState::new();
    let send = |state: &mut ServerState, id: String, answer: &str| {
        let request = AnswerRequest {
            id: Some(id),
            ok: None,
            answer: Some(answer.to_string()),
            references: None,
            error: None,
        };
        assert_eq!(store_answer(state, Ok(request)), "{\"ok\":true}");
    };
    for i in 0..100 {
        send(&mut state, format!("q{}", i), "old");
    }
    send(&mut state, "q0".to_string(), "new");
    assert_eq!(state.ask_results.len(), 100);
    assert_eq!(state.ask_results[0].id, "q1");
    assert_eq!(state.ask_results[99].id, "q0");
    assert!(state.ask_results[99].body.contains("new"));
    send(&mut state, "q100".to_string(), "last");
    assert_eq!(state.ask_results.len(), 100);
    assert_eq!(state.ask_results[0].id, "q2");
    assert_eq!(state.ask_results[99].id, "q100");
}

#[test]
fn question_is_withdrawn_when_its_time_is_over() {
    let mut state = ServerState::new();
    let first = ticket(start_ask(&mut state, asking("why?", "/p"), 1));
    ticket(start_ask(&mut state, asking("how?", "/p"), 1));
    match poll_ask(&mut state, &first, 300_000_000_000 - 1) {
        AskPoll::Wait { nanos } => assert_eq!(nanos, 1),
        AskPoll::Answered(reply) => panic!("{}", reply.body),
    }
    let (status, body) = reply(poll_ask(&mut state, &first, 300_000_000_000));
    assert_eq!(status, 504);
    assert_eq!(
        body,
        "{\"error\":\"Timed out waiting for the desktop app to answer. Make sure LLM Wiki is open \
         and an LLM provider is configured.\",\"id\":\"ask_1_1\",\"ok\":false}"
    );
    assert_eq!(state.pending_asks.len(), 1);
    assert_eq!(state.pending_asks[0].id, "ask_1_2");
}

#[test]
fn failed_lock_of_the_answers_withdraws_the_question() {
    let mut state = ServerState::new();
    let first = ticket(start_ask(&mut state, asking("why?", "/p"), 1));
    state.faults.ask_results = Some("p".to_string());
    assert_eq!(
        reply(poll_ask(&mut state, &first, 0)),
        (500, "{\"error\":\"Lock error: p\",\"id\":\"ask_1_1\",\"ok\":false}".to_string())
    );
    assert_eq!(state.pending_asks.len(), 0);
}

#[test]
fn removing_a_question_keeps_the_others() {
    let mut state = ServerState::new();
    for question in ["a", "b", "c"] {
        ticket(start_ask(&mut state, asking(question, "/p"), 1));
    }
    remove_pending_ask(&mut state, "ask_1_2");
    remove_pending_ask(&mut state, "ask_1_9");
    let left: Vec<&str> = state.pending_asks.iter().map(|a| a.question.as_str()).collect();
    assert_eq!(left, vec!["a", "c"]);
    state.faults.pending_asks = Some("p".to_string());
    remove_pending_ask(&mut state, "ask_1_1");
    assert_eq!(state.pending_asks.len(), 2);
}

#[test]
fn question_is_accepted_before_it_is_queued() {
    let mut state = ServerState::new();
    let ask = match accept_ask(&state, asking(" why? ", "C:\\w")) {
        Ok(ask) => ask,
        Err(reply) => panic!("{}", reply.body),
    };
    assert_eq!(ask.question, "why?");
    assert_eq!(ask.project_path, "C:/w");
    assert_eq!(ask.timeout_ms, 300_000);
    assert_eq!(state.ask_counter, 1);
    assert_eq!(state.pending_asks.len(), 0);
    assert_eq!(ticket(queue_ask(&mut state, ask, -7)).id, "ask_-7_1");
    assert_eq!(state.ask_counter, 2);
    assert_eq!(state.pending_asks.len(), 1);
}

#[test]
fn stored_answers_read_as_replies_to_their_questions() {
    let mut state = ServerState::new();
    let references = "[-1,-9223372036854775808,18446744073709551615,0.1,1e16,-0.0,5e-324,\
                      1.7976931348623157e308,[{\"x\":-2.5e-7}]]";
    let body = format!("{{\"id\":\"\\u3000a \",\"answer\":\"so\",\"references\":{}}}", references);
    assert_eq!(handle_ask_answer(&mut state, &body), "{\"ok\":true}");
    handle_ask_answer(&mut state, "{\"id\":\"b\",\"ok\":false,\"error\":\"\\\"ok\\\":true\"}");
    handle_ask_answer(&mut state, "{\"id\":\" a\",\"answer\":\"again\",\"references\":[-1,0.5]}");
    let ids: Vec<&str> = state.ask_results.iter().map(|r| r.id.as_str()).collect();
    assert_eq!(ids, vec!["b", "a"]);
    for result in &state.ask_results {
        let read = value(&result.body);
        assert!(result.status == 200 || result.status == 500);
        assert_eq!(read["ok"].as_bool(), Some(result.status == 200));
        assert_eq!(read["id"].as_str(), Some(result.id.as_str()));
    }
    assert_eq!(value(&state.ask_results[0].body)["error"].as_str(), Some("\"ok\":true"));
    let read = value(&state.ask_results[1].body);
    assert_eq!(read["answer"].as_str(), Some("again"));
    assert_eq!(read["references"][0].as_i64(), Some(-1));
    assert!(read["references"][1].is_f64());
}

#[test]
fn every_code_tells_whether_the_question_was_answered() {
    let mut state = ServerState::new();
    let mut replies: Vec<(u16, String)> = Vec::new();
    replies.push(refusal(handle_ask(&mut state, "{")));
    let open = "{\"question\":\"q\",\"projectPath\":\"/p\"}";
    let first = ticket(handle_ask(&mut state, open));
    let second = ticket(handle_ask(&mut state, open));
    let third = ticket(handle_ask(&mut state, open));
    handle_ask_answer(&mut state, &format!("{{\"id\":\"{}\",\"references\":[-1.5]}}", first.id));
    replies.push(reply(poll_ask(&mut state, &first, 0)));
    handle_ask_answer(&mut state, &format!("{{\"id\":\"{}\",\"ok\":false}}", second.id));
    replies.push(reply(poll_ask(&mut state, &second, 0)));
    replies.push(reply(poll_ask(&mut state, &third, u128::MAX)));
    state.faults.pending_asks = Some("p".to_string());
    replies.push(refusal(handle_ask(&mut state, open)));
    let codes: Vec<u16> = replies.iter().map(|reply| reply.0).collect();
    assert_eq!(codes, vec![400, 200, 500, 504, 500]);
    for (status, body) in &replies {
        assert_eq!(value(body)["ok"].as_bool(), Some(*status == 200));
    }
    assert_eq!(value(&replies[1].1)["id"].as_str(), Some(first.id.as_str()));
    assert_eq!(value(&replies[4].1)["error"].as_str(), Some("Lock error: p"));
}

#[test]
fn ids_of_waiting_questions_are_distinct() {
    let mut state = ServerState::new();
    let mut ids: Vec<String> = Vec::new();
    for round in 0..50 {
        let ask = ticket(start_ask(&mut state, asking("q", "/p"), 5));
        ids.push(ask.id.clone());
        if round % 3 == 0 {
            remove_pending_ask(&mut state, &ask.id);
        }
        if round % 20 == 0 {
            take_pending_asks(&mut state);
        }
    }
    for i in 0..ids.len() {
        for j in 0..i {
            assert_ne!(ids[i], ids[j]);
        }
    }
    assert!(state.pending_asks.iter().all(|ask| ids.contains(&ask.id)));
}

#[test]
fn a_long_run_keeps_at_most_a_hundred_sound_answers() {
    let mut state = ServerState::new();
    for round in 0..260 {
        let id = if round % 7 == 0 { " twice ".to_string() } else { format!("q{} ", round) };
        let ok = round % 2 == 0;
        handle_ask_answer(&mut state, &format!("{{\"id\":\"{}\",\"ok\":{}}}", id, ok));
        handle_ask_answer(&mut state, "{\"id\":\"\\t\"}");
        assert!(state.ask_results.len() <= 100);
    }
    assert_eq!(state.ask_results.len(), 100);
    for (i, result) in state.ask_results.iter().enumerate() {
        assert_eq!(result.id.trim(), result.id);
        assert!(!result.id.is_empty());
        assert!(state.ask_results[..i].iter().all(|other| other.id != result.id));
        assert_eq!(value(&result.body)["ok"].as_bool(), Some(result.status == 200));
    }
}

#[test]
fn answer_waits_while_fewer_than_a_hundred_others_come_in() {
    let mut state = ServerState::new();
    for i in 0..30 {
        handle_ask_answer(&mut state, &format!("{{\"id\":\"early{}\"}}", i));
    }
    let ask = ticket(start_ask(&mut state, asking("why?", "/p"), 1));
    take_pending_asks(&mut state);
    handle_ask_answer(&mut state, "{\"id\":\"ask_1_1\",\"answer\":\"so\"}");
    let other = AskTicket { id: "early3".to_string(), timeout_ms: 1_000 };
    for i in 0..99 {
        handle_ask_answer(&mut state, &format!("{{\"id\":\"late{}\"}}", i % 98));
        if i == 5 {
            assert_eq!(reply(poll_ask(&mut state, &other, 0)).0, 200);
        }
    }
    handle_ask_answer(&mut state, "{\"id\":\" \"}");
    let (status, body) = reply(poll_ask(&mut state, &ask, u128::MAX));
    assert_eq!(status, 200);
    assert_eq!(value(&body)["answer"].as_str(), Some("so"));

    handle_ask_answer(&mut state, "{\"id\":\"ask_1_1\",\"answer\":\"so\"}");
    for i in 0..100 {
        handle_ask_answer(&mut state, &format!("{{\"id\":\"more{}\"}}", i));
    }
    assert_eq!(reply(poll_ask(&mut state, &ask, u128::MAX)).0, 504);
}

#[test]
fn second_answer_replaces_the_first() {
    let mut state = ServerState::new();
    handle_ask_answer(&mut state, "{\"id\":\"a\"}");
    handle_ask_answer(&mut state, "{\"id\":\"b\",\"answer\":\"one\"}");
    handle_ask_answer(&mut state, "{\"id\":\" b\",\"answer\":\"two\"}");
    let kept: Vec<(&str, &str)> =
        state.ask_results.iter().map(|r| (r.id.as_str(), r.body.as_str())).collect();
    assert_eq!(
        kept,
        vec![
            ("a", "{\"answer\":\"\",\"id\":\"a\",\"ok\":true,\"references\":[]}"),
            ("b", "{\"answer\":\"two\",\"id\":\"b\",\"ok\":true,\"references\":[]}"),
        ]
    );
}

#[test]
fn questions_can_be_taken_back_in_any_order() {
    let left = |ids: &[&str]| {
        let mut state = ServerState::new();
        for question in ["a", "b", "c", "d"] {
            ticket(start_ask(&mut state, asking(question, "/p"), 1));
        }
        for id in ids {
            remove_pending_ask(&mut state, id);
        }
        let questions: Vec<String> = state.pending_asks.into_iter().map(|a| a.question).collect();
        questions.join("")
    };
    assert_eq!(left(&["ask_1_1", "ask_1_3"]), "bd");
    assert_eq!(left(&["ask_1_3", "ask_1_1"]), "bd");
    assert_eq!(left(&["ask_1_3", "ask_1_3"]), "abd");
}

#[test]
fn refusals_read_as_their_messages() {
    let mut state = ServerState::new();
    state.faults.current_project = Some("a \"b\" \\".to_string());
    let (status, body) = refusal(handle_ask(&mut state, "{\"question\":\"q\"}"));
    assert_eq!(status, 500);
    assert_eq!(value(&body)["error"].as_str(), Some("Lock error: a \"b\" \\"));
    assert_eq!(value(&body).as_object().map(|members| members.len()), Some(2));
    let ask = ticket(start_ask(&mut state, asking("q", "/p"), 1));
    state.faults.ask_results = Some("a \"b\" \\".to_string());
    let (_, body) = reply(poll_ask(&mut state, &ask, 0));
    assert_eq!(value(&body)["error"].as_str(), Some("Lock error: a \"b\" \\"));
    assert_eq!(value(&body)["id"].as_str(), Some("ask_1_1"));
    assert_eq!(value(&body).as_object().map(|members| members.len()), Some(3));
}
