use clip_server::clip::{
    accept_clip, advance_clip, handle_clip, join_path, make_file_name, make_markdown, make_slug,
    plan_clip, take_pending_clips, ClipEvent, ClipRequest, ClipStep, PathStyle,
};
use clip_server::http::clip_reply;
use clip_server::state::ServerState;

fn request(title: &str, project: &str) -> Result<ClipRequest, String> {
    Ok(ClipRequest {
        title: Some(title.to_string()),
        url: Some("https://example.org/?q=\"x\"".to_string()),
        content: Some("text".to_string()),
        project_path: Some(project.to_string()),
    })
}

fn start_clip(
    state: &ServerState,
    request: Result<ClipRequest, String>,
    date: &str,
    compact_date: &str,
) -> ClipStep {
    match accept_clip(state, request) {
        Ok(clip) => plan_clip(clip, PathStyle::Unix, date, compact_date),
        Err(reply) => ClipStep::Done { reply },
    }
}

fn done(step: ClipStep) -> String {
    match step {
        ClipStep::Done { reply } => reply,
        _ => panic!("not done"),
    }
}

#[test]
fn slugs() {
    assert_eq!(make_slug("Hello, World!"), "hello-world");
    assert_eq!(make_slug("  Rust -- 101  "), "rust----101");
    assert_eq!(make_slug("a/../b\\c"), "a-b-c");
    assert_eq!(make_slug("Über Straße 漢字"), "über-straße-漢字");
    assert_eq!(make_slug("ΟΔΟΣ"), "οδος");
    assert_eq!(make_slug("!?"), "");
    assert_eq!(make_slug(&"Ab".repeat(40)), "ab".repeat(25));
}

#[test]
fn paths_are_joined() {
    for style in [PathStyle::Unix, PathStyle::Windows] {
        assert_eq!(join_path("/p", "raw", style), "/p/raw");
        assert_eq!(join_path("/p/", "raw", style), "/p/raw");
        assert_eq!(join_path("/", "raw", style), "/raw");
        assert_eq!(join_path("", "raw", style), "raw");
        assert_eq!(join_path("C:/", "raw", style), "C:/raw");
        assert_eq!(join_path("C:/x", "raw", style), "C:/x/raw");
        assert_eq!(join_path("::", "raw", style), "::/raw");
        assert_eq!(join_path("CC:", "raw", style), "CC:/raw");
    }
    for base in ["/p", "/p/", "/", "", "a//", ".", "..", "C:/x", "C:", "C:\\"] {
        let style = match std::path::MAIN_SEPARATOR {
            '/' => PathStyle::Unix,
            _ => PathStyle::Windows,
        };
        let path = std::path::Path::new(base).join("raw").to_string_lossy().replace('\\', "/");
        assert_eq!(join_path(base, "raw", style).replace('\\', "/"), path);
    }
}

#[test]
fn bare_drive_takes_no_slash_on_windows() {
    assert_eq!(join_path("C:", "raw", PathStyle::Unix), "C:/raw");
    assert_eq!(join_path("C:", "raw", PathStyle::Windows), "C:raw");
    assert_eq!(join_path("z:", "raw", PathStyle::Windows), "z:raw");
    assert_eq!(join_path("1:", "raw", PathStyle::Windows), "1:/raw");
    assert_eq!(join_path("C:\\", "raw", PathStyle::Windows), "C:\\raw");
    let mut state = ServerState::new();
    let clip = match accept_clip(&state, request("T", "C:")) {
        Ok(clip) => clip,
        Err(reply) => panic!("{}", reply),
    };
    let step = plan_clip(clip, PathStyle::Windows, "2025-01-02", "20250102");
    match &step {
        ClipStep::MakeDir { dir, .. } => assert_eq!(dir, "C:raw/sources"),
        _ => panic!("no directory"),
    }
    let step = advance_clip(&mut state, step, ClipEvent::DirMade);
    let step = advance_clip(&mut state, step, ClipEvent::PathFree);
    let reply = done(advance_clip(&mut state, step, ClipEvent::Written));
    assert_eq!(reply, "{\"ok\":true,\"path\":\"raw/sources/t-20250102.md\"}");
    assert_eq!(state.pending_clips[0].1, "C:raw/sources/t-20250102.md");
}

#[test]
fn clip_is_accepted_before_it_is_planned() {
    let mut state = ServerState::new();
    state.current_project = "/open".to_string();
    let asked = ClipRequest {
        title: None,
        url: None,
        content: Some("x".to_string()),
        project_path: None,
    };
    let clip = match accept_clip(&state, Ok(asked)) {
        Ok(clip) => clip,
        Err(reply) => panic!("{}", reply),
    };
    assert_eq!(clip.title, "Untitled");
    assert_eq!(clip.url, "");
    assert_eq!(clip.content, "x");
    assert_eq!(clip.project_path, "/open");
}

#[test]
fn file_names_are_numbered_from_the_second_on() {
    assert_eq!(make_file_name("a-20250102", 1), "a-20250102.md");
    assert_eq!(make_file_name("a-20250102", 2), "a-20250102-2.md");
    assert_eq!(make_file_name("a", 4294967295), "a-4294967295.md");
}

#[test]
fn markdown_of_a_clip() {
    assert_eq!(
        make_markdown("A \"B\"", "u\"v", "2025-01-02", "line\nline"),
        "---\ntype: clip\ntitle: \"A \\\"B\\\"\"\nurl: \"u\\\"v\"\nclipped: 2025-01-02\n\
         origin: web-clip\nsources: []\ntags: [web-clip]\n---\n\n# A \"B\"\n\nSource: u\"v\n\n\
         line\nline\n"
    );
}

#[test]
fn clip_is_written_under_the_first_free_name() {
    let mut state = ServerState::new();
    let step = start_clip(&state, request("My Page", "C:\\wiki"), "2025-01-02", "20250102");
    match &step {
        ClipStep::MakeDir { dir, .. } => assert_eq!(dir, "C:/wiki/raw/sources"),
        _ => panic!("no directory"),
    }
    let mut step = advance_clip(&mut state, step, ClipEvent::DirMade);
    for expected in ["my-page-20250102.md", "my-page-20250102-2.md", "my-page-20250102-3.md"] {
        match &step {
            ClipStep::Probe { path, .. } => {
                assert_eq!(path, &format!("C:/wiki/raw/sources/{}", expected))
            }
            _ => panic!("no probe"),
        }
        if !expected.contains("-3") {
            step = advance_clip(&mut state, step, ClipEvent::PathTaken);
        }
    }
    let step = advance_clip(&mut state, step, ClipEvent::PathFree);
    match &step {
        ClipStep::Write { path, job, .. } => {
            assert_eq!(path, "C:/wiki/raw/sources/my-page-20250102-3.md");
            assert!(job.markdown.contains("\nclipped: 2025-01-02\n"));
        }
        _ => panic!("nothing to write"),
    }
    let reply = clip_reply(done(advance_clip(&mut state, step, ClipEvent::Written)));
    assert_eq!(reply.status, 200);
    assert_eq!(
        reply.body,
        "{\"ok\":true,\"path\":\"raw/sources/my-page-20250102-3.md\"}"
    );
    assert_eq!(
        take_pending_clips(&mut state),
        "{\"clips\":[{\"filePath\":\"C:/wiki/raw/sources/my-page-20250102-3.md\",\
         \"projectPath\":\"C:/wiki\"}],\"ok\":true}"
    );
    assert_eq!(take_pending_clips(&mut state), "{\"clips\":[],\"ok\":true}");
}

#[test]
fn relative_path_is_what_is_left_of_the_file_path() {
    for project in ["/p", "/p/", "/", "a//", ".", "..", "./x/../y/.", "x y"] {
        let mut state = ServerState::new();
        let step = start_clip(&state, request("T", project), "2025-01-02", "20250102");
        let step = advance_clip(&mut state, step, ClipEvent::DirMade);
        let step = advance_clip(&mut state, step, ClipEvent::PathFree);
        let reply = done(advance_clip(&mut state, step, ClipEvent::Written));
        let value: serde_json::Value = serde_json::from_str(&reply).unwrap();
        let relative = value["path"].as_str().unwrap().to_string();
        let full = std::path::Path::new(&state.pending_clips[0].1);
        assert_eq!(full.strip_prefix(project).unwrap().to_string_lossy(), relative);
        assert_eq!(relative, "raw/sources/t-20250102.md");
    }
}

#[test]
fn failures_on_disk_are_reported() {
    let mut state = ServerState::new();
    let step = start_clip(&state, request("T", "/p"), "2025-01-02", "20250102");
    let failed = ClipEvent::DirFailed { error: "no room".to_string() };
    let reply = clip_reply(done(advance_clip(&mut state, step, failed)));
    assert_eq!(reply.status, 500);
    assert_eq!(
        reply.body,
        "{\"ok\":false,\"error\":\"Failed to create directory: no room\"}"
    );
    let step = start_clip(&state, request("T", "/p"), "2025-01-02", "20250102");
    let step = advance_clip(&mut state, step, ClipEvent::DirMade);
    let step = advance_clip(&mut state, step, ClipEvent::PathFree);
    let failed = ClipEvent::WriteFailed { error: "no room".to_string() };
    let reply = clip_reply(done(advance_clip(&mut state, step, failed)));
    assert_eq!(reply.status, 500);
    assert_eq!(reply.body, "{\"ok\":false,\"error\":\"Failed to write file: no room\"}");
    assert_eq!(state.pending_clips.len(), 0);
}

#[test]
fn written_clip_is_lost_to_a_failed_lock() {
    let mut state = ServerState::new();
    state.faults.pending_clips = Some("p".to_string());
    let step = start_clip(&state, request("T", "/p"), "2025-01-02", "20250102");
    let step = advance_clip(&mut state, step, ClipEvent::DirMade);
    let step = advance_clip(&mut state, step, ClipEvent::PathFree);
    let reply = clip_reply(done(advance_clip(&mut state, step, ClipEvent::Written)));
    assert_eq!(reply.status, 200);
    assert_eq!(state.pending_clips.len(), 0);
}

#[test]
fn clips_are_refused() {
    let mut state = ServerState::new();
    let refused = |state: &ServerState, body: &str| {
        let reply = clip_reply(done(handle_clip(state, body, PathStyle::Unix)));
        assert_eq!(reply.status, 500);
        reply.body
    };
    assert_eq!(
        refused(&state, "{\"content\":\"x\"}"),
        "{\"ok\":false,\"error\":\"projectPath is required (set via POST /project or include in \
         request body)\"}"
    );
    assert_eq!(
        refused(&state, "{\"projectPath\":\"/p\",\"content\":\"\"}"),
        "{\"ok\":false,\"error\":\"content is required\"}"
    );
    assert_eq!(
        refused(&state, "]"),
        "{\"ok\":false,\"error\":\"Invalid JSON: expected value at line 1 column 1\"}"
    );
    state.faults.current_project = Some("p".to_string());
    assert_eq!(
        refused(&state, "{\"content\":\"x\"}"),
        "{\"ok\":false,\"error\":\"Lock error: p\"}"
    );
}

#[test]
fn clip_takes_defaults_and_the_day() {
    let mut state = ServerState::new();
    state.current_project = "/open".to_string();
    match handle_clip(&state, "{\"content\":\"x\",\"title\":3}", PathStyle::Unix) {
        ClipStep::MakeDir { job, dir } => {
            assert_eq!(dir, "/open/raw/sources");
            assert!(job.base_name.starts_with("untitled-2"));
            assert_eq!(job.base_name.len(), "untitled-20250102".len());
            assert!(job.base_name["untitled-".len()..].chars().all(|c| c.is_ascii_digit()));
            assert!(job.markdown.contains("\nurl: \"\"\nclipped: 2"));
            assert!(job.markdown.ends_with("\n# Untitled\n\nSource: \n\nx\n"));
        }
        _ => panic!("refused"),
    }
}

#[test]
fn reply_names_the_whole_path_where_a_project_is_a_host_alone() {
    let named = |project: &str, style: PathStyle| {
        let mut state = ServerState::new();
        let clip = match accept_clip(&state, request("T", project)) {
            Ok(clip) => clip,
            Err(reply) => panic!("{}", reply),
        };
        let step = plan_clip(clip, style, "2025-01-02", "20250102");
        let step = advance_clip(&mut state, step, ClipEvent::DirMade);
        let step = advance_clip(&mut state, step, ClipEvent::PathFree);
        let reply = done(advance_clip(&mut state, step, ClipEvent::Written));
        let value: serde_json::Value = serde_json::from_str(&reply).unwrap();
        assert_eq!(value["ok"].as_bool(), Some(true));
        (value["path"].as_str().unwrap().to_string(), state.pending_clips[0].1.clone())
    };
    let hosts = ["//", "//host", "//host/", "\\\\host", "//?", "//?/", "//.", "//./", "//h:"];
    for project in hosts {
        let (path, file) = named(project, PathStyle::Windows);
        assert_eq!(path, file);
        assert_eq!(named(project, PathStyle::Unix).0, "raw/sources/t-20250102.md");
    }
    assert_eq!(named("//host", PathStyle::Windows).0, "//host/raw/sources/t-20250102.md");
    assert_eq!(named("//host/", PathStyle::Windows).0, "//host/raw/sources/t-20250102.md");
    assert_eq!(named("//", PathStyle::Windows).0, "//raw/sources/t-20250102.md");
    let others = ["/", "///", "///host", "//host//", "//host/share", "//host/share/", "C:", "C:/", "/x", "x"];
    for project in others {
        assert_eq!(named(project, PathStyle::Windows).0, "raw/sources/t-20250102.md");
    }
}
