//! The open project and the known projects.
use crate::json::{
    bool_value, field, json_of, json_text, lemma_flat_object, listing, listing_body,
    nesting_limit, no_members, object_value, ok_mark, parse_json, parse_result, read_text,
    set_member, string_value, text_field, trees, write_json, Json,
};
use crate::reply::{
    failure_body, failure_text, labelled, lemma_invalid_json_status, ok_body, ok_text,
    status_of,
};
use crate::state::{pairs_view, ServerState, ServerView};
use crate::text::{normalize_slashes, occurs_in, same_text, slashed, text_view};
use vstd::prelude::*;

verus! {

/// The path that a request names, or why its body cannot be read.
pub open spec fn named_path(parsed: Result<Json, Seq<char>>) -> Result<
    Option<Seq<char>>,
    Seq<char>,
> {
    match parsed {
        Ok(json) => Ok(path_member(json)),
        Err(error) => Err(error),
    }
}

/// The path that an object names.
pub open spec fn path_member(json: Json) -> Option<Seq<char>> {
    text_field(json, "path"@)
}

/// Reads the path that an object names.
pub fn path_of(value: &serde_json::Value) -> (path: Option<String>)
    ensures
        text_view(path) == path_member(json_of(*value)),
{
    read_text(value, "path")
}

/// Reads the path that a request names.
pub fn read_path(body: &str) -> (path: Result<Option<String>, String>)
    ensures
        named_path(parse_result(body@)) == match path {
            Ok(path) => Ok::<Option<Seq<char>>, Seq<char>>(text_view(path)),
            Err(error) => Err::<Option<Seq<char>>, Seq<char>>(error@),
        },
        path matches Err(error) ==> !occurs_in(error@, ok_mark()),
{
    match parse_json(body) {
        Ok(value) => Ok(path_of(&value)),
        Err(error) => Err(error),
    }
}

/// The state and the reply after a request to open a project.
pub open spec fn project_opened(
    before: ServerView,
    path: Result<Option<Seq<char>>, Seq<char>>,
) -> (ServerView, Seq<char>) {
    match path {
        Err(error) => (before, failure_text("Invalid JSON: "@ + error)),
        Ok(None) => (before, failure_text("path field is required"@)),
        Ok(Some(path)) => match before.faults.current_project {
            Some(error) => (before, failure_text("Lock error: "@ + error)),
            None => (ServerView { current_project: slashed(path), ..before }, ok_text()),
        },
    }
}

/// Opens the project with the given path, with its backslashes turned into slashes.
pub fn open_project(
    state: &mut ServerState,
    path: Result<Option<String>, String>,
) -> (reply: String)
    ensures
        (final(state)@, reply@) == project_opened(
            old(state)@,
            match path {
                Ok(path) => Ok(text_view(path)),
                Err(error) => Err(error@),
            },
        ),
{
    let path = match path {
        Ok(Some(path)) => path,
        Ok(None) => return failure_body("path field is required"),
        Err(error) => return failure_body(labelled("Invalid JSON: ", error.as_str()).as_str()),
    };
    match &state.faults.current_project {
        Some(error) => failure_body(labelled("Lock error: ", error.as_str()).as_str()),
        None => {
            state.current_project = normalize_slashes(path.as_str());
            ok_body()
        },
    }
}

/// Handles the body of a request to open a project.
pub fn handle_set_project(state: &mut ServerState, body: &str) -> (reply: String)
    ensures
        (final(state)@, reply@) == project_opened(old(state)@, named_path(parse_result(body@))),
        parse_result(body@) is Err ==> status_of(reply@, 400) == 400,
{
    let path = read_path(body);
    proof {
        if let Err(error) = &path {
            lemma_invalid_json_status(error@, 400);
        }
    }
    open_project(state, path)
}

/// The path that a request is about: its own, or else that of the open project; with
/// slashes for backslashes. It fails where the open project is needed and its lock fails.
pub open spec fn chosen_project(view: ServerView, own: Option<Seq<char>>) -> Result<
    Seq<char>,
    Seq<char>,
> {
    if own is Some && own.unwrap().len() > 0 {
        Ok(slashed(own.unwrap()))
    } else {
        match view.faults.current_project {
            Some(error) => Err(error),
            None => Ok(slashed(view.current_project)),
        }
    }
}

/// Chooses the path that a request is about.
pub fn choose_project(state: &ServerState, own: Option<String>) -> (path: Result<String, String>)
    ensures
        chosen_project(state@, text_view(own)) == match path {
            Ok(path) => Ok::<Seq<char>, Seq<char>>(path@),
            Err(error) => Err::<Seq<char>, Seq<char>>(error@),
        },
{
    if let Some(own) = own {
        if !own.as_str().is_empty() {
            return Ok(normalize_slashes(own.as_str()));
        }
    }
    match &state.faults.current_project {
        Some(error) => Err(error.clone()),
        None => Ok(normalize_slashes(state.current_project.as_str())),
    }
}

/// What is said where no project is known.
pub open spec fn no_project_message() -> Seq<char> {
    "projectPath is required (set via POST /project or include in request body)"@
}

/// What a request for the open project is answered.
pub open spec fn project_json(path: Seq<char>) -> Json {
    Json::Object(map!["ok"@ => Json::Bool(true), "path"@ => Json::Str(path)])
}

/// Writes an object with a truthful `ok` member and a path.
pub fn path_body(path: &str) -> (body: String)
    ensures
        body@ == json_text(project_json(path@)),
        parse_result(body@) == (Ok::<Json, Seq<char>>(project_json(path@))),
        occurs_in(body@, ok_mark()),
{
    let mut members = no_members();
    set_member(&mut members, "ok", bool_value(true));
    set_member(&mut members, "path", string_value(path));
    let value = object_value(members);
    proof {
        assert(json_of(value) == project_json(path@));
        reveal_strlit("ok");
        reveal_strlit("path");
        assert("ok"@.len() != "path"@.len());
        lemma_flat_object(json_of(value)->Object_0, nesting_limit());
    }
    write_json(&value)
}

/// Answers a request for the open project.
pub fn current_project_body(state: &ServerState) -> (body: String)
    requires
        state@.faults.current_project is None,
    ensures
        body@ == json_text(project_json(state@.current_project)),
        parse_result(body@) == (Ok::<Json, Seq<char>>(project_json(state@.current_project))),
{
    path_body(state.current_project.as_str())
}

/// How a known project is listed.
pub open spec fn listed_project(project: (Seq<char>, Seq<char>), current: Seq<char>) -> Json {
    Json::Object(
        map![
            "name"@ => Json::Str(project.0),
            "path"@ => Json::Str(project.1),
            "current"@ => Json::Bool(project.1 == current),
        ],
    )
}

/// What a request for the known projects is answered.
pub open spec fn projects_json(view: ServerView) -> Json {
    listing(
        "projects"@,
        view.projects.map_values(
            |project: (Seq<char>, Seq<char>)| listed_project(project, view.current_project),
        ),
    )
}

/// Answers a request for the known projects.
pub fn projects_body(state: &ServerState) -> (body: String)
    requires
        state@.faults.projects is None,
        state@.faults.current_project is None,
    ensures
        body@ == json_text(projects_json(state@)),
        parse_result(body@) == (Ok::<Json, Seq<char>>(projects_json(state@))),
{
    let mut items: Vec<serde_json::Value> = Vec::new();
    let ghost listed = state@.projects.map_values(
        |project: (Seq<char>, Seq<char>)| listed_project(project, state@.current_project),
    );
    for i in 0..state.projects.len()
        invariant
            listed == state@.projects.map_values(
                |project: (Seq<char>, Seq<char>)| listed_project(project, state@.current_project),
            ),
            items@.len() == i,
            forall|k: int| 0 <= k < i ==> json_of(#[trigger] items@[k]) == listed[k],
    {
        let mut members = no_members();
        set_member(&mut members, "name", string_value(state.projects[i].0.as_str()));
        set_member(&mut members, "path", string_value(state.projects[i].1.as_str()));
        let is_current = same_text(state.projects[i].1.as_str(), state.current_project.as_str());
        set_member(&mut members, "current", bool_value(is_current));
        let item = object_value(members);
        assert(json_of(item) == listed[i as int]);
        items.push(item);
    }
    assert(trees(items@) == listed);
    listing_body("projects", items)
}

/// The name and the path that a list entry gives; an empty text for what it lacks.
pub open spec fn project_entry(item: Json) -> (Seq<char>, Seq<char>) {
    (
        text_field(item, "name"@).unwrap_or(Seq::empty()),
        text_field(item, "path"@).unwrap_or(Seq::empty()),
    )
}

/// The entries of the project list that an object holds, if it holds one.
pub open spec fn project_entries(json: Json) -> Option<Seq<(Seq<char>, Seq<char>)>> {
    match json.field("projects"@).as_array() {
        Some(items) => Some(items.map_values(|item: Json| project_entry(item))),
        None => None,
    }
}

/// Reads the project list that an object holds.
pub fn projects_of(value: &serde_json::Value) -> (entries: Option<Vec<(String, String)>>)
    ensures
        project_entries(json_of(*value)) == match entries {
            Some(entries) => Some(pairs_view(entries@)),
            None => None,
        },
{
    let items = match field(value, "projects").as_array() {
        Some(items) => items,
        None => return None,
    };
    let ghost given = trees(items@).map_values(|item: Json| project_entry(item));
    let mut entries: Vec<(String, String)> = Vec::new();
    for i in 0..items.len()
        invariant
            given == trees(items@).map_values(|item: Json| project_entry(item)),
            entries@.len() == i,
            forall|k: int|
                0 <= k < i ==> ((#[trigger] entries@[k]).0@, entries@[k].1@) == given[k],
    {
        let name = match read_text(&items[i], "name") {
            Some(name) => name,
            None => String::new(),
        };
        let path = match read_text(&items[i], "path") {
            Some(path) => path,
            None => String::new(),
        };
        entries.push((name, path));
    }
    assert(pairs_view(entries@) == given);
    Some(entries)
}

/// The entries of the project list that a request gives, if it gives one.
pub open spec fn given_projects(parsed: Result<Json, Seq<char>>) -> Option<
    Seq<(Seq<char>, Seq<char>)>,
> {
    match parsed {
        Ok(json) => project_entries(json),
        Err(_) => None,
    }
}

/// Reads the project list that a request gives.
pub fn read_projects(body: &str) -> (entries: Option<Vec<(String, String)>>)
    ensures
        given_projects(parse_result(body@)) == match entries {
            Some(entries) => Some(pairs_view(entries@)),
            None => None,
        },
{
    match parse_json(body) {
        Ok(value) => projects_of(&value),
        Err(_) => None,
    }
}

/// The entries that have a path.
pub open spec fn with_path(entries: Seq<(Seq<char>, Seq<char>)>) -> Seq<(Seq<char>, Seq<char>)> {
    entries.filter(|entry: (Seq<char>, Seq<char>)| entry.1.len() > 0)
}

/// The state after a request to replace the known projects: without a list, nothing
/// changes; an entry without a path is left out.
pub open spec fn projects_replaced(
    before: ServerView,
    entries: Option<Seq<(Seq<char>, Seq<char>)>>,
) -> ServerView {
    match entries {
        Some(entries) => ServerView { projects: with_path(entries), ..before },
        None => before,
    }
}

/// Replaces the known projects.
pub fn replace_projects(
    state: &mut ServerState,
    entries: Option<Vec<(String, String)>>,
) -> (reply: String)
    requires
        entries is Some ==> old(state)@.faults.projects is None,
    ensures
        final(state)@ == projects_replaced(
            old(state)@,
            match entries {
                Some(entries) => Some(pairs_view(entries@)),
                None => None,
            },
        ),
        reply@ == ok_text(),
{
    let mut entries = match entries {
        Some(entries) => entries,
        None => return ok_body(),
    };
    let ghost given = pairs_view(entries@);
    let ghost mut done: int = 0;
    let mut i: usize = 0;
    assert(given.skip(0) == given);
    proof {
        reveal(Seq::filter);
    }
    while i < entries.len()
        invariant
            i <= entries@.len(),
            0 <= done <= given.len(),
            entries@.len() - i == given.len() - done,
            pairs_view(entries@).take(i as int) == with_path(given.take(done)),
            pairs_view(entries@).skip(i as int) == given.skip(done),
        decreases entries@.len() - i,
    {
        let ghost before = pairs_view(entries@);
        proof {
            reveal(Seq::filter);
            assert(before[i as int] == before.skip(i as int)[0]);
            assert(given[done] == given.skip(done)[0]);
            assert(given.take(done + 1).drop_last() == given.take(done));
        }
        if entries[i].1.as_str().is_empty() {
            entries.remove(i);
            proof {
                let after = pairs_view(entries@);
                assert(after.take(i as int) == before.take(i as int));
                assert(after.skip(i as int) == before.skip(i as int).drop_first());
                assert(given.skip(done + 1) == given.skip(done).drop_first());
            }
        } else {
            i = i + 1;
            proof {
                assert(before.take(i as int) == before.take(i - 1).push(before[i - 1]));
                assert(before.skip(i as int) == before.skip(i - 1).drop_first());
                assert(given.skip(done + 1) == given.skip(done).drop_first());
            }
        }
        proof {
            done = done + 1;
        }
    }
    assert(given.take(done) == given);
    assert(pairs_view(entries@).take(i as int) == pairs_view(entries@));
    state.projects = entries;
    ok_body()
}

/// Handles the body of a request to replace the known projects.
pub fn handle_set_projects(state: &mut ServerState, body: &str) -> (reply: String)
    requires
        given_projects(parse_result(body@)) is Some ==> old(state)@.faults.projects is None,
    ensures
        final(state)@ == projects_replaced(old(state)@, given_projects(parse_result(body@))),
        reply@ == ok_text(),
{
    let entries = read_projects(body);
    replace_projects(state, entries)
}

} // verus!
