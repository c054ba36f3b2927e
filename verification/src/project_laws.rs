//! What the requests about projects are for.
use crate::json::Json;
use crate::laws::law_slashed_keeps;
use crate::lists::lemma_filter_all;
use crate::project::{
    chosen_project, given_projects, listed_project, named_path, no_project_message,
    project_entry, project_json, project_opened, projects_json, projects_replaced, with_path,
};
use crate::state::ServerView;
use crate::text::slashed;
use vstd::prelude::*;

verus! {

/// The text that some members hold under a key, where it is a text.
pub open spec fn text_under(members: Map<Seq<char>, Json>, key: Seq<char>) -> Option<Seq<char>> {
    if members.contains_key(key) && members[key] is Str {
        Some(members[key]->Str_0)
    } else {
        None
    }
}

// Opening a project

/// A request names the path that its object holds as a text under the key for it; nothing else
/// in the object matters. An object without such a text, and a value that is no object, name
/// none.
pub proof fn law_path_is_read(members: Map<Seq<char>, Json>, other: Json, error: Seq<char>)
    requires
        !(other is Object),
    ensures
        named_path(Ok(Json::Object(members))) == Ok::<Option<Seq<char>>, Seq<char>>(
            text_under(members, "path"@),
        ),
        named_path(Ok(other)) == Ok::<Option<Seq<char>>, Seq<char>>(None),
        named_path(Err(error)) == Err::<Option<Seq<char>>, Seq<char>>(error),
{
}

/// Opening a project changes the path of the open project, character by character the one that
/// was named but for backslashes, and nothing else.
pub proof fn law_named_project_is_opened(before: ServerView, path: Seq<char>)
    requires
        before.faults.current_project is None,
    ensures
        ({
            let (after, reply) = project_opened(before, Ok(Some(path)));
            &&& after == ServerView { current_project: after.current_project, ..before }
            &&& after.current_project.len() == path.len()
            &&& forall|i: int|
                0 <= i < path.len() ==> #[trigger] after.current_project[i] == (if path[i]
                    == '\\' {
                    '/'
                } else {
                    path[i]
                })
            &&& reply == "{\"ok\":true}"@
        }),
{
}

/// A request that opens no project changes nothing, and is told why.
pub proof fn law_no_project_is_opened(before: ServerView, path: Seq<char>, error: Seq<char>)
    ensures
        project_opened(before, Ok(None)) == (
            before,
            "{\"ok\":false,\"error\":\"path field is required\"}"@,
        ),
        project_opened(before, Err(error)) == (
            before,
            "{\"ok\":false,\"error\":\"Invalid JSON: "@ + error + "\"}"@,
        ),
        before.faults.current_project matches Some(fault) ==> project_opened(before, Ok(Some(path)))
            == (before, "{\"ok\":false,\"error\":\"Lock error: "@ + fault + "\"}"@),
{
    reveal_strlit("{\"ok\":false,\"error\":\"");
    reveal_strlit("\"}");
    reveal_strlit("path field is required");
    reveal_strlit("{\"ok\":false,\"error\":\"path field is required\"}");
    reveal_strlit("Invalid JSON: ");
    reveal_strlit("{\"ok\":false,\"error\":\"Invalid JSON: ");
    reveal_strlit("Lock error: ");
    reveal_strlit("{\"ok\":false,\"error\":\"Lock error: ");
    assert(project_opened(before, Ok(None)).1
        == "{\"ok\":false,\"error\":\"path field is required\"}"@);
    assert(project_opened(before, Err(error)).1 == "{\"ok\":false,\"error\":\"Invalid JSON: "@
        + error + "\"}"@);
    if let Some(fault) = before.faults.current_project {
        assert(project_opened(before, Ok(Some(path))).1
            == "{\"ok\":false,\"error\":\"Lock error: "@ + fault + "\"}"@);
    }
}

/// The answer about a project holds its path and the mark of success, and nothing else.
pub proof fn law_path_is_told(path: Seq<char>)
    ensures
        project_json(path) is Object,
        project_json(path)->Object_0.dom() =~= set!["ok"@, "path"@],
        project_json(path)->Object_0["ok"@] == Json::Bool(true),
        project_json(path)->Object_0["path"@] == Json::Str(path),
{
    reveal_strlit("ok");
    reveal_strlit("path");
    assert("ok"@.len() != "path"@.len());
}

// The project that a request is about

/// A request that names a project is about that project, whichever one is open, and even where
/// the lock of the open one fails.
pub proof fn law_named_project_is_chosen(view: ServerView, own: Seq<char>)
    requires
        own.len() > 0,
    ensures
        chosen_project(view, Some(own)) == Ok::<Seq<char>, Seq<char>>(slashed(own)),
{
}

/// A request that names no project, or an empty one, is about the open project, and fails where
/// the lock of that one fails.
pub proof fn law_open_project_is_chosen(view: ServerView, own: Option<Seq<char>>)
    requires
        own matches Some(path) ==> path.len() == 0,
    ensures
        view.faults.current_project matches Some(error) ==> chosen_project(view, own) == Err::<
            Seq<char>,
            Seq<char>,
        >(error),
        view.faults.current_project is None ==> chosen_project(view, own) == Ok::<
            Seq<char>,
            Seq<char>,
        >(slashed(view.current_project)),
        view.faults.current_project is None && !view.current_project.contains('\\')
            ==> chosen_project(view, own) == Ok::<Seq<char>, Seq<char>>(view.current_project),
{
    if !view.current_project.contains('\\') {
        law_slashed_keeps(view.current_project);
    }
}

/// A request that no project can be found for is told how to give one.
pub proof fn law_missing_project_is_told()
    ensures
        no_project_message()
            == "projectPath is required (set via POST /project or include in request body)"@,
{
}

// The known projects

/// A request that gives a list of projects gives one entry for each item, in their order: the
/// texts under the keys for a name and a path, and an empty text for what is missing.
pub proof fn law_project_list_is_read(members: Map<Seq<char>, Json>, items: Seq<Json>, at: int)
    requires
        members.contains_key("projects"@),
        members["projects"@] == Json::Array(items),
        0 <= at < items.len(),
    ensures
        ({
            let entries = given_projects(Ok(Json::Object(members)));
            &&& entries is Some
            &&& entries.unwrap().len() == items.len()
            &&& items[at] matches Json::Object(item) ==> entries.unwrap()[at] == (
                text_under(item, "name"@).unwrap_or(Seq::empty()),
                text_under(item, "path"@).unwrap_or(Seq::empty()),
            )
            &&& !(items[at] is Object) ==> entries.unwrap()[at] == (
                Seq::<char>::empty(),
                Seq::<char>::empty(),
            )
        }),
{
    let entries = given_projects(Ok(Json::Object(members)));
    assert(entries.unwrap()[at] == project_entry(items[at]));
}

/// An empty list of projects is a list, and whatever is no array under the key for it is none.
pub proof fn law_project_list_is_an_array(
    members: Map<Seq<char>, Json>,
    other: Json,
    error: Seq<char>,
)
    requires
        !(other is Object),
    ensures
        given_projects(Ok(Json::Object(members))) is Some <==> members.contains_key("projects"@)
            && members["projects"@] is Array,
        members.contains_key("projects"@) && members["projects"@] == Json::Array(Seq::empty())
            ==> given_projects(Ok(Json::Object(members))) == Some(
            Seq::<(Seq<char>, Seq<char>)>::empty(),
        ),
        given_projects(Ok(other)) is None,
        given_projects(Err(error)) is None,
{
    let entries = given_projects(Ok(Json::Object(members)));
    if members.contains_key("projects"@) && members["projects"@] == Json::Array(Seq::empty()) {
        assert(entries.unwrap() == Seq::<(Seq<char>, Seq<char>)>::empty());
    }
}

/// The known projects depend on the last list alone, not on those that were known before, and
/// nothing but them changes. A list that is given twice leaves what it leaves once.
pub proof fn law_known_projects_are_the_last_list(
    before: ServerView,
    other: ServerView,
    earlier: Seq<(Seq<char>, Seq<char>)>,
    entries: Seq<(Seq<char>, Seq<char>)>,
)
    ensures
        ({
            let after = projects_replaced(before, Some(entries));
            &&& after == ServerView { projects: after.projects, ..before }
            &&& projects_replaced(other, Some(entries)).projects == after.projects
            &&& projects_replaced(projects_replaced(before, Some(earlier)), Some(entries)) == after
            &&& projects_replaced(after, Some(entries)) == after
        }),
{
}

/// The known projects are the entries that have a path, each once, in their order: of two lists
/// one behind the other they are those of the first and then those of the second; an entry
/// alone is known where it has a path.
pub proof fn law_known_projects_have_paths(
    before: ServerView,
    first: Seq<(Seq<char>, Seq<char>)>,
    second: Seq<(Seq<char>, Seq<char>)>,
    entry: (Seq<char>, Seq<char>),
)
    ensures
        projects_replaced(before, Some(first + second)).projects == projects_replaced(
            before,
            Some(first),
        ).projects + projects_replaced(before, Some(second)).projects,
        entry.1.len() > 0 ==> projects_replaced(before, Some(seq![entry])).projects == seq![entry],
        entry.1.len() == 0 ==> projects_replaced(before, Some(seq![entry])).projects.len() == 0,
        projects_replaced(before, Some(Seq::empty())).projects.len() == 0,
        (forall|i: int| 0 <= i < first.len() ==> (#[trigger] first[i]).1.len() > 0)
            ==> projects_replaced(before, Some(first)).projects == first,
{
    let listed = |entry: (Seq<char>, Seq<char>)| entry.1.len() > 0;
    Seq::filter_distributes_over_add(first, second, listed);
    reveal_with_fuel(Seq::filter, 2);
    assert(seq![entry].drop_last() == Seq::<(Seq<char>, Seq<char>)>::empty());
    if forall|i: int| 0 <= i < first.len() ==> (#[trigger] first[i]).1.len() > 0 {
        assert forall|i: int| 0 <= i < first.len() implies listed(#[trigger] first[i]) by {
            assert(first[i].1.len() > 0);
        }
        lemma_filter_all(first, listed);
        assert(with_path(first) == first);
    }
}

/// A request that gives no list leaves everything as it was.
pub proof fn law_known_projects_stay(before: ServerView)
    ensures
        projects_replaced(before, None) == before,
{
}

/// The known projects are listed each at its place, with its name and its path and whether it is
/// the open one, and with nothing else.
pub proof fn law_known_projects_are_listed(view: ServerView, at: int)
    requires
        0 <= at < view.projects.len(),
    ensures
        ({
            let members = projects_json(view)->Object_0;
            let items = members["projects"@]->Array_0;
            let item = items[at]->Object_0;
            &&& projects_json(view) is Object
            &&& members.dom() =~= set!["ok"@, "projects"@]
            &&& members["ok"@] == Json::Bool(true)
            &&& members["projects"@] is Array
            &&& items.len() == view.projects.len()
            &&& items[at] is Object
            &&& item.dom() =~= set!["name"@, "path"@, "current"@]
            &&& item["name"@] == Json::Str(view.projects[at].0)
            &&& item["path"@] == Json::Str(view.projects[at].1)
            &&& item["current"@] == Json::Bool(view.projects[at].1 == view.current_project)
        }),
{
    reveal_strlit("ok");
    reveal_strlit("projects");
    reveal_strlit("name");
    reveal_strlit("path");
    reveal_strlit("current");
    assert("name"@[0] != "path"@[0]);
    assert("current"@.len() == 7);
    assert("ok"@.len() != "projects"@.len());
    let items = projects_json(view)->Object_0["projects"@]->Array_0;
    assert(items[at] == listed_project(view.projects[at], view.current_project));
}

/// Where no project is known, an empty list is told.
pub proof fn law_no_projects_are_listed(view: ServerView)
    requires
        view.projects.len() == 0,
    ensures
        projects_json(view) == Json::Object(
            map!["ok"@ => Json::Bool(true), "projects"@ => Json::Array(Seq::empty())],
        ),
{
    let items = view.projects.map_values(
        |project: (Seq<char>, Seq<char>)| listed_project(project, view.current_project),
    );
    assert(items == Seq::<Json>::empty());
}

} // verus!
