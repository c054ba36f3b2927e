//! What clips are for: the page that was clipped is saved whole, and is handed out once.
use crate::clip::{
    clip_accepted, clip_advanced, clip_base_name, clip_dir, clip_file_name, clip_file_path,
    clip_markdown, clip_planned, clip_relative_path, clip_reply_path, clipped, clips_json,
    event_fits, host_only, listed_clip, path_joined, planned_on_some_day, slug, slug_char,
    AcceptedClipView, ClipEvent, ClipJobView, ClipRequestView, ClipStepView, PathStyle,
};
use crate::clip_laws::hyphenated;
use crate::clock::{compact_date_text, date_text};
use crate::json::{json_text, Json};
use crate::project_laws::{
    law_missing_project_is_told, law_named_project_is_chosen, law_open_project_is_chosen,
    text_under,
};
use crate::state::ServerView;
use crate::text::{decimal, is_alnum, is_white, joined, lowercase, quotes_escaped, slashed, words};
use crate::text_laws::{
    law_ascii_letters_and_digits, law_ascii_lower_case, law_lists_are_joined,
    law_single_part_is_joined, law_white_space_parts_words, law_words_are_whole,
};
use vstd::prelude::*;

verus! {

// What is clipped

/// A clip says what its object holds as texts under the keys for a title, an address, a content
/// and a project.
pub proof fn law_clip_is_read(members: Map<Seq<char>, Json>, other: Json, error: Seq<char>)
    requires
        !(other is Object),
    ensures
        clipped(Ok(Json::Object(members))) == Ok::<ClipRequestView, Seq<char>>(
            ClipRequestView {
                title: text_under(members, "title"@),
                url: text_under(members, "url"@),
                content: text_under(members, "content"@),
                project_path: text_under(members, "projectPath"@),
            },
        ),
        clipped(Ok(other)) == Ok::<ClipRequestView, Seq<char>>(
            ClipRequestView { title: None, url: None, content: None, project_path: None },
        ),
        clipped(Err(error)) == Err::<ClipRequestView, Seq<char>>(error),
{
}

/// A clip that names a project is accepted for that project, whichever one is open, with its
/// whole content, and with its title and its address where it has them.
pub proof fn law_clip_is_for_the_project_that_it_names(
    view: ServerView,
    request: ClipRequestView,
    own: Seq<char>,
    content: Seq<char>,
)
    requires
        request.project_path == Some(own),
        own.len() > 0,
        request.content == Some(content),
        content.len() > 0,
    ensures
        clip_accepted(view, Ok(request)) matches Ok(clip) && {
            &&& clip.project_path == slashed(own)
            &&& clip.content == content
            &&& request.title matches Some(title) ==> clip.title == title
            &&& request.title is None ==> clip.title == "Untitled"@
            &&& request.url matches Some(url) ==> clip.url == url
            &&& request.url is None ==> clip.url.len() == 0
        },
{
    law_named_project_is_chosen(view, own);
}

/// A clip that names no project is accepted for the open one, in the same way.
pub proof fn law_clip_is_for_the_open_project(
    view: ServerView,
    request: ClipRequestView,
    content: Seq<char>,
)
    requires
        request.project_path matches Some(own) ==> own.len() == 0,
        view.faults.current_project is None,
        view.current_project.len() > 0,
        request.content == Some(content),
        content.len() > 0,
    ensures
        clip_accepted(view, Ok(request)) matches Ok(clip) && {
            &&& clip.project_path == slashed(view.current_project)
            &&& clip.content == content
            &&& request.title matches Some(title) ==> clip.title == title
            &&& request.title is None ==> clip.title == "Untitled"@
            &&& request.url matches Some(url) ==> clip.url == url
            &&& request.url is None ==> clip.url.len() == 0
        },
{
    law_open_project_is_chosen(view, request.project_path);
}

/// The first thing that keeps a clip from being written is what it is refused with: a body that
/// is no JSON, a failed lock, no project, no content.
pub proof fn law_clip_is_refused_with_the_reason(
    view: ServerView,
    request: ClipRequestView,
    error: Seq<char>,
)
    ensures
        clip_accepted(view, Err(error)) == Err::<AcceptedClipView, Seq<char>>(
            "{\"ok\":false,\"error\":\"Invalid JSON: "@ + error + "\"}"@,
        ),
        (request.project_path matches Some(own) ==> own.len() == 0) ==> {
            match view.faults.current_project {
                Some(fault) => clip_accepted(view, Ok(request)) == Err::<
                    AcceptedClipView,
                    Seq<char>,
                >("{\"ok\":false,\"error\":\"Lock error: "@ + fault + "\"}"@),
                None => view.current_project.len() == 0 ==> clip_accepted(view, Ok(request))
                    == Err::<AcceptedClipView, Seq<char>>(
                    "{\"ok\":false,\"error\":\"projectPath is required (set via POST /project or include in request body)\"}"@,
                ),
            }
        },
        (request.content matches Some(content) ==> content.len() == 0) && ((
        request.project_path matches Some(own) && own.len() > 0) || (view.faults.current_project
            is None && view.current_project.len() > 0)) ==> clip_accepted(view, Ok(request))
            == Err::<AcceptedClipView, Seq<char>>(
            "{\"ok\":false,\"error\":\"content is required\"}"@,
        ),
{
    reveal_strlit("{\"ok\":false,\"error\":\"");
    reveal_strlit("\"}");
    reveal_strlit("Invalid JSON: ");
    reveal_strlit("{\"ok\":false,\"error\":\"Invalid JSON: ");
    reveal_strlit("Lock error: ");
    reveal_strlit("{\"ok\":false,\"error\":\"Lock error: ");
    reveal_strlit("content is required");
    reveal_strlit("{\"ok\":false,\"error\":\"content is required\"}");
    reveal_strlit("projectPath is required (set via POST /project or include in request body)");
    reveal_strlit(
        "{\"ok\":false,\"error\":\"projectPath is required (set via POST /project or include in request body)\"}",
    );
    law_missing_project_is_told();
    assert(clip_accepted(view, Err(error))->Err_0 == "{\"ok\":false,\"error\":\"Invalid JSON: "@
        + error + "\"}"@);
    assert("{\"ok\":false,\"error\":\""@ + "content is required"@ + "\"}"@
        == "{\"ok\":false,\"error\":\"content is required\"}"@);
    assert("{\"ok\":false,\"error\":\""@
        + "projectPath is required (set via POST /project or include in request body)"@ + "\"}"@
        == "{\"ok\":false,\"error\":\"projectPath is required (set via POST /project or include in request body)\"}"@);
    if request.project_path matches Some(own) ==> own.len() == 0 {
        law_open_project_is_chosen(view, request.project_path);
        if let Some(fault) = view.faults.current_project {
            assert(clip_accepted(view, Ok(request))->Err_0
                == "{\"ok\":false,\"error\":\"Lock error: "@ + fault + "\"}"@);
        }
    } else {
        law_named_project_is_chosen(view, request.project_path.unwrap());
    }
}

// The text of the file

/// The file of a clip ends with the whole content, whatever it is, and a line end.
pub proof fn law_whole_content_is_saved(
    title: Seq<char>,
    url: Seq<char>,
    date: Seq<char>,
    content: Seq<char>,
)
    ensures
        ({
            let text = clip_markdown(title, url, date, content);
            &&& text.len() >= content.len() + 1
            &&& text.skip(text.len() - content.len() - 1) == content.push('\n')
        }),
{
    reveal_strlit("\n");
    let text = clip_markdown(title, url, date, content);
    assert(text.skip(text.len() - content.len() - 1) == content.push('\n'));
}

/// Clips with different contents have different files, whatever else they say.
pub proof fn law_contents_can_be_told_apart(
    title: Seq<char>,
    url: Seq<char>,
    date: Seq<char>,
    content1: Seq<char>,
    content2: Seq<char>,
)
    requires
        clip_markdown(title, url, date, content1) == clip_markdown(title, url, date, content2),
    ensures
        content1 == content2,
{
    law_whole_content_is_saved(title, url, date, content1);
    law_whole_content_is_saved(title, url, date, content2);
    let text1 = clip_markdown(title, url, date, content1);
    let text2 = clip_markdown(title, url, date, content2);
    reveal_strlit("\n");
    assert(text1.len() - content1.len() == text2.len() - content2.len());
    assert(content1.push('\n').drop_last() == content1);
    assert(content2.push('\n').drop_last() == content2);
}

/// The body of the file is a heading with the whole title, a line with the whole address, and the
/// whole content; what stands before it is the front matter alone, which holds the title and the
/// address with their quotes escaped, the day, and that this is a web clip.
pub proof fn law_file_has_front_matter_and_body(
    title: Seq<char>,
    url: Seq<char>,
    date: Seq<char>,
    content: Seq<char>,
)
    ensures
        ({
            let text = clip_markdown(title, url, date, content);
            let front = "---\ntype: clip\ntitle: \""@ + quotes_escaped(title) + "\"\nurl: \""@
                + quotes_escaped(url) + "\"\nclipped: "@ + date
                + "\norigin: web-clip\nsources: []\ntags: [web-clip]\n---\n"@;
            let body = "\n# "@ + title + "\n\nSource: "@ + url + "\n\n"@ + content + "\n"@;
            &&& text.take(front.len() as int) == front
            &&& text.skip(front.len() as int) == body
        }),
{
    reveal_strlit("\norigin: web-clip\nsources: []\ntags: [web-clip]\n---\n\n# ");
    reveal_strlit("\norigin: web-clip\nsources: []\ntags: [web-clip]\n---\n");
    reveal_strlit("\n# ");
    let text = clip_markdown(title, url, date, content);
    let start = "---\ntype: clip\ntitle: \""@ + quotes_escaped(title) + "\"\nurl: \""@
        + quotes_escaped(url) + "\"\nclipped: "@ + date;
    let front = start + "\norigin: web-clip\nsources: []\ntags: [web-clip]\n---\n"@;
    let rest = title + "\n\nSource: "@ + url + "\n\n"@ + content + "\n"@;
    let body = "\n# "@ + title + "\n\nSource: "@ + url + "\n\n"@ + content + "\n"@;
    assert("\norigin: web-clip\nsources: []\ntags: [web-clip]\n---\n\n# "@
        == "\norigin: web-clip\nsources: []\ntags: [web-clip]\n---\n"@ + "\n# "@);
    assert(body == "\n# "@ + rest);
    assert(text == front + body);
    assert(text.take(front.len() as int) == front);
    assert(text.skip(front.len() as int) == body);
}

// The name of the file

/// In a slug, letters, digits, spaces and hyphens stand for themselves, and everything else
/// counts as a space.
pub proof fn law_slug_characters(c: char)
    ensures
        is_alnum(c) || c == ' ' || c == '-' ==> slug_char(c) == c,
        !is_alnum(c) && c != ' ' && c != '-' ==> slug_char(c) == ' ',
{
}

/// A slug is the hyphenated title in lower case, from its start, up to fifty characters.
pub proof fn law_slug_is_the_start_of_the_title(title: Seq<char>)
    ensures
        ({
            let whole = lowercase(hyphenated(title));
            &&& whole.len() <= 50 ==> slug(title) == whole
            &&& whole.len() > 50 ==> slug(title).len() == 50
            &&& forall|i: int| 0 <= i < slug(title).len() ==> #[trigger] slug(title)[i] == whole[i]
        }),
{
}

/// What parts a title, be it white space or a sign that no slug holds, becomes one hyphen between
/// what is left of the title before it and behind it, where there is something on both sides.
pub proof fn law_signs_part_a_title(before: Seq<char>, sign: char, after: Seq<char>)
    requires
        !is_alnum(sign) && sign != '-',
    ensures
        hyphenated(before).len() == 0 ==> hyphenated(before + seq![sign] + after) == hyphenated(
            after,
        ),
        hyphenated(after).len() == 0 ==> hyphenated(before + seq![sign] + after) == hyphenated(
            before,
        ),
        hyphenated(before).len() > 0 && hyphenated(after).len() > 0 ==> hyphenated(
            before + seq![sign] + after,
        ) == hyphenated(before) + seq!['-'] + hyphenated(after),
{
    let title = before + seq![sign] + after;
    let mapped = |text: Seq<char>| text.map_values(|c: char| slug_char(c));
    assert(mapped(title) == mapped(before) + seq![' '] + mapped(after));
    law_white_space_parts_words(mapped(before), ' ', mapped(after));
    let a = words(mapped(before));
    let b = words(mapped(after));
    lemma_joined_words(mapped(before));
    lemma_joined_words(mapped(after));
    if a.len() == 0 {
        assert(a + b == b);
    } else if b.len() == 0 {
        assert(a + b == a);
    } else {
        law_lists_are_joined(a, b, seq!['-']);
    }
    law_single_part_is_joined(Seq::empty(), seq!['-']);
    if a.len() == 0 {
        assert(hyphenated(before) == joined(Seq::empty(), seq!['-']));
    }
    if b.len() == 0 {
        assert(hyphenated(after) == joined(Seq::empty(), seq!['-']));
    }
}

proof fn lemma_joined_words(text: Seq<char>)
    ensures
        words(text).len() > 0 ==> joined(words(text), seq!['-']).len() > 0,
        forall|w: int| 0 <= w < words(text).len() ==> (#[trigger] words(text)[w]).len() > 0,
    decreases text.len(),
{
    if text.len() > 0 {
        lemma_joined_words(text.drop_last());
        if words(text).len() > 0 {
            assert(words(text).last().len() > 0);
        }
    }
}

/// A word of letters, digits and hyphens stays as it is when a title is hyphenated, and nothing
/// comes of an empty title.
pub proof fn law_words_stay_in_a_title(word: Seq<char>)
    requires
        forall|i: int|
            0 <= i < word.len() ==> (is_alnum(#[trigger] word[i]) || word[i] == '-') && !is_white(
                word[i],
            ),
    ensures
        hyphenated(word) == word,
{
    let mapped = word.map_values(|c: char| slug_char(c));
    assert(mapped == word);
    law_words_are_whole(word);
    law_single_part_is_joined(word, seq!['-']);
    if word.len() == 0 {
        assert(word == Seq::<char>::empty());
    }
}

/// The slug of a title that is one word of small ASCII letters and digits, and not too long, is
/// that word.
pub proof fn law_plain_word_is_its_slug(word: Seq<char>)
    requires
        word.len() <= 50,
        forall|i: int|
            0 <= i < word.len() ==> 'a' <= #[trigger] word[i] <= 'z' || '0' <= word[i] <= '9',
    ensures
        slug(word) == word,
{
    assert forall|i: int| 0 <= i < word.len() implies (is_alnum(#[trigger] word[i]) || word[i]
        == '-') && !is_white(word[i]) && (word[i] as u32) < 128 by {
        assert('a' <= word[i] <= 'z' || '0' <= word[i] <= '9');
        law_ascii_letters_and_digits(word[i]);
    }
    law_words_stay_in_a_title(word);
    law_ascii_lower_case(word);
    assert(lowercase(word) == word);
    law_slug_is_the_start_of_the_title(word);
}

/// The name of a clip's file is its slug, the day, and, from the second try on, the number of the
/// try, with hyphens between them and the ending of a markdown file.
pub proof fn law_names_of_files(title: Seq<char>, compact_date: Seq<char>, number: nat)
    ensures
        clip_base_name(title, compact_date) == slug(title) + seq!['-'] + compact_date,
        number <= 1 ==> clip_file_name(clip_base_name(title, compact_date), number) == slug(title)
            + seq!['-'] + compact_date + ".md"@,
        number > 1 ==> clip_file_name(clip_base_name(title, compact_date), number) == slug(title)
            + seq!['-'] + compact_date + seq!['-'] + decimal(number) + ".md"@,
{
    reveal_strlit("-");
    assert("-"@ == seq!['-']);
}

/// The name of a file keeps the whole base name.
pub proof fn law_names_keep_the_base(base_name: Seq<char>, number: nat)
    ensures
        number <= 1 ==> clip_file_name(base_name, number) == base_name + ".md"@,
        number > 1 ==> clip_file_name(base_name, number) == base_name + seq!['-'] + decimal(number)
            + ".md"@,
{
    reveal_strlit("-");
    assert("-"@ == seq!['-']);
}

// The path of the file

/// A part is put behind a path with one slash between them. No slash is put behind an empty path
/// or one that has a slash there, nor, on Windows, behind a backslash or a drive alone.
pub proof fn law_parts_are_joined(base: Seq<char>, part: Seq<char>, style: PathStyle)
    ensures
        base.len() == 0 ==> path_joined(base, part, style) == part,
        base.len() > 0 && base.last() == '/' ==> path_joined(base, part, style) == base + part,
        base.len() > 0 && base.last() != '/' && style == PathStyle::Unix ==> path_joined(
            base,
            part,
            style,
        ) == base + seq!['/'] + part,
        base.len() > 0 && base.last() != '/' && base.last() != '\\' && (base.len() != 2
            || base.last() != ':') ==> path_joined(base, part, style) == base + seq!['/'] + part,
        style == PathStyle::Windows && base.len() > 0 && base.last() == '\\' ==> path_joined(
            base,
            part,
            style,
        ) == base + part,
        style == PathStyle::Windows && base.len() == 2 && base[1] == ':' ==> path_joined(
            base,
            part,
            style,
        ) == (if 'a' <= base[0] <= 'z' || 'A' <= base[0] <= 'Z' {
            base + part
        } else {
            base + seq!['/'] + part
        }),
{
    reveal_strlit("/");
    assert("/"@ == seq!['/']);
    if base.len() == 0 {
        assert(base + part == part);
    }
}

/// A clip is kept in the directory for it right below its project, in the file with its name.
pub proof fn law_clips_are_kept_below_the_project(
    project_path: Seq<char>,
    base_name: Seq<char>,
    number: nat,
    style: PathStyle,
)
    requires
        project_path.len() > 0,
        !project_path.contains('\\'),
        project_path.last() != '/',
        project_path.len() != 2 || project_path[1] != ':',
    ensures
        clip_dir(project_path, style) == project_path + "/raw/sources"@,
        clip_file_path(project_path, base_name, number, style) == project_path + "/raw/sources/"@
            + slashed(clip_file_name(base_name, number)),
{
    reveal_strlit("/");
    reveal_strlit("raw");
    reveal_strlit("sources");
    reveal_strlit("/raw/sources");
    reveal_strlit("/raw/sources/");
    let name = clip_file_name(base_name, number);
    let dir = project_path + "/raw/sources"@;
    assert(project_path.contains(project_path.last()));
    assert(clip_dir(project_path, style) == dir);
    assert(dir.last() == 's');
    assert(path_joined(dir, name, style) == dir + "/"@ + name);
    let whole = dir + "/"@ + name;
    assert forall|i: int| 0 <= i < project_path.len() implies project_path[i] != '\\' by {
        assert(project_path.contains(project_path[i]));
    }
    assert(slashed(whole) == project_path + "/raw/sources/"@ + slashed(name));
}

/// Whatever the path of a project is, the directory for clips is two parts behind it, and the
/// file one more, with slashes for backslashes.
pub proof fn law_paths_are_joined_part_by_part(
    project_path: Seq<char>,
    base_name: Seq<char>,
    number: nat,
    style: PathStyle,
)
    ensures
        clip_dir(project_path, style) == path_joined(
            path_joined(project_path, "raw"@, style),
            "sources"@,
            style,
        ),
        clip_file_path(project_path, base_name, number, style) == slashed(
            path_joined(
                path_joined(path_joined(project_path, "raw"@, style), "sources"@, style),
                clip_file_name(base_name, number),
                style,
            ),
        ),
{
}

/// The directory for clips of a project whose path ends with a slash, or is a drive alone on
/// Windows, follows that path at once.
pub proof fn law_clip_dir_behind_a_slash(project_path: Seq<char>, style: PathStyle)
    requires
        project_path.len() > 0,
        project_path.last() == '/' || (style == PathStyle::Windows && project_path.len() == 2
            && project_path[1] == ':' && ('a' <= project_path[0] <= 'z' || 'A' <= project_path[0]
            <= 'Z')),
    ensures
        clip_dir(project_path, style) == project_path + "raw/sources"@,
{
    reveal_strlit("/");
    reveal_strlit("raw");
    reveal_strlit("sources");
    reveal_strlit("raw/sources");
    assert(path_joined(project_path, "raw"@, style) == project_path + "raw"@);
    assert((project_path + "raw"@).last() == 'w');
    assert(clip_dir(project_path, style) == project_path + "raw/sources"@);
}

/// The reply names the path below the project, on Unix for every project.
pub proof fn law_reply_names_the_path_below_the_project(
    project_path: Seq<char>,
    base_name: Seq<char>,
    number: nat,
)
    ensures
        clip_relative_path(base_name, number) == "raw/sources/"@ + slashed(
            clip_file_name(base_name, number),
        ),
        clip_reply_path(project_path, base_name, number, PathStyle::Unix) == clip_relative_path(
            base_name,
            number,
        ),
        !host_only(project_path) ==> clip_reply_path(
            project_path,
            base_name,
            number,
            PathStyle::Windows,
        ) == clip_relative_path(base_name, number),
        host_only(project_path) ==> clip_reply_path(
            project_path,
            base_name,
            number,
            PathStyle::Windows,
        ) == clip_file_path(project_path, base_name, number, PathStyle::Windows),
{
    reveal_strlit("raw/sources/");
    assert(clip_relative_path(base_name, number) == "raw/sources/"@ + slashed(
        clip_file_name(base_name, number),
    ));
}

/// A path names a host alone exactly where it is two slashes and a name without slashes, and
/// perhaps one slash behind a name that is not empty.
pub proof fn law_hosts_alone(path: Seq<char>, name: Seq<char>)
    requires
        !name.contains('/'),
    ensures
        host_only(seq!['/', '/'] + name),
        name.len() > 0 ==> host_only(seq!['/', '/'] + name + seq!['/']),
        host_only(path) ==> path.len() >= 2 && path.take(2) == seq!['/', '/'] && ({
            let rest = path.skip(2);
            !rest.contains('/') || (rest.len() > 1 && rest.last() == '/'
                && !rest.drop_last().contains('/'))
        }),
{
    assert forall|i: int| 0 <= i < name.len() implies name[i] != '/' by {
        assert(name.contains(name[i]));
    }
    if host_only(path) {
        assert(path.take(2) == seq!['/', '/']);
        let rest = path.skip(2);
        if rest.len() > 0 {
            let front = rest.drop_last();
            assert forall|i: int| 0 <= i < front.len() implies front[i] != '/' by {
                assert(front[i] == path[i + 2]);
            }
            assert(!front.contains('/'));
            if rest.contains('/') {
                let k = choose|k: int| 0 <= k < rest.len() && rest[k] == '/';
                assert(k == rest.len() - 1);
                assert(rest[0] == path[2]);
            }
        }
    }
}

// Writing the file

/// The plan for a clip has the project, the name and the text of the clip.
pub proof fn law_clip_is_planned(
    clip: AcceptedClipView,
    style: PathStyle,
    date: Seq<char>,
    compact_date: Seq<char>,
)
    ensures
        clip_planned(clip, style, date, compact_date) matches ClipStepView::MakeDir { job, dir }
            && {
            &&& job.project_path == clip.project_path
            &&& job.style == style
            &&& job.base_name == slug(clip.title) + seq!['-'] + compact_date
            &&& job.markdown == clip_markdown(clip.title, clip.url, date, clip.content)
            &&& dir == clip_dir(clip.project_path, style)
        },
{
    reveal_strlit("-");
    assert("-"@ == seq!['-']);
}

/// A clip that was planned on some day is for its project, has a name that starts with its slug,
/// and a text that ends with its whole content.
pub proof fn law_planned_clip_is_whole(
    clip: AcceptedClipView,
    style: PathStyle,
    step: ClipStepView,
)
    requires
        planned_on_some_day(clip, style, step),
    ensures
        step matches ClipStepView::MakeDir { job, dir } && {
            &&& job.project_path == clip.project_path
            &&& job.style == style
            &&& dir == clip_dir(clip.project_path, style)
            &&& exists|date: Seq<char>, compact_date: Seq<char>|
                {
                    &&& #[trigger] date_text(date)
                    &&& #[trigger] compact_date_text(compact_date)
                    &&& job.base_name == slug(clip.title) + seq!['-'] + compact_date
                    &&& job.markdown == clip_markdown(clip.title, clip.url, date, clip.content)
                }
            &&& job.markdown.len() >= clip.content.len() + 1
            &&& job.markdown.skip(job.markdown.len() - clip.content.len() - 1)
                == clip.content.push('\n')
        },
{
    let (date, compact_date) = choose|date: Seq<char>, compact_date: Seq<char>|
        date_text(date) && compact_date_text(compact_date) && step == #[trigger] clip_planned(
            clip,
            style,
            date,
            compact_date,
        );
    law_clip_is_planned(clip, style, date, compact_date);
    law_whole_content_is_saved(clip.title, clip.url, date, clip.content);
}

/// A page that is sent with a project is saved for that project, with the whole content that was
/// sent.
pub proof fn law_sent_page_is_saved_whole(
    view: ServerView,
    members: Map<Seq<char>, Json>,
    content: Seq<char>,
    own: Seq<char>,
    style: PathStyle,
    step: ClipStepView,
)
    requires
        members.contains_key("content"@) && members["content"@] == Json::Str(content),
        content.len() > 0,
        members.contains_key("projectPath"@) && members["projectPath"@] == Json::Str(own),
        own.len() > 0,
        clip_accepted(view, clipped(Ok(Json::Object(members)))) matches Ok(clip)
            ==> planned_on_some_day(clip, style, step),
    ensures
        step matches ClipStepView::MakeDir { job, dir } && {
            &&& job.project_path == slashed(own)
            &&& dir == clip_dir(slashed(own), style)
            &&& job.markdown.len() >= content.len() + 1
            &&& job.markdown.skip(job.markdown.len() - content.len() - 1) == content.push('\n')
        },
{
    let request = clipped(Ok(Json::Object(members)))->Ok_0;
    law_clip_is_read(members, Json::Null, Seq::empty());
    law_clip_is_for_the_project_that_it_names(view, request, own, content);
    law_planned_clip_is_whole(clip_accepted(view, Ok(request))->Ok_0, style, step);
}

/// Just the outcomes of a step can follow it.
pub proof fn law_outcomes_of_steps(
    job: ClipJobView,
    dir: Seq<char>,
    number: u32,
    path: Seq<char>,
    event: ClipEvent,
)
    ensures
        event_fits(ClipStepView::MakeDir { job, dir }, event) <==> event is DirMade
            || event is DirFailed,
        event_fits(ClipStepView::Probe { job, number, path }, event) <==> event is PathTaken
            || event is PathFree,
        event_fits(ClipStepView::Write { job, number, path }, event) <==> event is Written
            || event is WriteFailed,
        !event_fits(ClipStepView::Done { reply: path }, event),
{
}

/// Once the directory is there, the plain path is looked at; a path that is taken leads to the
/// next one, and a path that is free is written to. The clip stays the same, and so does the
/// state.
pub proof fn law_steps_of_a_clip(
    before: ServerView,
    job: ClipJobView,
    dir: Seq<char>,
    number: u32,
    path: Seq<char>,
)
    requires
        number < u32::MAX,
    ensures
        clip_advanced(before, ClipStepView::MakeDir { job, dir }, ClipEvent::DirMade) == (
            before,
            ClipStepView::Probe {
                job,
                number: 1,
                path: clip_file_path(job.project_path, job.base_name, 1, job.style),
            },
        ),
        clip_advanced(before, ClipStepView::Probe { job, number, path }, ClipEvent::PathTaken) == (
            before,
            ClipStepView::Probe {
                job,
                number: (number + 1) as u32,
                path: clip_file_path(
                    job.project_path,
                    job.base_name,
                    number as nat + 1,
                    job.style,
                ),
            },
        ),
        clip_advanced(before, ClipStepView::Probe { job, number, path }, ClipEvent::PathFree) == (
            before,
            ClipStepView::Write { job, number, path },
        ),
{
}

/// A clip that was written waits behind the others, with its project and the path of its file,
/// and the reply names its path; nothing else changes. Where the lock of the waiting clips fails,
/// the reply is the same, and nothing changes.
pub proof fn law_written_clip_waits(
    before: ServerView,
    job: ClipJobView,
    number: u32,
    path: Seq<char>,
)
    ensures
        ({
            let (after, next) = clip_advanced(
                before,
                ClipStepView::Write { job, number, path },
                ClipEvent::Written,
            );
            &&& before.faults.pending_clips is None ==> after == ServerView {
                pending_clips: before.pending_clips + seq![(job.project_path, path)],
                ..before
            }
            &&& before.faults.pending_clips is Some ==> after == before
            &&& next == ClipStepView::Done {
                reply: json_text(
                    Json::Object(
                        map![
                            "ok"@ => Json::Bool(true),
                            "path"@ => Json::Str(
                                clip_reply_path(
                                    job.project_path,
                                    job.base_name,
                                    number as nat,
                                    job.style,
                                ),
                            ),
                        ],
                    ),
                ),
            }
        }),
{
    assert(before.pending_clips + seq![(job.project_path, path)] == before.pending_clips.push(
        (job.project_path, path),
    ));
}

/// A clip that cannot be written is told the error, and nothing changes.
pub proof fn law_failed_clip_is_told(
    before: ServerView,
    job: ClipJobView,
    dir: Seq<char>,
    number: u32,
    path: Seq<char>,
    error: String,
)
    ensures
        clip_advanced(before, ClipStepView::MakeDir { job, dir }, ClipEvent::DirFailed { error })
            == (
            before,
            ClipStepView::Done {
                reply: "{\"ok\":false,\"error\":\"Failed to create directory: "@ + error@ + "\"}"@,
            },
        ),
        clip_advanced(
            before,
            ClipStepView::Write { job, number, path },
            ClipEvent::WriteFailed { error },
        ) == (
            before,
            ClipStepView::Done {
                reply: "{\"ok\":false,\"error\":\"Failed to write file: "@ + error@ + "\"}"@,
            },
        ),
{
    reveal_strlit("{\"ok\":false,\"error\":\"");
    reveal_strlit("Failed to create directory: ");
    reveal_strlit("{\"ok\":false,\"error\":\"Failed to create directory: ");
    reveal_strlit("Failed to write file: ");
    reveal_strlit("{\"ok\":false,\"error\":\"Failed to write file: ");
    assert("{\"ok\":false,\"error\":\""@ + ("Failed to create directory: "@ + error@) + "\"}"@
        == "{\"ok\":false,\"error\":\"Failed to create directory: "@ + error@ + "\"}"@);
    assert("{\"ok\":false,\"error\":\""@ + ("Failed to write file: "@ + error@) + "\"}"@
        == "{\"ok\":false,\"error\":\"Failed to write file: "@ + error@ + "\"}"@);
}

// The clips that wait

/// Every clip that waits is handed out at its place, with its own project and the path of its
/// own file, and with nothing else.
pub proof fn law_clips_are_handed_out(view: ServerView, at: int)
    requires
        0 <= at < view.pending_clips.len(),
    ensures
        ({
            let members = clips_json(view)->Object_0;
            let items = members["clips"@]->Array_0;
            let item = items[at]->Object_0;
            &&& clips_json(view) is Object
            &&& members.dom() =~= set!["ok"@, "clips"@]
            &&& members["ok"@] == Json::Bool(true)
            &&& members["clips"@] is Array
            &&& items.len() == view.pending_clips.len()
            &&& items[at] is Object
            &&& item.dom() =~= set!["projectPath"@, "filePath"@]
            &&& item["projectPath"@] == Json::Str(view.pending_clips[at].0)
            &&& item["filePath"@] == Json::Str(view.pending_clips[at].1)
        }),
{
    reveal_strlit("ok");
    reveal_strlit("clips");
    reveal_strlit("projectPath");
    reveal_strlit("filePath");
    assert("ok"@.len() != "clips"@.len());
    assert("projectPath"@.len() != "filePath"@.len());
    let items = clips_json(view)->Object_0["clips"@]->Array_0;
    assert(items[at] == listed_clip(view.pending_clips[at]));
}

/// Where no clip waits, an empty list is handed out.
pub proof fn law_no_clips_are_handed_out(view: ServerView)
    requires
        view.pending_clips.len() == 0,
    ensures
        clips_json(view) == Json::Object(
            map!["ok"@ => Json::Bool(true), "clips"@ => Json::Array(Seq::empty())],
        ),
{
    let items = view.pending_clips.map_values(
        |clip: (Seq<char>, Seq<char>)| listed_clip(clip),
    );
    assert(items == Seq::<Json>::empty());
}

} // verus!
