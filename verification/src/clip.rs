//! Web clips: where they are kept, and what is written.
use crate::answer::answers_readable;
use crate::clock::{compact_date_text, date_text, today, COMPACT_DATE_FORMAT, DATE_FORMAT};
use crate::json::{
    json_of, json_text, listing, listing_body, no_members, object_value, ok_mark, parse_json,
    parse_result, read_text, set_member, string_value, text_field, trees, Json,
};
use crate::project::{choose_project, chosen_project, no_project_message, path_body, project_json};
use crate::reply::{failure_body, failure_text, labelled, lemma_invalid_json_status, status_of};
use crate::state::{pairs_view, ServerState, ServerView};
use crate::text::{
    chars_of, decimal, escape_quotes, hyphenate, is_alnum, joined, lowercase, normalize_slashes,
    occurs_in, quotes_escaped, slashed, text_view, words, write_decimal,
};
use vstd::prelude::*;

verus! {

/// How many characters of a title the name of a file takes at most.
pub const MAX_SLUG_CHARS: usize = 50;

/// What a clip says.
pub struct ClipRequest {
    pub title: Option<String>,
    pub url: Option<String>,
    pub content: Option<String>,
    pub project_path: Option<String>,
}

#[verifier::ext_equal]
pub ghost struct ClipRequestView {
    pub title: Option<Seq<char>>,
    pub url: Option<Seq<char>>,
    pub content: Option<Seq<char>>,
    pub project_path: Option<Seq<char>>,
}

impl View for ClipRequest {
    type V = ClipRequestView;

    open spec fn view(&self) -> ClipRequestView {
        ClipRequestView {
            title: text_view(self.title),
            url: text_view(self.url),
            content: text_view(self.content),
            project_path: text_view(self.project_path),
        }
    }
}

/// What a request body clips, or why it cannot be read.
pub open spec fn clipped(parsed: Result<Json, Seq<char>>) -> Result<ClipRequestView, Seq<char>> {
    match parsed {
        Ok(json) => Ok(clip_members(json)),
        Err(error) => Err(error),
    }
}

/// What an object clips.
pub open spec fn clip_members(json: Json) -> ClipRequestView {
    ClipRequestView {
        title: text_field(json, "title"@),
        url: text_field(json, "url"@),
        content: text_field(json, "content"@),
        project_path: text_field(json, "projectPath"@),
    }
}

/// Reads what an object clips.
pub fn clip_of(value: &serde_json::Value) -> (request: ClipRequest)
    ensures
        request@ == clip_members(json_of(*value)),
{
    ClipRequest {
        title: read_text(value, "title"),
        url: read_text(value, "url"),
        content: read_text(value, "content"),
        project_path: read_text(value, "projectPath"),
    }
}

/// A clip or an error, as the contracts see it.
pub open spec fn clip_request_view(request: Result<ClipRequest, String>) -> Result<
    ClipRequestView,
    Seq<char>,
> {
    match request {
        Ok(request) => Ok(request@),
        Err(error) => Err(error@),
    }
}

/// Reads what a request body clips.
pub fn read_clip(body: &str) -> (request: Result<ClipRequest, String>)
    ensures
        clip_request_view(request) == clipped(parse_result(body@)),
        request matches Err(error) ==> !occurs_in(error@, ok_mark()),
{
    match parse_json(body) {
        Ok(value) => Ok(clip_of(&value)),
        Err(error) => Err(error),
    }
}

/// A character as a slug takes it: letters, digits, spaces and hyphens stay, and
/// everything else becomes a space.
pub open spec fn slug_char(c: char) -> char {
    if is_alnum(c) || c == ' ' || c == '-' {
        c
    } else {
        ' '
    }
}

/// The slug of a title: its words in lower case, with hyphens between them, cut after
/// [`MAX_SLUG_CHARS`] characters.
pub open spec fn slug(title: Seq<char>) -> Seq<char> {
    let whole = lowercase(
        joined(words(title.map_values(|c: char| slug_char(c))), seq!['-']),
    );
    if whole.len() > MAX_SLUG_CHARS {
        whole.take(MAX_SLUG_CHARS as int)
    } else {
        whole
    }
}

/// Makes the slug of a title.
pub fn make_slug(title: &str) -> (result: String)
    ensures
        result@ == slug(title@),
{
    let mut chars: Vec<char> = Vec::new();
    for c in it: title.chars()
        invariant
            it.seq() == title@,
            chars@.len() == it.index(),
            forall|k: int| 0 <= k < it.index() ==> chars@[k] == slug_char(title@[k]),
    {
        if c.is_alphanumeric() || c == ' ' || c == '-' {
            chars.push(c);
        } else {
            chars.push(' ');
        }
    }
    assert(chars@ == title@.map_values(|c: char| slug_char(c)));
    let whole = chars_of(hyphenate(&chars).as_str().to_lowercase().as_str());
    let mut result = String::new();
    let mut i: usize = 0;
    while i < whole.len() && i < MAX_SLUG_CHARS
        invariant
            i <= whole@.len(),
            i <= MAX_SLUG_CHARS,
            result@ == whole@.take(i as int),
        decreases whole@.len() - i,
    {
        result.push(whole[i]);
        i = i + 1;
    }
    assert(whole@.take(whole@.len() as int) == whole@);
    result
}

/// How the platform reads paths.
#[derive(Clone, Copy, PartialEq, Eq, Structural)]
pub enum PathStyle {
    Unix,
    Windows,
}

/// Whether a path is a drive and nothing else, as in `C:`.
pub open spec fn bare_drive(path: Seq<char>) -> bool {
    path.len() == 2 && ('a' <= path[0] <= 'z' || 'A' <= path[0] <= 'Z') && path[1] == ':'
}

/// Whether a part can be put right behind a path, without a slash between them. On Windows,
/// what is put behind a bare drive is looked up from where the drive stands.
pub open spec fn open_ended(base: Seq<char>, style: PathStyle) -> bool {
    base.len() == 0 || base.last() == '/' || (style == PathStyle::Windows && (base.last() == '\\'
        || bare_drive(base)))
}

/// A path with a part added to it.
pub open spec fn path_joined(base: Seq<char>, part: Seq<char>, style: PathStyle) -> Seq<char> {
    if open_ended(base, style) {
        base + part
    } else {
        base + "/"@ + part
    }
}

/// Adds a relative part to a path as the platform does, but for the separator that it puts
/// between them: that is a slash on every platform.
pub fn join_path(base: &str, part: &str, style: PathStyle) -> (path: String)
    ensures
        path@ == path_joined(base@, part@, style),
{
    let chars = chars_of(base);
    let mut path = base.to_owned();
    if chars.len() > 0 && chars[chars.len() - 1] != '/' {
        let drive = chars.len() == 2 && ('a' <= chars[0] && chars[0] <= 'z' || 'A' <= chars[0]
            && chars[0] <= 'Z') && chars[1] == ':';
        if style == PathStyle::Unix || (chars[chars.len() - 1] != '\\' && !drive) {
            path.append("/");
        }
    }
    path.append(part);
    path
}

/// The directory of a project where clips are kept.
pub open spec fn clip_dir(project_path: Seq<char>, style: PathStyle) -> Seq<char> {
    path_joined(path_joined(project_path, "raw"@, style), "sources"@, style)
}

/// Makes the path of the directory of a project where clips are kept.
fn make_clip_dir(project_path: &str, style: PathStyle) -> (dir: String)
    ensures
        dir@ == clip_dir(project_path@, style),
{
    join_path(join_path(project_path, "raw", style).as_str(), "sources", style)
}

/// The name of a clip's file: the plain one first, then numbered ones.
pub open spec fn clip_file_name(base_name: Seq<char>, number: nat) -> Seq<char> {
    if number <= 1 {
        base_name + ".md"@
    } else {
        base_name + "-"@ + decimal(number) + ".md"@
    }
}

/// The path of a clip's file.
pub open spec fn clip_file_path(
    project_path: Seq<char>,
    base_name: Seq<char>,
    number: nat,
    style: PathStyle,
) -> Seq<char> {
    slashed(path_joined(clip_dir(project_path, style), clip_file_name(base_name, number), style))
}

/// The path of a clip's file within its project: what its path has behind that of the project.
pub open spec fn clip_relative_path(base_name: Seq<char>, number: nat) -> Seq<char> {
    slashed("raw/sources/"@ + clip_file_name(base_name, number))
}

/// Whether a path is two slashes and the name of a host, with or without a slash behind it, or
/// the two slashes alone.
pub open spec fn host_only(path: Seq<char>) -> bool {
    &&& path.len() >= 2
    &&& path[0] == '/'
    &&& path[1] == '/'
    &&& path.len() > 2 ==> path[2] != '/'
    &&& forall|i: int| 2 <= i < path.len() - 1 ==> path[i] != '/'
}

/// The path that the reply to a clip names: that within the project, unless the project is not
/// where the path of the file starts. This is so on Windows where the path of the project names
/// a host alone: what comes next is taken for a share of that host, and the two together for
/// the start of the path. The reply names the whole path then.
pub open spec fn clip_reply_path(
    project_path: Seq<char>,
    base_name: Seq<char>,
    number: nat,
    style: PathStyle,
) -> Seq<char> {
    if style == PathStyle::Windows && host_only(project_path) {
        clip_file_path(project_path, base_name, number, style)
    } else {
        clip_relative_path(base_name, number)
    }
}

/// Tells whether a path names a host alone.
fn is_host_only(path: &str) -> (holds: bool)
    ensures
        holds == host_only(path@),
{
    let chars = chars_of(path);
    if chars.len() < 2 || chars[0] != '/' || chars[1] != '/' {
        return false;
    }
    if chars.len() > 2 && chars[2] == '/' {
        return false;
    }
    let mut i: usize = 2;
    while i < chars.len() - 1
        invariant
            chars@ == path@,
            2 <= chars@.len(),
            2 <= i,
            forall|k: int| 2 <= k < i ==> chars@[k] != '/',
        decreases chars@.len() - i,
    {
        if chars[i] == '/' {
            return false;
        }
        i = i + 1;
    }
    true
}

/// The text of a clip's file.
pub open spec fn clip_markdown(
    title: Seq<char>,
    url: Seq<char>,
    date: Seq<char>,
    content: Seq<char>,
) -> Seq<char> {
    "---\ntype: clip\ntitle: \""@ + quotes_escaped(title) + "\"\nurl: \""@ + quotes_escaped(url)
        + "\"\nclipped: "@ + date
        + "\norigin: web-clip\nsources: []\ntags: [web-clip]\n---\n\n# "@ + title
        + "\n\nSource: "@ + url + "\n\n"@ + content + "\n"@
}

/// Writes the text of a clip's file.
pub fn make_markdown(title: &str, url: &str, date: &str, content: &str) -> (markdown: String)
    ensures
        markdown@ == clip_markdown(title@, url@, date@, content@),
{
    let mut markdown = "---\ntype: clip\ntitle: \"".to_owned();
    markdown.append(escape_quotes(title).as_str());
    markdown.append("\"\nurl: \"");
    markdown.append(escape_quotes(url).as_str());
    markdown.append("\"\nclipped: ");
    markdown.append(date);
    markdown.append("\norigin: web-clip\nsources: []\ntags: [web-clip]\n---\n\n# ");
    markdown.append(title);
    markdown.append("\n\nSource: ");
    markdown.append(url);
    markdown.append("\n\n");
    markdown.append(content);
    markdown.append("\n");
    markdown
}

/// A clip that is being written.
pub struct ClipJob {
    pub project_path: String,
    pub style: PathStyle,
    /// The name of the file, without a number and an ending.
    pub base_name: String,
    pub markdown: String,
}

#[verifier::ext_equal]
pub ghost struct ClipJobView {
    pub project_path: Seq<char>,
    pub style: PathStyle,
    pub base_name: Seq<char>,
    pub markdown: Seq<char>,
}

impl View for ClipJob {
    type V = ClipJobView;

    open spec fn view(&self) -> ClipJobView {
        ClipJobView {
            project_path: self.project_path@,
            style: self.style,
            base_name: self.base_name@,
            markdown: self.markdown@,
        }
    }
}

/// What is to be done for a clip next.
pub enum ClipStep {
    /// Make the directory, with all that it stands in.
    MakeDir { job: ClipJob, dir: String },
    /// Find out whether something has the path already.
    Probe { job: ClipJob, number: u32, path: String },
    /// Write the text to the file.
    Write { job: ClipJob, number: u32, path: String },
    /// Give the reply.
    Done { reply: String },
}

pub ghost enum ClipStepView {
    MakeDir { job: ClipJobView, dir: Seq<char> },
    Probe { job: ClipJobView, number: u32, path: Seq<char> },
    Write { job: ClipJobView, number: u32, path: Seq<char> },
    Done { reply: Seq<char> },
}

impl View for ClipStep {
    type V = ClipStepView;

    open spec fn view(&self) -> ClipStepView {
        match self {
            ClipStep::MakeDir { job, dir } => ClipStepView::MakeDir { job: job@, dir: dir@ },
            ClipStep::Probe { job, number, path } => ClipStepView::Probe {
                job: job@,
                number: *number,
                path: path@,
            },
            ClipStep::Write { job, number, path } => ClipStepView::Write {
                job: job@,
                number: *number,
                path: path@,
            },
            ClipStep::Done { reply } => ClipStepView::Done { reply: reply@ },
        }
    }
}

/// What became of a step.
pub enum ClipEvent {
    DirMade,
    DirFailed { error: String },
    PathTaken,
    PathFree,
    Written,
    WriteFailed { error: String },
}

/// The base name of a clip's file.
pub open spec fn clip_base_name(title: Seq<char>, compact_date: Seq<char>) -> Seq<char> {
    slug(title) + "-"@ + compact_date
}

/// A clip that can be written.
pub struct AcceptedClip {
    pub title: String,
    pub url: String,
    pub content: String,
    pub project_path: String,
}

#[verifier::ext_equal]
pub ghost struct AcceptedClipView {
    pub title: Seq<char>,
    pub url: Seq<char>,
    pub content: Seq<char>,
    pub project_path: Seq<char>,
}

impl View for AcceptedClip {
    type V = AcceptedClipView;

    open spec fn view(&self) -> AcceptedClipView {
        AcceptedClipView {
            title: self.title@,
            url: self.url@,
            content: self.content@,
            project_path: self.project_path@,
        }
    }
}

/// What a clip is accepted as, or the reply that refuses it.
pub open spec fn clip_accepted(
    view: ServerView,
    request: Result<ClipRequestView, Seq<char>>,
) -> Result<AcceptedClipView, Seq<char>> {
    match request {
        Err(error) => Err(failure_text("Invalid JSON: "@ + error)),
        Ok(request) => {
            let title = request.title.unwrap_or("Untitled"@);
            let url = request.url.unwrap_or(Seq::empty());
            let content = request.content.unwrap_or(Seq::empty());
            match chosen_project(view, request.project_path) {
                Err(error) => Err(failure_text("Lock error: "@ + error)),
                Ok(project_path) => if project_path.len() == 0 {
                    Err(failure_text(no_project_message()))
                } else if content.len() == 0 {
                    Err(failure_text("content is required"@))
                } else {
                    Ok(AcceptedClipView { title, url, content, project_path })
                },
            }
        },
    }
}

/// The first step for a clip that was accepted, on a day given in its two formats.
pub open spec fn clip_planned(
    clip: AcceptedClipView,
    style: PathStyle,
    date: Seq<char>,
    compact_date: Seq<char>,
) -> ClipStepView {
    ClipStepView::MakeDir {
        job: ClipJobView {
            project_path: clip.project_path,
            style,
            base_name: clip_base_name(clip.title, compact_date),
            markdown: clip_markdown(clip.title, clip.url, date, clip.content),
        },
        dir: clip_dir(clip.project_path, style),
    }
}

/// A clip that was accepted or the reply that refuses it, as the contracts see it.
pub open spec fn accepted_clip_view(accepted: Result<AcceptedClip, String>) -> Result<
    AcceptedClipView,
    Seq<char>,
> {
    match accepted {
        Ok(clip) => Ok(clip@),
        Err(reply) => Err(reply@),
    }
}

/// Decides whether a clip can be written.
pub fn accept_clip(state: &ServerState, request: Result<ClipRequest, String>) -> (accepted: Result<
    AcceptedClip,
    String,
>)
    ensures
        accepted_clip_view(accepted) == clip_accepted(state@, clip_request_view(request)),
{
    let request = match request {
        Ok(request) => request,
        Err(error) => {
            return Err(failure_body(labelled("Invalid JSON: ", error.as_str()).as_str()));
        },
    };
    let title = match request.title {
        Some(title) => title,
        None => "Untitled".to_owned(),
    };
    let url = match request.url {
        Some(url) => url,
        None => String::new(),
    };
    let content = match request.content {
        Some(content) => content,
        None => String::new(),
    };
    let project_path = match choose_project(state, request.project_path) {
        Ok(project_path) => project_path,
        Err(error) => {
            return Err(failure_body(labelled("Lock error: ", error.as_str()).as_str()));
        },
    };
    if project_path.as_str().is_empty() {
        return Err(
            failure_body(
                "projectPath is required (set via POST /project or include in request body)",
            ),
        );
    }
    if content.as_str().is_empty() {
        return Err(failure_body("content is required"));
    }
    Ok(AcceptedClip { title, url, content, project_path })
}

/// Plans how a clip is written on a day.
pub fn plan_clip(
    clip: AcceptedClip,
    style: PathStyle,
    date: &str,
    compact_date: &str,
) -> (step: ClipStep)
    ensures
        step@ == clip_planned(clip@, style, date@, compact_date@),
{
    let mut base_name = make_slug(clip.title.as_str());
    base_name.append("-");
    base_name.append(compact_date);
    let markdown = make_markdown(
        clip.title.as_str(),
        clip.url.as_str(),
        date,
        clip.content.as_str(),
    );
    let project_path = clip.project_path;
    let dir = make_clip_dir(project_path.as_str(), style);
    ClipStep::MakeDir { job: ClipJob { project_path, style, base_name, markdown }, dir }
}

/// Whether a step is the first one for a clip that was accepted, on some day.
pub open spec fn planned_on_some_day(
    clip: AcceptedClipView,
    style: PathStyle,
    step: ClipStepView,
) -> bool {
    exists|date: Seq<char>, compact_date: Seq<char>|
        date_text(date) && compact_date_text(compact_date) && step == #[trigger] clip_planned(
            clip,
            style,
            date,
            compact_date,
        )
}

/// Handles the body of a request that clips a page, up to the first step. The day on which a
/// clip is accepted is that of the clock, of which nothing is known.
pub fn handle_clip(state: &ServerState, body: &str, style: PathStyle) -> (step: ClipStep)
    ensures
        clip_accepted(state@, clipped(parse_result(body@))) matches Err(reply) ==> step@
            == (ClipStepView::Done { reply }),
        clip_accepted(state@, clipped(parse_result(body@))) matches Ok(clip)
            ==> planned_on_some_day(clip, style, step@),
        parse_result(body@) is Err ==> (step@ matches ClipStepView::Done { reply } && status_of(
            reply,
            500,
        ) == 500),
{
    let request = read_clip(body);
    proof {
        if let Err(error) = &request {
            lemma_invalid_json_status(error@, 500);
        }
    }
    match accept_clip(state, request) {
        Err(reply) => ClipStep::Done { reply },
        Ok(clip) => {
            let ghost accepted = clip@;
            let date = today(DATE_FORMAT);
            let compact_date = today(COMPACT_DATE_FORMAT);
            let step = plan_clip(clip, style, date.as_str(), compact_date.as_str());
            assert(planned_on_some_day(accepted, style, step@));
            step
        },
    }
}

/// Makes the path of a clip's file.
fn make_file_path(job: &ClipJob, number: u32) -> (path: String)
    ensures
        path@ == clip_file_path(job.project_path@, job.base_name@, number as nat, job.style),
{
    let name = make_file_name(job.base_name.as_str(), number);
    let dir = make_clip_dir(job.project_path.as_str(), job.style);
    normalize_slashes(join_path(dir.as_str(), name.as_str(), job.style).as_str())
}

/// Makes the name of a clip's file.
pub fn make_file_name(base_name: &str, number: u32) -> (name: String)
    ensures
        name@ == clip_file_name(base_name@, number as nat),
{
    let mut name = base_name.to_owned();
    if number > 1 {
        name.append("-");
        name.append(write_decimal(number as u64).as_str());
    }
    name.append(".md");
    name
}

/// Makes the path that the reply to a clip names.
fn make_reply_path(job: &ClipJob, number: u32) -> (path: String)
    ensures
        path@ == clip_reply_path(job.project_path@, job.base_name@, number as nat, job.style),
{
    if job.style == PathStyle::Windows && is_host_only(job.project_path.as_str()) {
        return make_file_path(job, number);
    }
    let mut relative = "raw/sources/".to_owned();
    relative.append(make_file_name(job.base_name.as_str(), number).as_str());
    normalize_slashes(relative.as_str())
}

/// Whether an event can follow a step.
pub open spec fn event_fits(step: ClipStepView, event: ClipEvent) -> bool {
    match step {
        ClipStepView::MakeDir { .. } => event is DirMade || event is DirFailed,
        ClipStepView::Probe { .. } => event is PathTaken || event is PathFree,
        ClipStepView::Write { .. } => event is Written || event is WriteFailed,
        ClipStepView::Done { .. } => false,
    }
}

/// The state after an event, and the next step.
///
/// Once the directory is there, the file takes the first name that is free: the plain one,
/// or else the one with the least number from 2 on. A clip that was written waits to be
/// picked up, unless the lock of the waiting clips fails.
pub open spec fn clip_advanced(before: ServerView, step: ClipStepView, event: ClipEvent) -> (
    ServerView,
    ClipStepView,
) {
    match (step, event) {
        (ClipStepView::MakeDir { job, .. }, ClipEvent::DirMade) => (
            before,
            ClipStepView::Probe {
                job,
                number: 1,
                path: clip_file_path(job.project_path, job.base_name, 1, job.style),
            },
        ),
        (ClipStepView::MakeDir { .. }, ClipEvent::DirFailed { error }) => (
            before,
            ClipStepView::Done {
                reply: failure_text("Failed to create directory: "@ + error@),
            },
        ),
        (ClipStepView::Probe { job, number, .. }, ClipEvent::PathTaken) => (
            before,
            ClipStepView::Probe {
                job,
                number: (number + 1) as u32,
                path: clip_file_path(
                    job.project_path,
                    job.base_name,
                    (number + 1) as nat,
                    job.style,
                ),
            },
        ),
        (ClipStepView::Probe { job, number, path }, ClipEvent::PathFree) => (
            before,
            ClipStepView::Write { job, number, path },
        ),
        (ClipStepView::Write { .. }, ClipEvent::WriteFailed { error }) => (
            before,
            ClipStepView::Done { reply: failure_text("Failed to write file: "@ + error@) },
        ),
        (ClipStepView::Write { job, number, path }, ClipEvent::Written) => (
            if before.faults.pending_clips is None {
                ServerView {
                    pending_clips: before.pending_clips.push((job.project_path, path)),
                    ..before
                }
            } else {
                before
            },
            ClipStepView::Done {
                reply: json_text(
                    project_json(
                        clip_reply_path(
                            job.project_path,
                            job.base_name,
                            number as nat,
                            job.style,
                        ),
                    ),
                ),
            },
        ),
        _ => (before, step),
    }
}

/// Takes note of what became of a step, and decides on the next.
pub fn advance_clip(state: &mut ServerState, step: ClipStep, event: ClipEvent) -> (next: ClipStep)
    requires
        event_fits(step@, event),
        event is PathTaken ==> (step matches ClipStep::Probe { number, .. } ==> number + 1
            < u32::MAX),
    ensures
        (final(state)@, next@) == clip_advanced(old(state)@, step@, event),
        answers_readable(old(state)@) ==> answers_readable(final(state)@),
        // The reply to a clip that was written stands for success, and names its file.
        event is Written ==> (next@ matches ClipStepView::Done { reply } && status_of(reply, 500)
            == 200 && (step@ matches ClipStepView::Write { job, number, .. } ==> parse_result(reply)
            == Ok::<Json, Seq<char>>(
            project_json(
                clip_reply_path(job.project_path, job.base_name, number as nat, job.style),
            ),
        ))),
{
    match (step, event) {
        (ClipStep::MakeDir { job, .. }, ClipEvent::DirMade) => {
            let path = make_file_path(&job, 1);
            ClipStep::Probe { job, number: 1, path }
        },
        (ClipStep::MakeDir { .. }, ClipEvent::DirFailed { error }) => {
            let message = labelled("Failed to create directory: ", error.as_str());
            ClipStep::Done { reply: failure_body(message.as_str()) }
        },
        (ClipStep::Probe { job, number, .. }, ClipEvent::PathTaken) => {
            let path = make_file_path(&job, number + 1);
            ClipStep::Probe { job, number: number + 1, path }
        },
        (ClipStep::Probe { job, number, path }, ClipEvent::PathFree) => {
            ClipStep::Write { job, number, path }
        },
        (ClipStep::Write { .. }, ClipEvent::WriteFailed { error }) => {
            let message = labelled("Failed to write file: ", error.as_str());
            ClipStep::Done { reply: failure_body(message.as_str()) }
        },
        (ClipStep::Write { job, number, path }, ClipEvent::Written) => {
            let reply = path_body(make_reply_path(&job, number).as_str());
            if state.faults.pending_clips.is_none() {
                let ghost clips = state.pending_clips@;
                let clip = (job.project_path, path);
                state.pending_clips.push(clip);
                assert(pairs_view(clips.push(clip)) == pairs_view(clips).push(
                    (clip.0@, clip.1@),
                ));
            }
            ClipStep::Done { reply }
        },
        (step, _) => step,
    }
}

/// How a clip is handed to the desktop app.
pub open spec fn listed_clip(clip: (Seq<char>, Seq<char>)) -> Json {
    Json::Object(map!["projectPath"@ => Json::Str(clip.0), "filePath"@ => Json::Str(clip.1)])
}

/// What a request for the waiting clips is answered.
pub open spec fn clips_json(view: ServerView) -> Json {
    listing(
        "clips"@,
        view.pending_clips.map_values(|clip: (Seq<char>, Seq<char>)| listed_clip(clip)),
    )
}

/// Hands the waiting clips to the desktop app, and forgets them.
pub fn take_pending_clips(state: &mut ServerState) -> (body: String)
    requires
        old(state)@.faults.pending_clips is None,
    ensures
        final(state)@ == (ServerView { pending_clips: Seq::empty(), ..old(state)@ }),
        body@ == json_text(clips_json(old(state)@)),
        parse_result(body@) == (Ok::<Json, Seq<char>>(clips_json(old(state)@))),
{
    let mut items: Vec<serde_json::Value> = Vec::new();
    let ghost listed = state@.pending_clips.map_values(
        |clip: (Seq<char>, Seq<char>)| listed_clip(clip),
    );
    for i in 0..state.pending_clips.len()
        invariant
            *state == *old(state),
            listed == state@.pending_clips.map_values(
                |clip: (Seq<char>, Seq<char>)| listed_clip(clip),
            ),
            items@.len() == i,
            forall|k: int| 0 <= k < i ==> json_of(#[trigger] items@[k]) == listed[k],
    {
        let mut members = no_members();
        set_member(&mut members, "projectPath", string_value(state.pending_clips[i].0.as_str()));
        set_member(&mut members, "filePath", string_value(state.pending_clips[i].1.as_str()));
        let item = object_value(members);
        assert(json_of(item) == listed[i as int]);
        items.push(item);
    }
    assert(trees(items@) == listed);
    state.pending_clips.clear();
    listing_body("clips", items)
}

} // verus!
