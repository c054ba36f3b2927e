//! What holds of the files of clips.
use crate::clip::{
    clip_advanced, clip_base_name, clip_dir, clip_file_name, clip_file_path, clip_relative_path,
    clip_reply_path, clips_json, host_only, listed_clip, path_joined, slug, slug_char,
    ClipEvent, ClipJobView, ClipStepView, PathStyle, MAX_SLUG_CHARS,
};
use crate::clock::compact_date_text;
use crate::laws::law_slashed_keeps;
use crate::state::ServerView;
use crate::text::{
    ascii, ascii_digit, ascii_lower, ascii_text, decimal, is_alnum, is_white, joined,
    lemma_decimal_digits, lemma_decimal_injective, quotes_escaped, slashed, words,
};
use vstd::prelude::*;

verus! {

/// The slug of a title is not too long for the name of a file.
pub proof fn law_slug_is_short(title: Seq<char>)
    ensures
        slug(title).len() <= MAX_SLUG_CHARS,
{
}

proof fn lemma_word_chars(text: Seq<char>)
    ensures
        forall|w: int, i: int|
            0 <= w < words(text).len() && 0 <= i < words(text)[w].len() ==> text.contains(
                #[trigger] words(text)[w][i],
            ) && !is_white(words(text)[w][i]),
        text.len() > 0 && !is_white(text.last()) ==> words(text).len() > 0,
    decreases text.len(),
{
    if text.len() > 0 {
        let before = text.drop_last();
        lemma_word_chars(before);
        let found = words(before);
        let now = words(text);
        assert(text.contains(text.last()));
        assert forall|w: int, i: int|
            0 <= w < now.len() && 0 <= i < now[w].len() implies text.contains(#[trigger] now[w][i])
            && !is_white(now[w][i]) by {
            if now[w][i] != text.last() {
                assert(w < found.len() && 0 <= i < found[w].len() && found[w][i] == now[w][i]);
                assert(before.contains(found[w][i]));
                let k = choose|k: int| 0 <= k < before.len() && before[k] == found[w][i];
                assert(text[k] == now[w][i]);
            } else if is_white(text.last()) {
                assert(found[w][i] == now[w][i]);
            }
        }
    }
}

proof fn lemma_joined_chars(parts: Seq<Seq<char>>, glue: Seq<char>, at: int)
    requires
        0 <= at < joined(parts, glue).len(),
    ensures
        glue.contains(joined(parts, glue)[at]) || exists|w: int, i: int|
            0 <= w < parts.len() && 0 <= i < parts[w].len() && #[trigger] parts[w][i] == joined(
                parts,
                glue,
            )[at],
    decreases parts.len(),
{
    if parts.len() > 0 {
        let before = joined(parts.drop_last(), glue);
        let between = if parts.len() > 1 {
            glue
        } else {
            Seq::empty()
        };
        let whole = joined(parts, glue);
        if at < before.len() {
            lemma_joined_chars(parts.drop_last(), glue, at);
            assert(whole[at] == before[at]);
            if !glue.contains(whole[at]) {
                let (w, i) = choose|w: int, i: int|
                    0 <= w < parts.drop_last().len() && 0 <= i < parts.drop_last()[w].len()
                        && #[trigger] parts.drop_last()[w][i] == before[at];
                assert(parts[w][i] == whole[at]);
            }
        } else if at < before.len() + between.len() {
            assert(whole[at] == between[at - before.len()]);
            assert(glue.contains(whole[at]));
        } else {
            let w = parts.len() - 1;
            let i = at - before.len() - between.len();
            assert(whole[at] == parts.last()[i]);
            assert(parts[w][i] == whole[at]);
        }
    }
}

/// The words of a title, joined by hyphens, as a slug takes them.
pub open spec fn hyphenated(title: Seq<char>) -> Seq<char> {
    joined(words(title.map_values(|c: char| slug_char(c))), seq!['-'])
}

/// Before it is put in lower case, a slug holds letters, digits and hyphens alone, and each
/// of these but the hyphen is in the title.
pub proof fn law_hyphenated_chars(title: Seq<char>, at: int)
    requires
        0 <= at < hyphenated(title).len(),
    ensures
        hyphenated(title)[at] == '-' || (is_alnum(hyphenated(title)[at]) && title.contains(
            hyphenated(title)[at],
        )),
{
    let mapped = title.map_values(|c: char| slug_char(c));
    let c = hyphenated(title)[at];
    lemma_joined_chars(words(mapped), seq!['-'], at);
    if seq!['-'].contains(c) {
    } else {
        let (w, i) = choose|w: int, i: int|
            0 <= w < words(mapped).len() && 0 <= i < words(mapped)[w].len()
                && #[trigger] words(mapped)[w][i] == c;
        lemma_word_chars(mapped);
        assert(mapped.contains(words(mapped)[w][i]));
        let k = choose|k: int| 0 <= k < mapped.len() && mapped[k] == c;
        assert(mapped[k] == slug_char(title[k]));
        assert(is_white(' '));
        assert(title.contains(title[k]));
    }
}

/// A character that the slug of an ASCII title can hold.
pub open spec fn plain_slug_char(c: char) -> bool {
    'a' <= c <= 'z' || ascii_digit(c) || c == '-'
}

/// The slug of an ASCII title is made of lower-case letters, digits and hyphens.
pub proof fn law_ascii_slug_is_plain(title: Seq<char>)
    requires
        ascii_text(title),
    ensures
        forall|i: int| 0 <= i < slug(title).len() ==> plain_slug_char(#[trigger] slug(title)[i]),
{
    let whole = hyphenated(title);
    assert forall|i: int| 0 <= i < whole.len() implies ascii(#[trigger] whole[i])
        && plain_slug_char(ascii_lower(whole[i])) by {
        law_hyphenated_chars(title, i);
        if whole[i] != '-' {
            let k = choose|k: int| 0 <= k < title.len() && title[k] == whole[i];
            assert(ascii(title[k]));
        }
    }
    assert(ascii_text(whole));
    assert forall|i: int| 0 <= i < slug(title).len() implies plain_slug_char(
        #[trigger] slug(title)[i],
    ) by {
        assert(slug(title)[i] == ascii_lower(whole[i]));
    }
}

/// The file of a clip with an ASCII title is right in the directory for clips: its name has
/// no slash and no backslash.
pub proof fn law_ascii_clip_stays_in_its_dir(
    project_path: Seq<char>,
    title: Seq<char>,
    compact_date: Seq<char>,
    number: nat,
    style: PathStyle,
)
    requires
        project_path.len() > 0,
        !project_path.contains('\\'),
        ascii_text(title),
        compact_date_text(compact_date),
    ensures
        ({
            let name = clip_file_name(clip_base_name(title, compact_date), number);
            &&& !name.contains('/')
            &&& !name.contains('\\')
            &&& clip_file_path(project_path, clip_base_name(title, compact_date), number, style)
                == clip_dir(project_path, style) + "/"@ + name
        }),
{
    let base = clip_base_name(title, compact_date);
    let name = clip_file_name(base, number);
    reveal_strlit("-");
    reveal_strlit(".md");
    law_ascii_slug_is_plain(title);
    lemma_decimal_digits(number);
    assert forall|i: int| 0 <= i < name.len() implies #[trigger] name[i] != '/' && name[i]
        != '\\' by {
        let s = slug(title).len() as int;
        let d = s + 1 + compact_date.len();
        if i < s {
            assert(name[i] == slug(title)[i]);
        } else if i == s {
            assert(name[i] == '-');
        } else if i < d {
            let k = i - s - 1;
            let year = compact_date.len() - 4;
            assert(name[i] == compact_date[k]);
            if k < year {
                assert(compact_date.take(year)[k] == compact_date[k]);
            } else if k < year + 2 {
                assert(compact_date.subrange(year, year + 2)[k - year] == compact_date[k]);
            } else {
                assert(compact_date.subrange(year + 2, year + 4)[k - year - 2] == compact_date[k]);
            }
        } else if number > 1 && d < i < d + 1 + decimal(number).len() {
            assert(name[i] == decimal(number)[i - d - 1]);
        }
    }
    lemma_clip_path(project_path, base, number, style);
    law_slashed_keeps(name);
}

proof fn lemma_clip_path(
    project_path: Seq<char>,
    base_name: Seq<char>,
    number: nat,
    style: PathStyle,
)
    requires
        project_path.len() > 0,
        !project_path.contains('\\'),
    ensures
        clip_file_path(project_path, base_name, number, style) == clip_dir(project_path, style)
            + "/"@ + slashed(clip_file_name(base_name, number)),
        clip_file_path(project_path, base_name, number, style) == path_joined(
            project_path,
            clip_relative_path(base_name, number),
            style,
        ),
{
    reveal_strlit("/");
    reveal_strlit("raw");
    reveal_strlit("sources");
    reveal_strlit("raw/sources/");
    let name = clip_file_name(base_name, number);
    let dir = clip_dir(project_path, style);
    assert(!("raw"@).contains('\\'));
    assert(!("sources"@).contains('\\'));
    assert(dir.last() == 's');
    let whole = path_joined(dir, name, style);
    assert(whole == dir + "/"@ + name);
    assert forall|i: int| 0 <= i < dir.len() implies dir[i] != '\\' by {
        if i < project_path.len() {
            assert(dir[i] == project_path[i]);
            assert(project_path.contains(project_path[i]));
        }
    }
    assert(slashed(whole) == dir + "/"@ + slashed(name));
    let relative = "raw/sources/"@ + name;
    assert(slashed(relative) == "raw/sources/"@ + slashed(name));
    assert(dir + "/"@ == path_joined(project_path, "raw/sources/"@, style));
}

/// The path that the reply to a clip names is that of the file that was written, or else leads
/// to it from the path of the project.
pub proof fn law_reply_path_leads_to_the_file(
    project_path: Seq<char>,
    base_name: Seq<char>,
    number: nat,
    style: PathStyle,
)
    requires
        project_path.len() > 0,
        !project_path.contains('\\'),
    ensures
        ({
            let path = clip_file_path(project_path, base_name, number, style);
            let named = clip_reply_path(project_path, base_name, number, style);
            if style == PathStyle::Windows && host_only(project_path) {
                named == path
            } else {
                path_joined(project_path, named, style) == path
            }
        }),
{
    lemma_clip_path(project_path, base_name, number, style);
}

/// Every try for a free name is a try for another name.
pub proof fn law_clip_names_differ(base_name: Seq<char>, number1: nat, number2: nat)
    requires
        number1 >= 1,
        number2 >= 1,
    ensures
        clip_file_name(base_name, number1) == clip_file_name(base_name, number2) <==> number1
            == number2,
{
    reveal_strlit("-");
    reveal_strlit(".md");
    lemma_decimal_digits(number1);
    lemma_decimal_digits(number2);
    let a = clip_file_name(base_name, number1);
    let b = clip_file_name(base_name, number2);
    if a == b {
        if number1 > 1 && number2 > 1 {
            let start = base_name.len() + 1;
            assert(a.len() == start + decimal(number1).len() + 3);
            assert(b.len() == start + decimal(number2).len() + 3);
            assert forall|i: int| 0 <= i < decimal(number1).len() implies decimal(number1)[i]
                == decimal(number2)[i] by {
                assert(a[start + i] == decimal(number1)[i]);
                assert(b[start + i] == decimal(number2)[i]);
            }
            assert(decimal(number1) == decimal(number2));
            lemma_decimal_injective(number1, number2);
        } else if number1 > 1 {
            assert(b.len() == base_name.len() + 3);
            assert(a.len() == base_name.len() + 1 + decimal(number1).len() + 3);
        } else if number2 > 1 {
            assert(a.len() == base_name.len() + 3);
            assert(b.len() == base_name.len() + 1 + decimal(number2).len() + 3);
        }
    }
}

/// The step for a clip after its directory was made and some paths were found taken.
pub open spec fn after_taken(
    view: ServerView,
    job: ClipJobView,
    dir: Seq<char>,
    taken: nat,
) -> ClipStepView
    decreases taken,
{
    if taken == 0 {
        clip_advanced(view, ClipStepView::MakeDir { job, dir }, ClipEvent::DirMade).1
    } else {
        clip_advanced(
            view,
            after_taken(view, job, dir, (taken - 1) as nat),
            ClipEvent::PathTaken,
        ).1
    }
}

/// A clip is written to the first path that is free, and waits under that path to be picked
/// up.
pub proof fn law_clip_takes_the_first_free_path(
    view: ServerView,
    job: ClipJobView,
    dir: Seq<char>,
    taken: nat,
)
    requires
        taken + 1 < u32::MAX,
        view.faults.pending_clips is None,
    ensures
        ({
            let path = clip_file_path(
                job.project_path,
                job.base_name,
                taken + 1,
                job.style,
            );
            let probe = after_taken(view, job, dir, taken);
            let write = clip_advanced(view, probe, ClipEvent::PathFree).1;
            let after = clip_advanced(view, write, ClipEvent::Written).0;
            &&& probe == ClipStepView::Probe { job, number: (taken + 1) as u32, path }
            &&& write == ClipStepView::Write { job, number: (taken + 1) as u32, path }
            &&& after.pending_clips == view.pending_clips.push((job.project_path, path))
        }),
    decreases taken,
{
    if taken > 0 {
        law_clip_takes_the_first_free_path(view, job, dir, (taken - 1) as nat);
    }
}

/// A clip that was written is handed to the desktop app behind those that wait, with the
/// path of its file.
pub proof fn law_written_clip_is_handed_out(
    before: ServerView,
    job: ClipJobView,
    number: u32,
    path: Seq<char>,
)
    requires
        before.faults.pending_clips is None,
    ensures
        ({
            let after = clip_advanced(
                before,
                ClipStepView::Write { job, number, path },
                ClipEvent::Written,
            ).0;
            let handed = clips_json(after).field("clips"@).as_array().unwrap();
            &&& handed.len() == before.pending_clips.len() + 1
            &&& handed.last().field("filePath"@).as_str() == Some(path)
            &&& handed.last().field("projectPath"@).as_str() == Some(job.project_path)
        }),
{
    reveal_strlit("ok");
    reveal_strlit("clips");
    reveal_strlit("filePath");
    reveal_strlit("projectPath");
    assert("ok"@.len() != "clips"@.len());
    assert("filePath"@.len() != "projectPath"@.len());
    let after = clip_advanced(
        before,
        ClipStepView::Write { job, number, path },
        ClipEvent::Written,
    ).0;
    let handed = clips_json(after).field("clips"@).as_array().unwrap();
    assert(handed == after.pending_clips.map_values(
        |clip: (Seq<char>, Seq<char>)| listed_clip(clip),
    ));
    assert(handed.last() == listed_clip((job.project_path, path)));
}

/// In a text whose quotes were escaped, a backslash stands before every double quote.
pub proof fn law_quotes_are_escaped(text: Seq<char>)
    ensures
        forall|i: int|
            0 <= i < quotes_escaped(text).len() && #[trigger] quotes_escaped(text)[i] == '"' ==> i
                > 0 && quotes_escaped(text)[i - 1] == '\\',
    decreases text.len(),
{
    if text.len() > 0 {
        law_quotes_are_escaped(text.drop_last());
        let rest = quotes_escaped(text.drop_last());
        let whole = quotes_escaped(text);
        assert forall|i: int| 0 <= i < whole.len() && #[trigger] whole[i] == '"' implies i > 0
            && whole[i - 1] == '\\' by {
            if i < rest.len() {
                assert(rest[i] == whole[i]);
                assert(rest[i - 1] == whole[i - 1]);
            }
        }
    }
}

} // verus!
