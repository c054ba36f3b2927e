//! The texts and the status codes of replies.
use crate::json::{
    bool_value, json_of, json_text, lemma_flat_object, nesting_limit, no_members, object_value,
    ok_mark, parse_result, set_member, string_value, write_json, Json,
};
use crate::text::{contains_text, occurs_at, occurs_in};
use vstd::prelude::*;

verus! {

/// The status code and the body of a reply.
pub struct Reply {
    pub status: u16,
    pub body: String,
}

#[verifier::ext_equal]
pub ghost struct ReplyView {
    pub status: u16,
    pub body: Seq<char>,
}

impl View for Reply {
    type V = ReplyView;

    open spec fn view(&self) -> ReplyView {
        ReplyView { status: self.status, body: self.body@ }
    }
}

/// The body of a plain success.
pub open spec fn ok_text() -> Seq<char> {
    "{\"ok\":true}"@
}

/// The body of a plain success.
pub fn ok_body() -> (body: String)
    ensures
        body@ == ok_text(),
{
    "{\"ok\":true}".to_owned()
}

/// The body of a failure, with the message as it is.
pub open spec fn failure_text(message: Seq<char>) -> Seq<char> {
    "{\"ok\":false,\"error\":\""@ + message + "\"}"@
}

/// Writes the body of a failure, with the message as it is.
pub fn failure_body(message: &str) -> (body: String)
    ensures
        body@ == failure_text(message@),
{
    let mut body = "{\"ok\":false,\"error\":\"".to_owned();
    body.append(message);
    body.append("\"}");
    body
}

/// Puts a label before the text of an error.
pub fn labelled(label: &str, error: &str) -> (message: String)
    ensures
        message@ == label@ + error@,
{
    let mut message = label.to_owned();
    message.append(error);
    message
}

/// The object of a failure.
pub open spec fn failure_json(message: Seq<char>) -> Json {
    Json::Object(map!["ok"@ => Json::Bool(false), "error"@ => Json::Str(message)])
}

/// Writes the object of a failure.
pub fn failure_object(message: &str) -> (body: String)
    ensures
        body@ == json_text(failure_json(message@)),
        parse_result(body@) == (Ok::<Json, Seq<char>>(failure_json(message@))),
{
    let mut members = no_members();
    set_member(&mut members, "ok", bool_value(false));
    set_member(&mut members, "error", string_value(message));
    let value = object_value(members);
    assert(json_of(value) == failure_json(message@));
    proof {
        lemma_flat_object(json_of(value)->Object_0, nesting_limit());
    }
    write_json(&value)
}

/// The status code that a reply body stands for: success where it shows a truthful `ok`
/// member, and the given code where it does not.
pub open spec fn status_of(body: Seq<char>, failure: u16) -> u16 {
    if occurs_in(body, ok_mark()) {
        200
    } else {
        failure
    }
}

/// Tells the status code of a reply body.
pub fn reply_status(body: &str, failure: u16) -> (status: u16)
    ensures
        status == status_of(body@, failure),
{
    if contains_text(body, "\"ok\":true") {
        200
    } else {
        failure
    }
}

proof fn lemma_mark_chars()
    ensures
        ok_mark().len() == 9,
        ok_mark()[0] == '"',
        ok_mark()[1] == 'o',
        ok_mark()[5] == 't',
        ok_mark()[8] == 'e',
{
    reveal_strlit("\"ok\":true");
}

/// A message without double quotes in front of an error keeps the error free of the text
/// of a truthful `ok` member.
pub proof fn lemma_labelled_unmarked(label: Seq<char>, error: Seq<char>)
    requires
        !label.contains('"'),
        !occurs_in(error, ok_mark()),
    ensures
        !occurs_in(label + error, ok_mark()),
{
    lemma_mark_chars();
    let whole = label + error;
    assert forall|at: int| !occurs_at(whole, ok_mark(), at) by {
        if occurs_at(whole, ok_mark(), at) {
            let part = whole.subrange(at, at + ok_mark().len());
            assert(part[0] == whole[at]);
            if at < label.len() {
                assert(label[at] == '"');
            } else {
                assert(error.subrange(at - label.len(), at - label.len() + ok_mark().len())
                    == part);
                assert(occurs_at(error, ok_mark(), at - label.len()));
            }
        }
    }
}

/// A failure with a message that has nothing of a truthful `ok` member in it stands for
/// its failure code.
pub proof fn law_failure_status(message: Seq<char>, failure: u16)
    requires
        !occurs_in(message, ok_mark()),
        message.len() > 0 && message[0] != 'o',
    ensures
        status_of(failure_text(message), failure) == failure,
{
    lemma_mark_chars();
    reveal_strlit("{\"ok\":false,\"error\":\"");
    reveal_strlit("\"}");
    let head = "{\"ok\":false,\"error\":\""@;
    let tail = "\"}"@;
    let whole = failure_text(message);
    assert(head.len() == 21);
    assert forall|at: int| !occurs_at(whole, ok_mark(), at) by {
        if occurs_at(whole, ok_mark(), at) {
            let part = whole.subrange(at, at + 9);
            assert(part[0] == whole[at]);
            assert(part[1] == whole[at + 1]);
            assert(part[5] == whole[at + 5]);
            assert(part[8] == whole[at + 8]);
            if at < head.len() {
                assert(whole[at] == head[at]);
                if at + 1 < head.len() {
                    assert(whole[at + 1] == head[at + 1]);
                }
                if at + 5 < head.len() {
                    assert(whole[at + 5] == head[at + 5]);
                }
            } else if at + 9 <= head.len() + message.len() {
                assert(message.subrange(at - head.len(), at - head.len() + 9) == part);
                assert(occurs_at(message, ok_mark(), at - head.len()));
            } else {
                assert(whole[at + 8] == tail[at + 8 - head.len() - message.len()]);
            }
        }
    }
}

/// What is said of a body that is no JSON stands for a failure, where the error has nothing
/// of a truthful `ok` member in it.
pub proof fn lemma_invalid_json_status(error: Seq<char>, failure: u16)
    requires
        !occurs_in(error, ok_mark()),
    ensures
        status_of(failure_text("Invalid JSON: "@ + error), failure) == failure,
{
    reveal_strlit("Invalid JSON: ");
    assert(!"Invalid JSON: "@.contains('"'));
    lemma_labelled_unmarked("Invalid JSON: "@, error);
    assert(("Invalid JSON: "@ + error)[0] == 'I');
    law_failure_status("Invalid JSON: "@ + error, failure);
}

/// A plain success stands for the code of success.
pub proof fn law_ok_status(failure: u16)
    ensures
        status_of(ok_text(), failure) == 200,
{
    reveal_strlit("{\"ok\":true}");
    reveal_strlit("\"ok\":true");
    assert(ok_text().subrange(1, (1 + ok_mark().len()) as int) == ok_mark());
    assert(occurs_at(ok_text(), ok_mark(), 1));
}

} // verus!
