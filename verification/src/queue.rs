//! Reading what the work queue answers to a pop.
use vstd::prelude::*;
use crate::json::{json_str_at, json_string_at};
use crate::text::{contains_seq, is_blank, str_contains, str_is_blank};

verus! {

/// Where the answer to a tool call keeps its text.
pub open spec fn reply_text_pointer() -> Seq<char> {
    "/result/content/0/text"@
}

/// The item that a pop's answer text `content` hands out: none when the text
/// mentions `empty` or is blank; else its `payload` string when the text is
/// JSON that has one, else the text itself.
pub open spec fn item_of_text(content: Seq<char>) -> Option<Seq<char>> {
    if contains_seq(content, "empty"@) || is_blank(content) {
        None
    } else {
        match json_string_at(content, "/payload"@) {
            Some(payload) => Some(payload),
            None => Some(content),
        }
    }
}

/// The item that the answer `body` to a pop hands out: none when the answer
/// carries no text, else what its text hands out.
pub open spec fn popped_item(body: Seq<char>) -> Option<Seq<char>> {
    match json_string_at(body, reply_text_pointer()) {
        None => None,
        Some(content) => item_of_text(content),
    }
}

/// The item that the text `content` of a pop's answer hands out.
pub fn item_from_text(content: String) -> (r: Option<String>)
    ensures
        crate::json::opt_chars(r) == item_of_text(content@),
{
    if str_contains(content.as_str(), "empty") || str_is_blank(content.as_str()) {
        None
    } else {
        match json_str_at(content.as_str(), "/payload") {
            Some(payload) => Some(payload),
            None => Some(content),
        }
    }
}

/// The item that the answer `body` to a pop from the queue hands out.
pub fn popped_item_of(body: &str) -> (r: Option<String>)
    ensures
        crate::json::opt_chars(r) == popped_item(body@),
{
    match json_str_at(body, "/result/content/0/text") {
        None => None,
        Some(content) => item_from_text(content),
    }
}

} // verus!
