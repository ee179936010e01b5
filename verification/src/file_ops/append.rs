//! The append tool: extends a text file, guaranteeing the appended content
//! starts on a line of its own.

use vstd::prelude::*;
use crate::text::chars_of_str;
use crate::text::push_chars;
use crate::text::string_of_chars;

verus! {

/// Arguments of one append: a project-relative path and the text to add.
pub struct AppendParams {
    pub path: String,
    pub content: String,
}

/// The file's full text after an append: when the old text is non-empty and
/// does not end with a newline, one is inserted first.
pub open spec fn spec_appended(old: Seq<char>, add: Seq<char>) -> Seq<char> {
    if old.len() > 0 && old.last() != '\n' {
        old + seq!['\n'] + add
    } else {
        old + add
    }
}

/// Law: appended content always starts on its own line — the result is the
/// old text, a newline wherever one was missing, then the new text.
pub fn appended_content(existing: &str, content: &str) -> (r: String)
    ensures
        r@ == spec_appended(existing@, content@),
{
    let old_chars = chars_of_str(existing);
    let add_chars = chars_of_str(content);
    let mut out: Vec<char> = Vec::new();
    push_chars(&mut out, &old_chars);
    if old_chars.len() > 0 && old_chars[old_chars.len() - 1] != '\n' {
        out.push('\n');
    }
    push_chars(&mut out, &add_chars);
    assert(out@ =~= spec_appended(existing@, content@));
    string_of_chars(&out)
}

} // verus!
