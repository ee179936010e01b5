//! Importing a manuscript from a plain-text file: the text is cut into
//! chapters at heading lines, recognized by a configurable pattern.
//!
//! Reading the file and creating the chapters afterwards is the caller's
//! part; the cutting itself is decided here, with the pattern matching done
//! by the regex engine behind trusted contracts.

use vstd::prelude::*;
use crate::text::chars_of_str;
use crate::text::trim_chars;
use crate::text::spec_trim;
use crate::text::spec_count_words;
use crate::text::count_words;
use crate::text::string_of_chars;
use crate::text::push_chars;
use crate::file_ops::read::split_lines;

verus! {

/// One chapter found in a preview, before anything is created.
pub struct ChapterPreview {
    pub title: String,
    pub word_count: u32,
}

/// Progress of one running import, as reported to observers.
pub struct ImportTxtProgress {
    pub request_id: String,
    pub total: u32,
    pub completed: u32,
    pub current_title: Option<String>,
}

/// One chapter cut out of the imported text.
pub struct ChapterData {
    pub title: String,
    pub content: String,
    pub word_count: u32,
}

/// The pattern used when the caller gives none.
pub open spec fn spec_default_pattern() -> Seq<char> {
    "^第.+章.*"@
}

/// The pattern an import runs with: the given one, or the default for a
/// blank one.
pub open spec fn spec_effective_pattern(p: Seq<char>) -> Seq<char> {
    if spec_trim(p).len() == 0 {
        spec_default_pattern()
    } else {
        p
    }
}

/// Whether the regex engine accepts this pattern; the result depends on the
/// pattern alone.
pub uninterp spec fn regex_valid(pattern: Seq<char>) -> bool;

/// The first match the pattern finds in one line, and the line's text after
/// the match; the result depends on the pattern and the line alone.
pub uninterp spec fn regex_line_split(pattern: Seq<char>, line: Seq<char>) -> Option<
    (Seq<char>, Seq<char>),
>;

/// Relies on regex::RegexBuilder::build: whether the pattern compiles is a
/// function of the pattern; the error text comes from the regex engine.
#[verifier::external_body]
fn compile_check(pattern: &str) -> (r: Result<(), String>)
    ensures
        r is Ok <==> regex_valid(pattern@),
{
    match regex::RegexBuilder::new(pattern).multi_line(true).build() {
        Ok(_) => Ok(()),
        Err(e) => Err(format!("Invalid regex pattern: {e}")),
    }
}

/// Relies on regex::Regex::find: the leftmost match is a function of the
/// pattern and the text searched; the pair carries the matched text and
/// what follows it on the line.
#[verifier::external_body]
fn find_split(pattern: &str, line: &str) -> (r: Option<(String, String)>)
    requires
        regex_valid(pattern@),
    ensures
        match r {
            Some(pair) => regex_line_split(pattern@, line@) == Some((pair.0@, pair.1@)),
            None => regex_line_split(pattern@, line@) is None,
        },
{
    match regex::RegexBuilder::new(pattern).multi_line(true).build() {
        Ok(re) => re.find(line).map(
            |m| (m.as_str().to_string(), line[m.end()..].to_string()),
        ),
        Err(_) => None,
    }
}

/// Strips a leading byte-order mark from imported text.
pub open spec fn spec_without_bom(s: Seq<char>) -> Seq<char>
    decreases s.len(),
{
    if s.len() > 0 && s.first() == '\u{feff}' {
        spec_without_bom(s.drop_first())
    } else {
        s
    }
}

/// Removes any leading byte-order marks from imported text.
pub fn normalize_content(content: String) -> (r: String)
    ensures
        r@ == spec_without_bom(content@),
{
    let chars = chars_of_str(content.as_str());
    let mut start: usize = 0;
    assert(chars@.skip(0) =~= chars@);
    while start < chars.len()
        invariant_except_break
            start <= chars@.len(),
            spec_without_bom(content@) == spec_without_bom(chars@.skip(start as int)),
            chars@ == content@,
        ensures
            start <= chars@.len(),
            chars@ == content@,
            spec_without_bom(content@) == spec_without_bom(chars@.skip(start as int)),
            start < chars@.len() ==> chars@[start as int] != '\u{feff}',
        decreases chars@.len() - start,
    {
        if chars[start] == '\u{feff}' {
            assert(chars@.skip(start as int).drop_first() =~= chars@.skip(start + 1 as int));
            start = start + 1;
        } else {
            break;
        }
    }
    let rest = crate::text::subrange_chars(&chars, start, chars.len());
    assert(rest@ =~= chars@.skip(start as int));
    assert(spec_without_bom(rest@) == rest@);
    string_of_chars(&rest)
}

/// Cuts a text into chapters at the lines the pattern matches. A blank
/// pattern falls back to the default heading pattern; an invalid pattern is
/// refused. Text before the first heading is dropped; each chapter's title
/// is the trimmed matched text, its content the trimmed text from behind
/// the match to the next heading, its word count the content's
/// non-whitespace characters.
pub fn parse_chapters_from_text(content: &str, pattern: &str) -> (r: Result<
    Vec<ChapterData>,
    String,
>)
    ensures
        r is Ok <==> regex_valid(spec_effective_pattern(pattern@)),
        r matches Ok(chapters) ==> forall|i: int|
            0 <= i < chapters@.len() ==> {
                &&& spec_trim((#[trigger] chapters@[i]).title@) == chapters@[i].title@
                &&& spec_trim(chapters@[i].content@) == chapters@[i].content@
                &&& (spec_count_words(chapters@[i].content@) <= u32::MAX
                    ==> chapters@[i].word_count == spec_count_words(chapters@[i].content@))
            },
{
    let pattern_chars = chars_of_str(pattern);
    let trimmed_pattern = trim_chars(&pattern_chars);
    let effective: String = if trimmed_pattern.len() == 0 {
        "^第.+章.*".to_owned()
    } else {
        pattern.to_owned()
    };
    assert(effective@ == spec_effective_pattern(pattern@));
    if let Err(e) = compile_check(effective.as_str()) {
        return Err(e);
    }
    let content_chars = chars_of_str(content);
    let lines = split_lines(&content_chars);
    let mut chapters: Vec<ChapterData> = Vec::new();
    let mut open_title: Option<String> = None;
    let mut open_text: Vec<char> = Vec::new();
    let mut i: usize = 0;
    while i < lines.len()
        invariant
            i <= lines@.len(),
            regex_valid(effective@),
            open_title matches Some(t) ==> spec_trim(t@) == t@,
            forall|j: int|
                0 <= j < chapters@.len() ==> {
                    &&& spec_trim((#[trigger] chapters@[j]).title@) == chapters@[j].title@
                    &&& spec_trim(chapters@[j].content@) == chapters@[j].content@
                    &&& (spec_count_words(chapters@[j].content@) <= u32::MAX
                        ==> chapters@[j].word_count == spec_count_words(chapters@[j].content@))
                },
        decreases lines@.len() - i,
    {
        let line = string_of_chars(&lines[i]);
        match find_split(effective.as_str(), line.as_str()) {
            Some(pair) => {
                match open_title {
                    Some(title) => {
                        let trimmed = trim_chars(&open_text);
                        let body = string_of_chars(&trimmed);
                        let wc = count_words(body.as_str());
                        chapters.push(ChapterData { title, content: body, word_count: wc });
                    },
                    None => {},
                }
                let title_chars = chars_of_str(pair.0.as_str());
                let title_trimmed = trim_chars(&title_chars);
                open_title = Some(string_of_chars(&title_trimmed));
                open_text = chars_of_str(pair.1.as_str());
            },
            None => {
                match &open_title {
                    Some(_) => {
                        open_text.push('\n');
                        let line_chars = chars_of_str(line.as_str());
                        push_chars(&mut open_text, &line_chars);
                    },
                    None => {},
                }
            },
        }
        i = i + 1;
    }
    match open_title {
        Some(title) => {
            let trimmed = trim_chars(&open_text);
            let body = string_of_chars(&trimmed);
            let wc = count_words(body.as_str());
            chapters.push(ChapterData { title, content: body, word_count: wc });
        },
        None => {},
    }
    Ok(chapters)
}

} // verus!
