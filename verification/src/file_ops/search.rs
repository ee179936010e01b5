//! The search tool: substring matches across project files, reported with
//! the file's project-relative path and one-based line numbers, capped at a
//! fixed number of matches in traversal order.
//!
//! Walking directories and reading files is the caller's part; which lines
//! of one file match, and how many may still be taken, is decided here.

use vstd::prelude::*;
use crate::text::str_eq_str;
use crate::text::spec_contains;
use crate::text::contains_chars;
use crate::text::chars_of_str;
use crate::text::string_of_chars;
use crate::file_ops::read::spec_lines;
use crate::file_ops::read::split_lines;

verus! {

/// The largest number of matches one search reports.
pub const MAX_MATCHES: usize = 50;

/// Arguments of one search: the substring sought, and the directory to
/// search from (the project root when absent).
pub struct SearchParams {
    pub query: String,
    pub path: Option<String>,
}

/// One match: the file, the one-based line number, and the matching line.
pub struct SearchMatch {
    pub file: String,
    pub line: u32,
    pub content: String,
}

/// The outcome of one search.
pub struct SearchResult {
    pub matches: Vec<SearchMatch>,
}

/// The noise directories a search walk never enters.
pub open spec fn spec_is_ignored_dir_name(name: Seq<char>) -> bool {
    name == "node_modules"@ || name == "target"@ || name == ".git"@
}

/// Whether a search walk skips this directory.
pub fn is_ignored_dir_name(name: &str) -> (r: bool)
    ensures
        r == spec_is_ignored_dir_name(name@),
{
    str_eq_str(name, "node_modules") || str_eq_str(name, "target") || str_eq_str(name, ".git")
}

/// A line as a match reports it: trailing carriage returns dropped.
pub open spec fn spec_strip_crs(s: Seq<char>) -> Seq<char>
    decreases s.len(),
{
    if s.len() > 0 && s.last() == '\r' {
        spec_strip_crs(s.drop_last())
    } else {
        s
    }
}

/// A line number one higher, held at the largest representable value.
pub open spec fn spec_sat_inc(n: u32) -> u32 {
    if n < u32::MAX {
        (n + 1) as u32
    } else {
        n
    }
}

/// The matches of a file's lines: each line holding the query, numbered
/// from `number` upward, at most `budget` of them.
pub open spec fn spec_line_matches(
    lines: Seq<Seq<char>>,
    query: Seq<char>,
    number: u32,
    budget: nat,
) -> Seq<(u32, Seq<char>)>
    decreases lines.len(),
{
    if lines.len() == 0 || budget == 0 {
        Seq::empty()
    } else if spec_contains(lines.first(), query) {
        seq![(spec_sat_inc(number), spec_strip_crs(lines.first()))] + spec_line_matches(
            lines.drop_first(),
            query,
            spec_sat_inc(number),
            (budget - 1) as nat,
        )
    } else {
        spec_line_matches(lines.drop_first(), query, spec_sat_inc(number), budget)
    }
}

/// Finds the matches of `query` in one file's text: every line holding the
/// query, in order, numbered one-based, taking at most `budget` matches.
pub fn match_lines(file_rel: &str, content: &str, query: &str, budget: usize) -> (r: Vec<
    SearchMatch,
>)
    ensures
        ({
            let expect = spec_line_matches(spec_lines(content@), query@, 0, budget as nat);
            &&& r@.len() == expect.len()
            &&& forall|i: int|
                0 <= i < r@.len() ==> (#[trigger] r@[i]).file@ == file_rel@ && r@[i].line
                    == expect[i].0 && r@[i].content@ == expect[i].1
        }),
{
    let chars = chars_of_str(content);
    let lines = split_lines(&chars);
    let ghost lview = lines.deep_view();
    let query_chars = chars_of_str(query);
    let mut out: Vec<SearchMatch> = Vec::new();
    let mut number: u32 = 0;
    let mut left: usize = budget;
    let mut i: usize = 0;
    assert(lview.skip(0) =~= lview);
    while i < lines.len() && left > 0
        invariant
            i <= lview.len(),
            lview == lines.deep_view(),
            lview.len() == lines@.len(),
            left <= budget,
            query_chars@ == query@,
            spec_line_matches(lview, query@, 0, budget as nat) =~= out@.map_values(
                |m: SearchMatch| (m.line, m.content@),
            ) + spec_line_matches(lview.skip(i as int), query@, number, left as nat),
            forall|j: int|
                0 <= j < out@.len() ==> (#[trigger] out@[j]).file@ == file_rel@,
        decreases lview.len() - i,
    {
        let ghost rest = lview.skip(i as int);
        assert(rest.first() == lview[i as int]);
        assert(rest.drop_first() =~= lview.skip(i + 1 as int));
        let line = &lines[i];
        assert(line.deep_view() =~= line@);
        assert(line@ == lview[i as int]);
        number = if number < u32::MAX {
            number + 1
        } else {
            number
        };
        if contains_chars(line, &query_chars) {
            let mut end = line.len();
            assert(line@.subrange(0, line@.len() as int) =~= line@);
            while end > 0 && line[end - 1] == '\r'
                invariant
                    end <= line@.len(),
                    spec_strip_crs(line@) == spec_strip_crs(line@.subrange(0, end as int)),
                decreases end,
            {
                assert(line@.subrange(0, end as int).drop_last() =~= line@.subrange(
                    0,
                    end - 1 as int,
                ));
                end = end - 1;
            }
            let shown = crate::text::subrange_chars(line, 0, end);
            proof {
                assert(line@.subrange(0, line@.len() as int) =~= line@);
                assert(spec_strip_crs(line@.subrange(0, end as int)) == line@.subrange(
                    0,
                    end as int,
                ));
            }
            let m = SearchMatch {
                file: file_rel.to_owned(),
                line: number,
                content: string_of_chars(&shown),
            };
            let ghost old_out = out@;
            out.push(m);
            proof {
                assert(out@.map_values(|m: SearchMatch| (m.line, m.content@)) =~= old_out.map_values(
                    |m: SearchMatch| (m.line, m.content@),
                ).push((number, spec_strip_crs(lview[i as int]))));
            }
            left = left - 1;
        }
        i = i + 1;
    }
    proof {
        if i == lview.len() {
            assert(lview.skip(lview.len() as int) =~= Seq::<Seq<char>>::empty());
        }
        assert(spec_line_matches(lview.skip(i as int), query@, number, left as nat)
            =~= Seq::<(u32, Seq<char>)>::empty());
        assert(out@.map_values(|m: SearchMatch| (m.line, m.content@)) + Seq::<(
            u32,
            Seq<char>,
        )>::empty() =~= out@.map_values(|m: SearchMatch| (m.line, m.content@)));
        assert(spec_lines(content@) == lview);
    }
    out
}

} // verus!

verus! {

use crate::jsonval::JsonValue;
use crate::jsonval::Json;
use crate::jsonval::spec_json;
use crate::jsonval::json_num_u64;
use crate::jsonval::json_to_string;
use crate::jsonval::view_json_obj;
use crate::jsonval::view_json_list;
use crate::jsonval::lemma_view_json_obj_len;
use crate::jsonval::lemma_view_json_obj_index;
use crate::text::spec_decimal;

/// One match as the engine receives it.
pub open spec fn spec_match_json(m: SearchMatch) -> Json {
    Json::Obj(
        seq![
            ("file"@, Json::Str(m.file@)),
            ("line"@, Json::Num(spec_decimal(m.line as nat))),
            ("content"@, Json::Str(m.content@)),
        ],
    )
}

/// The search outcome as the engine receives it.
pub open spec fn spec_search_result_json(matches: Seq<SearchMatch>) -> Json {
    Json::Obj(
        seq![("matches"@, Json::Arr(matches.map_values(|m: SearchMatch| spec_match_json(m))))],
    )
}

/// Serializes a search outcome for the tool-result payload.
pub fn search_result_json(r: &SearchResult) -> (out: String)
    ensures
        out@ == spec_json(spec_search_result_json(r.matches@)),
{
    let mut items: Vec<JsonValue> = Vec::new();
    let mut i: usize = 0;
    while i < r.matches.len()
        invariant
            i <= r.matches@.len(),
            items@.len() == i,
            view_json_list(items@) =~= r.matches@.subrange(0, i as int).map_values(
                |m: SearchMatch| spec_match_json(m),
            ),
        decreases r.matches@.len() - i,
    {
        let m = &r.matches[i];
        let mut entries: Vec<(String, JsonValue)> = Vec::new();
        entries.push(("file".to_owned(), JsonValue::Str(m.file.clone())));
        entries.push(("line".to_owned(), json_num_u64(m.line as u64)));
        entries.push(("content".to_owned(), JsonValue::Str(m.content.clone())));
        proof {
            lemma_view_json_obj_len(entries@);
            lemma_view_json_obj_index(entries@, 0);
            lemma_view_json_obj_index(entries@, 1);
            lemma_view_json_obj_index(entries@, 2);
            assert(view_json_obj(entries@) =~= spec_match_json(*m)->Obj_0);
        }
        let ghost before = items@;
        items.push(JsonValue::Obj(entries));
        proof {
            assert(items@.drop_last() =~= before);
            assert(items@.last()@ == spec_match_json(r.matches@[i as int]));
            assert(view_json_list(items@) =~= r.matches@.subrange(0, i + 1 as int).map_values(
                |m: SearchMatch| spec_match_json(m),
            ));
        }
        i = i + 1;
    }
    assert(r.matches@.subrange(0, r.matches@.len() as int) =~= r.matches@);
    let mut top: Vec<(String, JsonValue)> = Vec::new();
    top.push(("matches".to_owned(), JsonValue::Arr(items)));
    proof {
        lemma_view_json_obj_len(top@);
        lemma_view_json_obj_index(top@, 0);
        assert(view_json_obj(top@) =~= spec_search_result_json(r.matches@)->Obj_0);
    }
    let obj = JsonValue::Obj(top);
    json_to_string(&obj)
}

} // verus!
