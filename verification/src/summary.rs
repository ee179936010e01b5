//! Chapter summaries: an append-only store of one summary per continuation,
//! persisted as a single JSON file under the project root.

use vstd::prelude::*;
use crate::text::chars_of_str;
use crate::text::trim_chars;
use crate::text::spec_trim;
use crate::text::str_eq_str;

verus! {

/// One stored summary.
pub struct SummaryEntry {
    pub chapter_id: String,
    pub summary: String,
    pub created_at: u64,
}

/// The summaries file's place under the project root.
pub fn summaries_path(project_root: &str) -> (r: Result<String, String>)
    ensures
        r is Ok ==> !crate::security::spec_is_absolute("summaries.json"@)
            && !crate::security::spec_has_dotdot("summaries.json"@),
{
    crate::security::validate_path(project_root, "summaries.json")
}

/// Appends one summary: the identifier and the text must not be blank; the
/// new entry carries the given creation time and lands at the end, with
/// every earlier entry untouched.
pub fn append_summary(
    summaries: &mut Vec<SummaryEntry>,
    chapter_id: String,
    summary: String,
    now: u64,
) -> (r: Result<SummaryEntry, String>)
    ensures
        spec_trim(chapter_id@).len() == 0 ==> (r matches Err(e) && e@ == "chapterId is empty"@
            && final(summaries)@ == old(summaries)@),
        spec_trim(chapter_id@).len() > 0 && spec_trim(summary@).len() == 0 ==> (r matches Err(e)
            && e@ == "summary is empty"@ && final(summaries)@ == old(summaries)@),
        spec_trim(chapter_id@).len() > 0 && spec_trim(summary@).len() > 0 ==> (r matches Ok(entry)
            && entry.chapter_id@ == chapter_id@ && entry.summary@ == summary@ && entry.created_at
            == now && final(summaries)@.len() == old(summaries)@.len() + 1
            && final(summaries)@.last().chapter_id@ == chapter_id@
            && final(summaries)@.last().summary@ == summary@
            && final(summaries)@.last().created_at == now
            && final(summaries)@.subrange(0, old(summaries)@.len() as int) == old(summaries)@),
{
    let id_chars = chars_of_str(chapter_id.as_str());
    let id_trim = trim_chars(&id_chars);
    if id_trim.len() == 0 {
        return Err("chapterId is empty".to_owned());
    }
    let s_chars = chars_of_str(summary.as_str());
    let s_trim = trim_chars(&s_chars);
    if s_trim.len() == 0 {
        return Err("summary is empty".to_owned());
    }
    let entry = SummaryEntry {
        chapter_id: chapter_id.clone(),
        summary: summary.clone(),
        created_at: now,
    };
    summaries.push(entry);
    assert(summaries@.subrange(0, old(summaries)@.len() as int) =~= old(summaries)@);
    Ok(SummaryEntry { chapter_id, summary, created_at: now })
}

/// The latest summary of one chapter: among the entries with this
/// identifier, the last one with the greatest creation time.
pub fn latest_summary(summaries: &Vec<SummaryEntry>, chapter_id: &str) -> (r: Option<
    SummaryEntry,
>)
    ensures
        r is None <==> (forall|i: int|
            0 <= i < summaries@.len() ==> (#[trigger] summaries@[i]).chapter_id@ != chapter_id@),
        r matches Some(e) ==> e.chapter_id@ == chapter_id@ && (forall|i: int|
            0 <= i < summaries@.len() && (#[trigger] summaries@[i]).chapter_id@ == chapter_id@
                ==> e.created_at >= summaries@[i].created_at),
{
    let mut best: Option<SummaryEntry> = None;
    let mut i: usize = 0;
    while i < summaries.len()
        invariant
            i <= summaries@.len(),
            best is None <==> (forall|j: int|
                0 <= j < i ==> (#[trigger] summaries@[j]).chapter_id@ != chapter_id@),
            best matches Some(e) ==> e.chapter_id@ == chapter_id@ && (forall|j: int|
                0 <= j < i && (#[trigger] summaries@[j]).chapter_id@ == chapter_id@
                    ==> e.created_at >= summaries@[j].created_at),
        decreases summaries@.len() - i,
    {
        let entry = &summaries[i];
        if str_eq_str(entry.chapter_id.as_str(), chapter_id) {
            let replace = match &best {
                Some(b) => entry.created_at >= b.created_at,
                None => true,
            };
            if replace {
                best = Some(
                    SummaryEntry {
                        chapter_id: entry.chapter_id.clone(),
                        summary: entry.summary.clone(),
                        created_at: entry.created_at,
                    },
                );
            }
        }
        i = i + 1;
    }
    best
}

} // verus!

verus! {

use crate::jsonval::JsonValue;
use crate::jsonval::Json;
use crate::jsonval::spec_json;
use crate::jsonval::json_num_u64;
use crate::jsonval::json_to_string;
use crate::jsonval::view_json_obj;
use crate::jsonval::lemma_view_json_obj_len;
use crate::jsonval::lemma_view_json_obj_index;
use crate::text::spec_decimal;

/// One stored summary as the save-summary tool reports it.
pub open spec fn spec_summary_entry_json(e: SummaryEntry) -> Json {
    Json::Obj(
        seq![
            ("chapterId"@, Json::Str(e.chapter_id@)),
            ("summary"@, Json::Str(e.summary@)),
            ("createdAt"@, Json::Num(spec_decimal(e.created_at as nat))),
        ],
    )
}

/// Serializes one stored summary for the tool-result payload.
pub fn summary_entry_json(e: &SummaryEntry) -> (out: String)
    ensures
        out@ == spec_json(spec_summary_entry_json(*e)),
{
    let mut entries: Vec<(String, JsonValue)> = Vec::new();
    entries.push(("chapterId".to_owned(), JsonValue::Str(e.chapter_id.clone())));
    entries.push(("summary".to_owned(), JsonValue::Str(e.summary.clone())));
    entries.push(("createdAt".to_owned(), json_num_u64(e.created_at)));
    proof {
        lemma_view_json_obj_len(entries@);
        lemma_view_json_obj_index(entries@, 0);
        lemma_view_json_obj_index(entries@, 1);
        lemma_view_json_obj_index(entries@, 2);
        assert(view_json_obj(entries@) =~= spec_summary_entry_json(*e)->Obj_0);
    }
    let obj = JsonValue::Obj(entries);
    json_to_string(&obj)
}

} // verus!
