//! The chapter index: metadata records for every chapter file, and the
//! transforms that keep the index consistent when chapters are created,
//! renamed, reordered, deleted, or appended to.
//!
//! Reading and writing `chapters/index.json` itself is the caller's part;
//! every transform here is a pure function from one index to the next.

use vstd::prelude::*;
use vstd::multiset::Multiset;
use crate::text::chars_of_str;
use crate::text::spec_all_digits;
use crate::text::all_digits;
use crate::text::str_eq_str;
use crate::text::push_str_chars;
use crate::text::string_of_chars;
use crate::text::spec_zero_padded;
use crate::text::zero_padded_decimal;
use crate::text::push_chars;

verus! {

/// One chapter's record in the index.
pub struct ChapterMeta {
    /// The canonical identifier, `chapter_` followed by digits.
    pub id: String,
    pub title: String,
    /// The one-based position among the chapters.
    pub order: u32,
    pub created: u64,
    pub updated: u64,
    /// The count of non-whitespace characters of the chapter text.
    pub word_count: u32,
}

/// The chapter index: every chapter's record, and the number the next
/// created chapter takes.
pub struct ChapterIndex {
    pub chapters: Vec<ChapterMeta>,
    pub next_id: u32,
}

/// A valid chapter identifier: `chapter_` followed by at least one digit.
pub open spec fn spec_valid_chapter_id(s: Seq<char>) -> bool {
    &&& s.len() > "chapter_"@.len()
    &&& s.subrange(0, "chapter_"@.len() as int) == "chapter_"@
    &&& spec_all_digits(s.skip("chapter_"@.len() as int))
}

/// Checks a chapter identifier's canonical form.
pub fn validate_chapter_id(chapter_id: &str) -> (r: Result<(), String>)
    ensures
        r is Ok <==> spec_valid_chapter_id(chapter_id@),
{
    proof {
        reveal_strlit("chapter_");
    }
    let chars = chars_of_str(chapter_id);
    if !crate::text::starts_with_str(&chars, "chapter_") {
        return Err("Invalid chapter_id (expected 'chapter_XXX')".to_owned());
    }
    let suffix = crate::text::subrange_chars(&chars, 8, chars.len());
    assert(suffix@ =~= chapter_id@.skip("chapter_"@.len() as int));
    if suffix.len() == 0 || !all_digits(&suffix) {
        return Err("Invalid chapter_id (expected digits after 'chapter_')".to_owned());
    }
    Ok(())
}

/// The text file a chapter lives in, relative to the project root.
pub fn chapter_txt_relative_path(chapter_id: &str) -> (r: String)
    ensures
        r@ == "chapters/"@ + chapter_id@ + ".txt"@,
{
    let mut out: Vec<char> = Vec::new();
    push_str_chars(&mut out, "chapters/");
    push_str_chars(&mut out, chapter_id);
    push_str_chars(&mut out, ".txt");
    assert(out@ =~= "chapters/"@ + chapter_id@ + ".txt"@);
    string_of_chars(&out)
}

/// The canonical identifier for chapter number `n`: zero-padded to three
/// digits.
pub fn format_chapter_id(n: u32) -> (r: String)
    ensures
        r@ == "chapter_"@ + spec_zero_padded(n as nat, 3),
{
    let mut out: Vec<char> = Vec::new();
    push_str_chars(&mut out, "chapter_");
    let digits = zero_padded_decimal(n as u64, 3);
    push_chars(&mut out, &digits);
    assert(out@ =~= "chapter_"@ + spec_zero_padded(n as nat, 3));
    string_of_chars(&out)
}

/// Law: appending to a chapter file refreshes exactly that chapter's word
/// count and update time in the index — every other record, and the next
/// chapter number, stay untouched. Returns whether a record was found.
pub fn update_word_count_and_timestamp(
    index: &mut ChapterIndex,
    chapter_id: &str,
    word_count: u32,
    now: u64,
) -> (found: bool)
    ensures
        final(index).next_id == old(index).next_id,
        final(index).chapters@.len() == old(index).chapters@.len(),
        found <==> (exists|i: int|
            0 <= i < old(index).chapters@.len() && old(index).chapters@[i].id@ == chapter_id@),
        forall|i: int|
            0 <= i < old(index).chapters@.len() && old(index).chapters@[i].id@ != chapter_id@
                ==> final(index).chapters@[i] == old(index).chapters@[i],
        forall|i: int|
            #![trigger final(index).chapters@[i]]
            0 <= i < old(index).chapters@.len() ==> {
                &&& final(index).chapters@[i].id == old(index).chapters@[i].id
                &&& final(index).chapters@[i].title == old(index).chapters@[i].title
                &&& final(index).chapters@[i].order == old(index).chapters@[i].order
                &&& final(index).chapters@[i].created == old(index).chapters@[i].created
            },
        found ==> exists|i: int|
            0 <= i < old(index).chapters@.len() && old(index).chapters@[i].id@ == chapter_id@
                && #[trigger] final(index).chapters@[i].word_count == word_count
                && final(index).chapters@[i].updated == now,
{
    let n = index.chapters.len();
    let mut i: usize = 0;
    while i < n
        invariant
            i <= n,
            n == index.chapters@.len(),
            index.chapters@.len() == old(index).chapters@.len(),
            index.next_id == old(index).next_id,
            forall|j: int| 0 <= j < n ==> index.chapters@[j] == old(index).chapters@[j],
            forall|j: int| 0 <= j < i ==> old(index).chapters@[j].id@ != chapter_id@,
        decreases n - i,
    {
        if str_eq_str(index.chapters[i].id.as_str(), chapter_id) {
            let old_meta = &index.chapters[i];
            let updated_meta = ChapterMeta {
                id: old_meta.id.clone(),
                title: old_meta.title.clone(),
                order: old_meta.order,
                created: old_meta.created,
                updated: now,
                word_count,
            };
            assert(updated_meta.id@ == old(index).chapters@[i as int].id@);
            assert(old(index).chapters@[i as int].id@ == chapter_id@);
            index.chapters.set(i, updated_meta);
            assert(index.chapters@.len() == n);
            assert(index.chapters@[i as int].word_count == word_count);
            assert(index.chapters@[i as int].updated == now);
            assert(forall|j: int|
                0 <= j < n && j != i ==> index.chapters@[j] == old(index).chapters@[j]);
            return true;
        }
        i = i + 1;
    }
    false
}

/// The order the next created chapter takes: one past the largest, held at
/// the largest representable value.
pub fn next_order(chapters: &Vec<ChapterMeta>) -> (r: u32)
    ensures
        chapters@.len() == 0 ==> r == 1,
        forall|i: int| 0 <= i < chapters@.len() ==> r > chapters@[i].order || r == u32::MAX,
{
    let mut max: u32 = 0;
    let mut i: usize = 0;
    while i < chapters.len()
        invariant
            i <= chapters@.len(),
            i == 0 ==> max == 0,
            forall|j: int| 0 <= j < i ==> max >= chapters@[j].order,
        decreases chapters@.len() - i,
    {
        if chapters[i].order > max {
            max = chapters[i].order;
        }
        i = i + 1;
    }
    if max < u32::MAX {
        max + 1
    } else {
        u32::MAX
    }
}

/// Whether any record carries this identifier.
pub fn index_has_chapter(chapters: &Vec<ChapterMeta>, chapter_id: &str) -> (r: bool)
    ensures
        r <==> (exists|i: int| 0 <= i < chapters@.len() && chapters@[i].id@ == chapter_id@),
{
    let mut i: usize = 0;
    while i < chapters.len()
        invariant
            i <= chapters@.len(),
            forall|j: int| 0 <= j < i ==> chapters@[j].id@ != chapter_id@,
        decreases chapters@.len() - i,
    {
        if str_eq_str(chapters[i].id.as_str(), chapter_id) {
            return true;
        }
        i = i + 1;
    }
    false
}

/// Chapters in reading order.
pub open spec fn spec_sorted_by_order(s: Seq<ChapterMeta>) -> bool {
    forall|i: int, j: int| 0 <= i < j < s.len() ==> s[i].order <= s[j].order
}

/// Sorts chapter records by their order field.
pub fn sort_chapters_by_order(v: Vec<ChapterMeta>) -> (r: Vec<ChapterMeta>)
    ensures
        r@.to_multiset() == v@.to_multiset(),
        spec_sorted_by_order(r@),
{
    broadcast use vstd::seq_lib::group_to_multiset_ensures;

    let mut src = v;
    let mut out: Vec<ChapterMeta> = Vec::new();
    while src.len() > 0
        invariant
            out@.to_multiset().add(src@.to_multiset()) == v@.to_multiset(),
            spec_sorted_by_order(out@),
            forall|i: int, j: int|
                0 <= i < out@.len() && 0 <= j < src@.len() ==> out@[i].order <= src@[j].order,
        decreases src@.len(),
    {
        let mut best: usize = 0;
        let mut k: usize = 1;
        while k < src.len()
            invariant
                best < k <= src@.len(),
                src@.len() > 0,
                forall|j: int| 0 <= j < k ==> src@[best as int].order <= src@[j].order,
            decreases src@.len() - k,
        {
            if src[k].order < src[best].order {
                best = k;
            }
            k = k + 1;
        }
        let ghost old_src = src@;
        let ghost old_out = out@;
        let item = src.remove(best);
        out.push(item);
        proof {
            old_src.to_multiset_ensures();
            old_out.to_multiset_ensures();
            assert(src@ == old_src.remove(best as int));
            assert(src@.to_multiset() =~= old_src.to_multiset().remove(old_src[best as int]));
            assert(out@.to_multiset() =~= old_out.to_multiset().insert(item));
            assert(out@.to_multiset().add(src@.to_multiset()) =~= v@.to_multiset());
        }
    }
    proof {
        src@.to_multiset_ensures();
        assert(src@.to_multiset() =~= Multiset::empty());
        assert(out@.to_multiset() =~= v@.to_multiset());
    }
    out
}

} // verus!

verus! {

use crate::jsonval::JsonValue;
use crate::jsonval::Json;
use crate::jsonval::spec_json;
use crate::jsonval::json_num_u64;
use crate::jsonval::json_to_string;
use crate::jsonval::view_json_obj;
use crate::jsonval::lemma_view_json_obj_len;
use crate::jsonval::lemma_view_json_obj_index;
use crate::text::spec_decimal;

/// The active chapter's record as the chapter-info tool reports it.
pub open spec fn spec_chapter_info_json(meta: ChapterMeta) -> Json {
    Json::Obj(
        seq![
            ("chapterId"@, Json::Str(meta.id@)),
            ("title"@, Json::Str(meta.title@)),
            ("path"@, Json::Str("chapters/"@ + meta.id@ + ".txt"@)),
            ("wordCount"@, Json::Num(spec_decimal(meta.word_count as nat))),
            ("updatedAt"@, Json::Num(spec_decimal(meta.updated as nat))),
        ],
    )
}

/// Serializes the chapter-info answer for the tool-result payload.
pub fn chapter_info_json(meta: &ChapterMeta) -> (out: String)
    ensures
        out@ == spec_json(spec_chapter_info_json(*meta)),
{
    let path = chapter_txt_relative_path(meta.id.as_str());
    let mut entries: Vec<(String, JsonValue)> = Vec::new();
    entries.push(("chapterId".to_owned(), JsonValue::Str(meta.id.clone())));
    entries.push(("title".to_owned(), JsonValue::Str(meta.title.clone())));
    entries.push(("path".to_owned(), JsonValue::Str(path)));
    entries.push(("wordCount".to_owned(), json_num_u64(meta.word_count as u64)));
    entries.push(("updatedAt".to_owned(), json_num_u64(meta.updated)));
    proof {
        lemma_view_json_obj_len(entries@);
        lemma_view_json_obj_index(entries@, 0);
        lemma_view_json_obj_index(entries@, 1);
        lemma_view_json_obj_index(entries@, 2);
        lemma_view_json_obj_index(entries@, 3);
        lemma_view_json_obj_index(entries@, 4);
        assert(view_json_obj(entries@) =~= spec_chapter_info_json(*meta)->Obj_0);
    }
    let obj = JsonValue::Obj(entries);
    json_to_string(&obj)
}

} // verus!

verus! {

/// Whether `m` carries a record's identity fields from `s`: the
/// identifier, title, creation time and word count of some record there.
pub open spec fn spec_meta_from(s: Seq<ChapterMeta>, m: ChapterMeta) -> bool {
    exists|j: int|
        0 <= j < s.len() && (#[trigger] s[j]).id@ == m.id@ && s[j].title@ == m.title@
            && s[j].created == m.created && s[j].word_count == m.word_count
}

/// Law: deleting a chapter removes every record with that identifier and
/// nothing else; the remaining records keep their identity fields and are
/// renumbered consecutively from one in reading order. Fails when no record
/// has the identifier.
pub fn delete_chapter_update(
    index: ChapterIndex,
    chapter_id: &str,
    now: u64,
) -> (r: Result<ChapterIndex, String>)
    ensures
        r is Err <==> !(exists|i: int|
            0 <= i < index.chapters@.len() && (#[trigger] index.chapters@[i]).id@ == chapter_id@),
        r matches Err(e) ==> e@ == "Chapter not found"@,
        r matches Ok(updated) ==> {
            &&& updated.next_id == index.next_id
            &&& forall|i: int|
                0 <= i < updated.chapters@.len() ==> (#[trigger] updated.chapters@[i]).id@
                    != chapter_id@
            &&& forall|i: int|
                0 <= i < updated.chapters@.len() && i + 1 <= u32::MAX ==> (
                #[trigger] updated.chapters@[i]).order == i + 1
            &&& forall|i: int|
                0 <= i < updated.chapters@.len() ==> spec_meta_from(
                    index.chapters@,
                    #[trigger] updated.chapters@[i],
                )
        },
{
    broadcast use vstd::seq_lib::group_to_multiset_ensures;

    let mut found = false;
    let mut kept: Vec<ChapterMeta> = Vec::new();
    let mut i: usize = 0;
    while i < index.chapters.len()
        invariant
            i <= index.chapters@.len(),
            found <==> (exists|j: int|
                0 <= j < i && (#[trigger] index.chapters@[j]).id@ == chapter_id@),
            forall|j: int|
                0 <= j < kept@.len() ==> (#[trigger] kept@[j]).id@ != chapter_id@
                    && spec_meta_from(index.chapters@, kept@[j]),
        decreases index.chapters@.len() - i,
    {
        let m = &index.chapters[i];
        if str_eq_str(m.id.as_str(), chapter_id) {
            found = true;
        } else {
            let copy = ChapterMeta {
                id: m.id.clone(),
                title: m.title.clone(),
                order: m.order,
                created: m.created,
                updated: m.updated,
                word_count: m.word_count,
            };
            assert(spec_meta_from(index.chapters@, copy)) by {
                assert(index.chapters@[i as int].id@ == copy.id@);
            }
            kept.push(copy);
        }
        i = i + 1;
    }
    if !found {
        return Err("Chapter not found".to_owned());
    }
    let ghost kept_view = kept@;
    let sorted = sort_chapters_by_order(kept);
    proof {
        assert forall|i: int| 0 <= i < sorted@.len() implies (#[trigger] sorted@[i]).id@
            != chapter_id@ && spec_meta_from(index.chapters@, sorted@[i]) by {
            kept_view.to_multiset_ensures();
            sorted@.to_multiset_ensures();
            assert(sorted@.to_multiset().contains(sorted@[i]));
            assert(kept_view.to_multiset().contains(sorted@[i]));
            assert(kept_view.contains(sorted@[i]));
            let j = choose|j: int| 0 <= j < kept_view.len() && kept_view[j] == sorted@[i];
            assert(kept_view[j].id@ != chapter_id@);
        }
    }
    let mut renumbered: Vec<ChapterMeta> = Vec::new();
    let mut k: usize = 0;
    let src = sorted;
    while k < src.len()
        invariant
            k <= src@.len(),
            renumbered@.len() == k,
            forall|i: int|
                0 <= i < src@.len() ==> (#[trigger] src@[i]).id@ != chapter_id@ && spec_meta_from(
                    index.chapters@,
                    src@[i],
                ),
            forall|i: int|
                0 <= i < k ==> (#[trigger] renumbered@[i]).id@ != chapter_id@ && spec_meta_from(
                    index.chapters@,
                    renumbered@[i],
                ) && (i + 1 <= u32::MAX ==> renumbered@[i].order == i + 1),
        decreases src@.len() - k,
    {
        let m = &src[k];
        assert(spec_meta_from(index.chapters@, src@[k as int]));
        let new_order: u32 = if k < u32::MAX as usize {
            (k + 1) as u32
        } else {
            u32::MAX
        };
        let changed = m.order != new_order;
        let copy = ChapterMeta {
            id: m.id.clone(),
            title: m.title.clone(),
            order: new_order,
            created: m.created,
            updated: if changed {
                now
            } else {
                m.updated
            },
            word_count: m.word_count,
        };
        proof {
            let j = choose|j: int|
                0 <= j < index.chapters@.len() && (#[trigger] index.chapters@[j]).id@
                    == src@[k as int].id@ && index.chapters@[j].title@ == src@[k as int].title@
                    && index.chapters@[j].created == src@[k as int].created
                    && index.chapters@[j].word_count == src@[k as int].word_count;
            assert(index.chapters@[j].id@ == copy.id@ && index.chapters@[j].title@ == copy.title@
                && index.chapters@[j].created == copy.created && index.chapters@[j].word_count
                == copy.word_count);
            assert(spec_meta_from(index.chapters@, copy));
            assert(copy.id@ == src@[k as int].id@);
        }
        renumbered.push(copy);
        k = k + 1;
    }
    Ok(ChapterIndex { chapters: renumbered, next_id: index.next_id })
}

/// Law: reordering takes exactly the given identifiers, in their order;
/// each reordered record keeps its identity fields, renumbered from one.
/// An empty list, a list that does not cover the chapters exactly, a
/// duplicate, or an unknown identifier is refused.
pub fn reorder_chapters_update(
    index: ChapterIndex,
    chapter_ids: &Vec<String>,
    now: u64,
) -> (r: Result<ChapterIndex, String>)
    ensures
        chapter_ids@.len() == 0 ==> (r matches Err(e) && e@ == "chapter_ids is empty"@),
        r matches Ok(updated) ==> {
            &&& updated.next_id == index.next_id
            &&& updated.chapters@.len() == chapter_ids@.len()
            &&& forall|i: int|
                0 <= i < updated.chapters@.len() ==> (#[trigger] updated.chapters@[i]).id@
                    == chapter_ids@[i]@ && (i + 1 <= u32::MAX ==> updated.chapters@[i].order == i
                    + 1) && spec_meta_from(index.chapters@, updated.chapters@[i])
        },
{
    if chapter_ids.len() == 0 {
        return Err("chapter_ids is empty".to_owned());
    }
    let mut i: usize = 0;
    while i < chapter_ids.len()
        invariant
            i <= chapter_ids@.len(),
        decreases chapter_ids@.len() - i,
    {
        if let Err(e) = validate_chapter_id(chapter_ids[i].as_str()) {
            return Err(e);
        }
        i = i + 1;
    }
    if chapter_ids.len() != index.chapters.len() {
        return Err("chapter_ids must include all chapters".to_owned());
    }
    let mut i: usize = 0;
    while i < chapter_ids.len()
        invariant
            i <= chapter_ids@.len(),
        decreases chapter_ids@.len() - i,
    {
        let mut j: usize = i + 1;
        while j < chapter_ids.len()
            invariant
                i < j <= chapter_ids@.len(),
            decreases chapter_ids@.len() - j,
        {
            if str_eq_str(chapter_ids[i].as_str(), chapter_ids[j].as_str()) {
                return Err("chapter_ids contains duplicates".to_owned());
            }
            j = j + 1;
        }
        i = i + 1;
    }
    let mut remaining: Vec<ChapterMeta> = index.chapters;
    let mut reordered: Vec<ChapterMeta> = Vec::new();
    let ghost old_chapters = remaining@;
    let mut i: usize = 0;
    while i < chapter_ids.len()
        invariant
            i <= chapter_ids@.len(),
            reordered@.len() == i,
            forall|j: int|
                0 <= j < remaining@.len() ==> spec_meta_from(
                    old_chapters,
                    #[trigger] remaining@[j],
                ),
            forall|j: int|
                0 <= j < i ==> (#[trigger] reordered@[j]).id@ == chapter_ids@[j]@ && (j + 1
                    <= u32::MAX ==> reordered@[j].order == j + 1) && spec_meta_from(
                    old_chapters,
                    reordered@[j],
                ),
        decreases chapter_ids@.len() - i,
    {
        proof {
            assert forall|j: int| 0 <= j < old_chapters.len() implies spec_meta_from(
                old_chapters,
                #[trigger] old_chapters[j],
            ) by {
                assert(old_chapters[j].id@ == old_chapters[j].id@);
            }
        }
        let id = &chapter_ids[i];
        let mut pos: usize = 0;
        let mut hit = false;
        while pos < remaining.len()
            invariant_except_break
                pos <= remaining@.len(),
                !hit,
            ensures
                hit ==> pos < remaining@.len() && remaining@[pos as int].id@ == id@,
            decreases remaining@.len() - pos,
        {
            if str_eq_str(remaining[pos].id.as_str(), id.as_str()) {
                hit = true;
                break;
            }
            pos = pos + 1;
        }
        if !hit {
            let mut e = String::new();
            e.append("Unknown chapter id: ");
            e.append(id.as_str());
            return Err(e);
        }
        let ghost prev_remaining = remaining@;
        assert(spec_meta_from(old_chapters, prev_remaining[pos as int]));
        let m = remaining.remove(pos);
        let new_order: u32 = if i < u32::MAX as usize {
            (i + 1) as u32
        } else {
            u32::MAX
        };
        let changed = m.order != new_order;
        let copy = ChapterMeta {
            id: m.id,
            title: m.title,
            order: new_order,
            created: m.created,
            updated: if changed {
                now
            } else {
                m.updated
            },
            word_count: m.word_count,
        };
        proof {
            let j = choose|j: int|
                0 <= j < old_chapters.len() && (#[trigger] old_chapters[j]).id@ == copy.id@
                    && old_chapters[j].title@ == copy.title@ && old_chapters[j].created
                    == copy.created && old_chapters[j].word_count == copy.word_count;
            assert(spec_meta_from(old_chapters, copy));
        }
        reordered.push(copy);
        i = i + 1;
    }
    Ok(ChapterIndex { chapters: reordered, next_id: index.next_id })
}

} // verus!

verus! {

/// Law: renaming a chapter changes exactly that record's title and update
/// time; every other record, the order, and the next chapter number stay
/// untouched. Fails when no record has the identifier.
pub fn rename_chapter_update(
    index: &mut ChapterIndex,
    chapter_id: &str,
    new_title: &str,
    now: u64,
) -> (r: Result<(), String>)
    ensures
        final(index).next_id == old(index).next_id,
        final(index).chapters@.len() == old(index).chapters@.len(),
        r is Err <==> !(exists|i: int|
            0 <= i < old(index).chapters@.len() && (#[trigger] old(index).chapters@[i]).id@
                == chapter_id@),
        r matches Err(e) ==> e@ == "Chapter not found"@
            && final(index).chapters@ == old(index).chapters@,
        forall|i: int|
            0 <= i < old(index).chapters@.len() && old(index).chapters@[i].id@ != chapter_id@
                ==> final(index).chapters@[i] == old(index).chapters@[i],
        r is Ok ==> exists|i: int|
            0 <= i < old(index).chapters@.len() && old(index).chapters@[i].id@ == chapter_id@
                && (#[trigger] final(index).chapters@[i]).title@ == new_title@
                && final(index).chapters@[i].updated == now
                && final(index).chapters@[i].id == old(index).chapters@[i].id
                && final(index).chapters@[i].order == old(index).chapters@[i].order
                && final(index).chapters@[i].created == old(index).chapters@[i].created
                && final(index).chapters@[i].word_count == old(index).chapters@[i].word_count,
{
    let n = index.chapters.len();
    let mut i: usize = 0;
    while i < n
        invariant
            i <= n,
            n == index.chapters@.len(),
            index.chapters@.len() == old(index).chapters@.len(),
            index.next_id == old(index).next_id,
            forall|j: int| 0 <= j < n ==> index.chapters@[j] == old(index).chapters@[j],
            forall|j: int| 0 <= j < i ==> old(index).chapters@[j].id@ != chapter_id@,
        decreases n - i,
    {
        if str_eq_str(index.chapters[i].id.as_str(), chapter_id) {
            let m = &index.chapters[i];
            let renamed = ChapterMeta {
                id: m.id.clone(),
                title: new_title.to_owned(),
                order: m.order,
                created: m.created,
                updated: now,
                word_count: m.word_count,
            };
            assert(old(index).chapters@[i as int].id@ == chapter_id@);
            index.chapters.set(i, renamed);
            assert(index.chapters@.len() == n);
            assert(index.chapters@[i as int].title@ == new_title@);
            assert(index.chapters@[i as int].updated == now);
            assert(forall|j: int|
                0 <= j < n && j != i ==> index.chapters@[j] == old(index).chapters@[j]);
            return Ok(());
        }
        i = i + 1;
    }
    Err("Chapter not found".to_owned())
}

} // verus!
