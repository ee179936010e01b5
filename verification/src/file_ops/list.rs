//! The list tool: the visible entries of one directory — hidden names and
//! noise directories dropped, at most a hundred entries, sorted by name.
//!
//! Reading the directory itself is the caller's part; the selection and
//! ordering of what it found is decided here.

use vstd::prelude::*;
use vstd::multiset::Multiset;
use crate::text::spec_lex_le;
use crate::text::str_lex_le;
use crate::text::lemma_lex_total;
use crate::text::str_eq_str;

verus! {

/// Arguments of one listing: a project-relative directory, the root when
/// absent.
pub struct ListParams {
    pub path: Option<String>,
}

/// One directory entry as reported: name, kind, byte size (zero for a
/// directory), and modification time as a Unix timestamp.
pub struct FileEntry {
    pub name: String,
    pub is_dir: bool,
    pub size: u64,
    pub modified: u64,
}

/// The outcome of one listing.
pub struct ListResult {
    pub entries: Vec<FileEntry>,
}

/// Entries a listing never shows start with a dot.
pub open spec fn spec_is_hidden(name: Seq<char>) -> bool {
    name.len() > 0 && name[0] == '.'
}

/// Whether a name is hidden from listings.
pub fn is_hidden(name: &str) -> (r: bool)
    ensures
        r == spec_is_hidden(name@),
{
    let chars = crate::text::chars_of_str(name);
    chars.len() > 0 && chars[0] == '.'
}

/// The noise directories a listing drops.
pub open spec fn spec_is_ignored_dir(name: Seq<char>) -> bool {
    name == "node_modules"@ || name == "target"@ || name == ".git"@ || name == ".backup"@ || name
        == "dist"@
}

/// Whether a directory is dropped from listings as noise.
pub fn is_ignored_dir(name: &str) -> (r: bool)
    ensures
        r == spec_is_ignored_dir(name@),
{
    str_eq_str(name, "node_modules") || str_eq_str(name, "target") || str_eq_str(name, ".git")
        || str_eq_str(name, ".backup") || str_eq_str(name, "dist")
}

/// Whether a listing shows this entry.
pub open spec fn spec_keep_entry(e: FileEntry) -> bool {
    !spec_is_hidden(e.name@) && !(e.is_dir && spec_is_ignored_dir(e.name@))
}

/// The entries a listing keeps, in the order they came, capped at `cap`.
pub open spec fn spec_kept_entries(s: Seq<FileEntry>, cap: nat) -> Seq<FileEntry>
    decreases s.len(),
{
    if s.len() == 0 || cap == 0 {
        Seq::empty()
    } else {
        let rest = spec_kept_entries(s.drop_first(), if spec_keep_entry(s.first()) {
            (cap - 1) as nat
        } else {
            cap
        });
        if spec_keep_entry(s.first()) {
            seq![s.first()] + rest
        } else {
            rest
        }
    }
}

/// Listing output order: names ascending.
pub open spec fn spec_sorted_by_name(s: Seq<FileEntry>) -> bool {
    forall|i: int, j: int| 0 <= i < j < s.len() ==> spec_lex_le(s[i].name@, s[j].name@)
}

/// Selects what one listing shows of the entries a directory read
/// produced, in directory order: visible entries only, at most a hundred,
/// sorted by name.
pub fn select_entries(found: Vec<FileEntry>) -> (r: ListResult)
    ensures
        r.entries@.to_multiset() == spec_kept_entries(found@, 100).to_multiset(),
        spec_sorted_by_name(r.entries@),
{
    broadcast use vstd::seq_lib::group_to_multiset_ensures;

    let mut kept: Vec<FileEntry> = Vec::new();
    let mut i: usize = 0;
    assert(found@.skip(0) =~= found@);
    assert(kept@ + spec_kept_entries(found@, 100) =~= spec_kept_entries(found@, 100));
    while i < found.len() && kept.len() < 100
        invariant
            i <= found@.len(),
            kept@.len() <= 100,
            kept@ + spec_kept_entries(found@.skip(i as int), (100 - kept@.len()) as nat)
                =~= spec_kept_entries(found@, 100),
        decreases found@.len() - i,
    {
        let ghost rest = found@.skip(i as int);
        assert(rest.first() == found@[i as int]);
        assert(rest.drop_first() =~= found@.skip(i + 1 as int));
        let e = &found[i];
        let keep = !is_hidden(e.name.as_str()) && !(e.is_dir && is_ignored_dir(e.name.as_str()));
        if keep {
            let copy = FileEntry {
                name: e.name.clone(),
                is_dir: e.is_dir,
                size: e.size,
                modified: e.modified,
            };
            assert(copy == found@[i as int]);
            kept.push(copy);
        }
        i = i + 1;
    }
    proof {
        if i == found@.len() {
            assert(found@.skip(found@.len() as int) =~= Seq::empty());
            assert(spec_kept_entries(found@.skip(i as int), (100 - kept@.len()) as nat)
                =~= Seq::empty());
        } else {
            assert(kept@.len() == 100);
            assert(spec_kept_entries(found@.skip(i as int), 0) =~= Seq::empty());
        }
        assert(kept@ + Seq::<FileEntry>::empty() =~= kept@);
    }
    assert(kept@ =~= spec_kept_entries(found@, 100));
    let mut src = kept;
    let mut out: Vec<FileEntry> = Vec::new();
    while src.len() > 0
        invariant
            out@.to_multiset().add(src@.to_multiset()) == spec_kept_entries(
                found@,
                100,
            ).to_multiset(),
            spec_sorted_by_name(out@),
            forall|i: int, j: int|
                0 <= i < out@.len() && 0 <= j < src@.len() ==> spec_lex_le(
                    out@[i].name@,
                    src@[j].name@,
                ),
        decreases src@.len(),
    {
        let mut best: usize = 0;
        let mut k: usize = 1;
        proof {
            lemma_lex_refl(src@[0].name@);
        }
        while k < src.len()
            invariant
                best < k <= src@.len(),
                src@.len() > 0,
                forall|j: int| 0 <= j < k ==> spec_lex_le(src@[best as int].name@, src@[j].name@),
            decreases src@.len() - k,
        {
            if !str_lex_le(src[best].name.as_str(), src[k].name.as_str()) {
                proof {
                    lemma_lex_total(src@[best as int].name@, src@[k as int].name@);
                    lemma_lex_refl(src@[k as int].name@);
                    assert forall|j: int| 0 <= j < k + 1 implies spec_lex_le(
                        src@[k as int].name@,
                        src@[j].name@,
                    ) by {
                        if j < k {
                            lemma_lex_trans(
                                src@[k as int].name@,
                                src@[best as int].name@,
                                src@[j].name@,
                            );
                        }
                    }
                }
                best = k;
            } else {
                proof {
                    assert forall|j: int| 0 <= j < k + 1 implies spec_lex_le(
                        src@[best as int].name@,
                        src@[j].name@,
                    ) by {}
                }
            }
            k = k + 1;
        }
        let ghost old_src = src@;
        let ghost old_out = out@;
        let item = src.remove(best);
        out.push(item);
        proof {
            old_src.to_multiset_ensures();
            old_out.to_multiset_ensures();
            assert(src@ == old_src.remove(best as int));
            assert(src@.to_multiset() =~= old_src.to_multiset().remove(old_src[best as int]));
            assert(out@.to_multiset() =~= old_out.to_multiset().insert(item));
            assert(out@.to_multiset().add(src@.to_multiset()) =~= spec_kept_entries(
                found@,
                100,
            ).to_multiset());
        }
    }
    proof {
        src@.to_multiset_ensures();
        assert(src@.to_multiset() =~= Multiset::empty());
        assert(out@.to_multiset() =~= spec_kept_entries(found@, 100).to_multiset());
    }
    ListResult { entries: out }
}

/// The order is reflexive.
pub proof fn lemma_lex_refl(a: Seq<char>)
    ensures
        spec_lex_le(a, a),
    decreases a.len(),
{
    if a.len() > 0 {
        lemma_lex_refl(a.drop_first());
    }
}

/// The order is transitive.
pub proof fn lemma_lex_trans(a: Seq<char>, b: Seq<char>, c: Seq<char>)
    requires
        spec_lex_le(a, b),
        spec_lex_le(b, c),
    ensures
        spec_lex_le(a, c),
    decreases a.len(),
{
    if a.len() > 0 && b.len() > 0 && c.len() > 0 {
        if (a.first() as u32) == (b.first() as u32) && (b.first() as u32) == (c.first() as u32) {
            lemma_lex_trans(a.drop_first(), b.drop_first(), c.drop_first());
        }
    }
}

} // verus!

verus! {

use crate::jsonval::JsonValue;
use crate::jsonval::Json;
use crate::jsonval::spec_json;
use crate::jsonval::json_num_u64;
use crate::jsonval::json_to_string;
use crate::jsonval::view_json_obj;
use crate::jsonval::view_json_list;
use crate::jsonval::lemma_view_json_obj_len;
use crate::jsonval::lemma_view_json_obj_index;
use crate::text::spec_decimal;

/// One entry as the engine receives it.
pub open spec fn spec_entry_json(e: FileEntry) -> Json {
    Json::Obj(
        seq![
            ("name"@, Json::Str(e.name@)),
            ("is_dir"@, Json::Bool(e.is_dir)),
            ("size"@, Json::Num(spec_decimal(e.size as nat))),
            ("modified"@, Json::Num(spec_decimal(e.modified as nat))),
        ],
    )
}

/// The listing as the engine receives it.
pub open spec fn spec_list_result_json(entries: Seq<FileEntry>) -> Json
    decreases entries,
{
    Json::Obj(seq![("entries"@, Json::Arr(entries.map_values(|e: FileEntry| spec_entry_json(e))))])
}

/// Serializes a listing for the tool-result payload.
pub fn list_result_json(r: &ListResult) -> (out: String)
    ensures
        out@ == spec_json(spec_list_result_json(r.entries@)),
{
    let mut items: Vec<JsonValue> = Vec::new();
    let mut i: usize = 0;
    while i < r.entries.len()
        invariant
            i <= r.entries@.len(),
            items@.len() == i,
            view_json_list(items@) =~= r.entries@.subrange(0, i as int).map_values(
                |e: FileEntry| spec_entry_json(e),
            ),
        decreases r.entries@.len() - i,
    {
        let e = &r.entries[i];
        let mut entries: Vec<(String, JsonValue)> = Vec::new();
        entries.push(("name".to_owned(), JsonValue::Str(e.name.clone())));
        entries.push(("is_dir".to_owned(), JsonValue::Bool(e.is_dir)));
        entries.push(("size".to_owned(), json_num_u64(e.size)));
        entries.push(("modified".to_owned(), json_num_u64(e.modified)));
        proof {
            lemma_view_json_obj_len(entries@);
            lemma_view_json_obj_index(entries@, 0);
            lemma_view_json_obj_index(entries@, 1);
            lemma_view_json_obj_index(entries@, 2);
            lemma_view_json_obj_index(entries@, 3);
            assert(view_json_obj(entries@) =~= spec_entry_json(*e)->Obj_0);
        }
        let ghost before = items@;
        items.push(JsonValue::Obj(entries));
        proof {
            assert(items@.drop_last() =~= before);
            assert(items@.last()@ == spec_entry_json(r.entries@[i as int]));
            assert(view_json_list(items@) =~= r.entries@.subrange(0, i + 1 as int).map_values(
                |e: FileEntry| spec_entry_json(e),
            ));
        }
        i = i + 1;
    }
    assert(r.entries@.subrange(0, r.entries@.len() as int) =~= r.entries@);
    let mut top: Vec<(String, JsonValue)> = Vec::new();
    let ghost items_model = view_json_list(items@);
    top.push(("entries".to_owned(), JsonValue::Arr(items)));
    proof {
        lemma_view_json_obj_len(top@);
        lemma_view_json_obj_index(top@, 0);
        assert(view_json_obj(top@) =~= spec_list_result_json(r.entries@)->Obj_0);
    }
    let obj = JsonValue::Obj(top);
    json_to_string(&obj)
}

} // verus!
