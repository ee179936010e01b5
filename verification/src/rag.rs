//! Knowledge-base bookkeeping: which documents under `knowledge/` take part
//! in semantic search, and how their text is chunked for indexing. The
//! embedding model and the on-disk index are external collaborators.

use vstd::prelude::*;
use crate::text::chars_of_str;
use crate::text::trim_chars;
use crate::text::spec_trim;
use crate::text::spec_split;
use crate::text::split_chars;
use crate::text::string_of_chars;
use crate::text::starts_with_str;
use crate::text::str_eq_str;
use crate::text::str_lex_le;
use crate::text::spec_lex_le;
use crate::text::lemma_lex_total;
use crate::text::lemma_split_len_pos;
use crate::security::spec_is_prefix;

verus! {

/// The knowledge-search configuration stored with the project.
pub struct RagConfig {
    pub schema_version: u32,
    pub enabled_paths: Vec<String>,
}

/// One knowledge document as listings report it.
pub struct KnowledgeDoc {
    pub path: String,
    pub name: String,
    pub bytes: u64,
    pub modified_at: u64,
    pub enabled: bool,
}

/// What one index build produced.
pub struct RagIndexSummary {
    pub created_at: u64,
    pub doc_count: usize,
    pub chunk_count: usize,
    pub model: String,
}

/// Validates a knowledge-document path: non-blank, and under `knowledge/`.
pub fn normalize_doc_path(relative: &str) -> (r: Result<String, String>)
    ensures
        spec_trim(relative@).len() == 0 ==> (r matches Err(e) && e@ == "docPath is empty"@),
        spec_trim(relative@).len() > 0 && !spec_is_prefix("knowledge/"@, spec_trim(relative@))
            ==> (r matches Err(e) && e@ == "docPath must be under knowledge/"@),
        spec_trim(relative@).len() > 0 && spec_is_prefix("knowledge/"@, spec_trim(relative@))
            ==> (r matches Ok(p) && p@ == spec_trim(relative@)),
{
    proof {
        reveal_strlit("knowledge/");
    }
    let chars = chars_of_str(relative);
    let t = trim_chars(&chars);
    if t.len() == 0 {
        return Err("docPath is empty".to_owned());
    }
    if !starts_with_str(&t, "knowledge/") {
        return Err("docPath must be under knowledge/".to_owned());
    }
    Ok(string_of_chars(&t))
}

/// Case-insensitive equality against an ASCII lower-case word.
pub open spec fn spec_eq_ascii_ci(s: Seq<char>, lower: Seq<char>) -> bool {
    s.len() == lower.len() && forall|i: int|
        0 <= i < s.len() ==> (#[trigger] s[i]) == lower[i] || (s[i] as u32) + 32 == (
        lower[i] as u32)
}

fn eq_ascii_ci(s: &Vec<char>, lower: &str) -> (r: bool)
    ensures
        r == spec_eq_ascii_ci(s@, lower@),
{
    let n = lower.unicode_len();
    if s.len() != n {
        return false;
    }
    let mut i: usize = 0;
    while i < n
        invariant
            i <= n,
            n == lower@.len(),
            s@.len() == n,
            forall|j: int|
                0 <= j < i ==> (#[trigger] s@[j]) == lower@[j] || (s@[j] as u32) + 32 == (
                lower@[j] as u32),
        decreases n - i,
    {
        let c = s[i];
        let l = lower.get_char(i);
        if !(c == l || ((c as u32) as u64) + 32 == ((l as u32) as u64)) {
            return false;
        }
        i = i + 1;
    }
    true
}

/// The extension of a path's final name segment: what follows the last dot,
/// unless the name's only dot leads it.
pub open spec fn spec_extension(path: Seq<char>) -> Option<Seq<char>> {
    let name = spec_split(path, '/').last();
    let dotted = spec_split(name, '.');
    if dotted.len() == 1 {
        None
    } else if name.len() > 0 && name[0] == '.' && dotted.len() == 2 {
        None
    } else {
        Some(dotted.last())
    }
}

/// Whether knowledge search takes this document: a `.txt`, `.md` or
/// `.markdown` file, whatever the case of the extension.
pub open spec fn spec_supported_doc(path: Seq<char>) -> bool {
    match spec_extension(path) {
        Some(ext) => spec_eq_ascii_ci(ext, "txt"@) || spec_eq_ascii_ci(ext, "md"@)
            || spec_eq_ascii_ci(ext, "markdown"@),
        None => false,
    }
}

/// Whether a document's extension admits it to the knowledge base.
pub fn is_supported_doc_path(path: &str) -> (r: bool)
    ensures
        r == spec_supported_doc(path@),
{
    let chars = chars_of_str(path);
    let parts = split_chars(&chars, '/');
    proof {
        lemma_split_len_pos(path@, '/');
    }
    assert(parts.deep_view().len() == parts@.len());
    let name = &parts[parts.len() - 1];
    assert(name@ == parts.deep_view().last());
    let dotted = split_chars(name, '.');
    proof {
        lemma_split_len_pos(name@, '.');
    }
    assert(dotted.deep_view().len() == dotted@.len());
    if dotted.len() == 1 {
        return false;
    }
    if name.len() > 0 && name[0] == '.' && dotted.len() == 2 {
        return false;
    }
    let ext = &dotted[dotted.len() - 1];
    assert(ext@ == dotted.deep_view().last());
    proof {
        reveal_strlit("txt");
        reveal_strlit("md");
        reveal_strlit("markdown");
    }
    eq_ascii_ci(ext, "txt") || eq_ascii_ci(ext, "md") || eq_ascii_ci(ext, "markdown")
}

/// Whether some entry of the list reads `p`.
pub open spec fn spec_path_member(s: Seq<String>, p: Seq<char>) -> bool {
    exists|i: int| 0 <= i < s.len() && (#[trigger] s[i])@ == p
}

/// Paths in listing order.
pub open spec fn spec_sorted_paths(s: Seq<String>) -> bool {
    forall|i: int, j: int| 0 <= i < j < s.len() ==> spec_lex_le(s[i]@, s[j]@)
}

/// Law: enabling a document puts it into the enabled set, disabling removes
/// it; every other enabled path stays enabled, nothing appears that was not
/// enabled before or named now, and the result is sorted.
pub fn set_doc_enabled(config: &RagConfig, doc_path: &str, enabled: bool) -> (r: RagConfig)
    ensures
        r.schema_version == config.schema_version,
        spec_sorted_paths(r.enabled_paths@),
        enabled ==> spec_path_member(r.enabled_paths@, doc_path@),
        !enabled ==> (forall|i: int|
            0 <= i < r.enabled_paths@.len() ==> (#[trigger] r.enabled_paths@[i])@ != doc_path@),
        forall|k: int|
            0 <= k < config.enabled_paths@.len() && (#[trigger] config.enabled_paths@[k])@
                != doc_path@ ==> spec_path_member(r.enabled_paths@, config.enabled_paths@[k]@),
        forall|i: int|
            0 <= i < r.enabled_paths@.len() ==> (#[trigger] r.enabled_paths@[i])@ == doc_path@
                || spec_path_member(config.enabled_paths@, r.enabled_paths@[i]@),
{
    let mut kept: Vec<String> = Vec::new();
    let mut i: usize = 0;
    while i < config.enabled_paths.len()
        invariant
            i <= config.enabled_paths@.len(),
            forall|j: int| 0 <= j < kept@.len() ==> (#[trigger] kept@[j])@ != doc_path@,
            forall|j: int|
                0 <= j < kept@.len() ==> spec_path_member(
                    config.enabled_paths@,
                    (#[trigger] kept@[j])@,
                ),
            forall|k: int|
                0 <= k < i && (#[trigger] config.enabled_paths@[k])@ != doc_path@
                    ==> spec_path_member(kept@, config.enabled_paths@[k]@),
        decreases config.enabled_paths@.len() - i,
    {
        let entry = &config.enabled_paths[i];
        let ghost old_kept = kept@;
        if !str_eq_str(entry.as_str(), doc_path) {
            kept.push(entry.clone());
            assert(kept@.last()@ == config.enabled_paths@[i as int]@);
        }
        proof {
            assert forall|j: int| 0 <= j < old_kept.len() implies kept@[j] == old_kept[j] by {}
            assert forall|k: int|
                0 <= k < i + 1 && (#[trigger] config.enabled_paths@[k])@ != doc_path@ implies
                spec_path_member(kept@, config.enabled_paths@[k]@) by {
                if k < i {
                    let j = choose|j: int|
                        0 <= j < old_kept.len() && (#[trigger] old_kept[j])@
                            == config.enabled_paths@[k]@;
                    assert(kept@[j]@ == config.enabled_paths@[k]@);
                } else {
                    assert(kept@[kept@.len() - 1]@ == config.enabled_paths@[k]@);
                }
            }
            assert forall|j: int| 0 <= j < kept@.len() implies spec_path_member(
                config.enabled_paths@,
                (#[trigger] kept@[j])@,
            ) by {
                if j < old_kept.len() {
                } else {
                    assert(config.enabled_paths@[i as int]@ == kept@[j]@);
                }
            }
        }
        i = i + 1;
    }
    let ghost kept_before = kept@;
    if enabled {
        kept.push(doc_path.to_owned());
        assert(kept@.last()@ == doc_path@);
        proof {
            assert forall|j: int| 0 <= j < kept_before.len() implies (#[trigger] kept@[j])
                == kept_before[j] by {}
        }
    }
    let ghost pre_sort = kept@;
    let sorted = sort_paths(kept);
    proof {
        broadcast use vstd::seq_lib::group_to_multiset_ensures;

        pre_sort.to_multiset_ensures();
        sorted@.to_multiset_ensures();
        assert forall|p: Seq<char>|
            spec_path_member(sorted@, p) <==> spec_path_member(pre_sort, p) by {
            if spec_path_member(sorted@, p) {
                let i = choose|i: int| 0 <= i < sorted@.len() && (#[trigger] sorted@[i])@ == p;
                assert(sorted@.to_multiset().contains(sorted@[i]));
                assert(pre_sort.to_multiset().contains(sorted@[i]));
                assert(pre_sort.contains(sorted@[i]));
                let j = choose|j: int| 0 <= j < pre_sort.len() && pre_sort[j] == sorted@[i];
                assert((#[trigger] pre_sort[j])@ == p);
            }
            if spec_path_member(pre_sort, p) {
                let i = choose|i: int| 0 <= i < pre_sort.len() && (#[trigger] pre_sort[i])@ == p;
                assert(pre_sort.to_multiset().contains(pre_sort[i]));
                assert(sorted@.to_multiset().contains(pre_sort[i]));
                assert(sorted@.contains(pre_sort[i]));
                let j = choose|j: int| 0 <= j < sorted@.len() && sorted@[j] == pre_sort[i];
                assert((#[trigger] sorted@[j])@ == p);
            }
        }
    }
    proof {
        assert forall|k: int|
            0 <= k < config.enabled_paths@.len() && (#[trigger] config.enabled_paths@[k])@
                != doc_path@ implies spec_path_member(sorted@, config.enabled_paths@[k]@) by {
            assert(spec_path_member(kept_before, config.enabled_paths@[k]@));
            let j = choose|j: int|
                0 <= j < kept_before.len() && (#[trigger] kept_before[j])@
                    == config.enabled_paths@[k]@;
            assert(pre_sort[j]@ == config.enabled_paths@[k]@);
            assert(spec_path_member(pre_sort, config.enabled_paths@[k]@));
        }
        assert forall|i: int| 0 <= i < sorted@.len() implies (#[trigger] sorted@[i])@ == doc_path@
            || spec_path_member(config.enabled_paths@, sorted@[i]@) by {
            assert(spec_path_member(pre_sort, sorted@[i]@)) by {
                assert(sorted@[i]@ == sorted@[i]@);
            }
            let j = choose|j: int| 0 <= j < pre_sort.len() && (#[trigger] pre_sort[j])@ == sorted@[i]@;
            if j < kept_before.len() {
            }
        }
        if enabled {
            assert(spec_path_member(pre_sort, doc_path@));
            assert(spec_path_member(sorted@, doc_path@));
        }
        if !enabled {
            assert forall|i: int| 0 <= i < sorted@.len() implies (#[trigger] sorted@[i])@
                != doc_path@ by {
                assert(spec_path_member(pre_sort, sorted@[i]@)) by {
                    assert(sorted@[i]@ == sorted@[i]@);
                }
            }
        }
    }
    RagConfig { schema_version: config.schema_version, enabled_paths: sorted }
}

/// Sorts paths lexicographically.
fn sort_paths(v: Vec<String>) -> (r: Vec<String>)
    ensures
        r@.to_multiset() == v@.to_multiset(),
        spec_sorted_paths(r@),
{
    broadcast use vstd::seq_lib::group_to_multiset_ensures;

    let mut src = v;
    let mut out: Vec<String> = Vec::new();
    while src.len() > 0
        invariant
            out@.to_multiset().add(src@.to_multiset()) == v@.to_multiset(),
            spec_sorted_paths(out@),
            forall|i: int, j: int|
                0 <= i < out@.len() && 0 <= j < src@.len() ==> spec_lex_le(out@[i]@, src@[j]@),
        decreases src@.len(),
    {
        let mut best: usize = 0;
        let mut k: usize = 1;
        proof {
            crate::file_ops::list::lemma_lex_refl(src@[0]@);
        }
        while k < src.len()
            invariant
                best < k <= src@.len(),
                src@.len() > 0,
                forall|j: int| 0 <= j < k ==> spec_lex_le(src@[best as int]@, src@[j]@),
            decreases src@.len() - k,
        {
            if !str_lex_le(src[best].as_str(), src[k].as_str()) {
                proof {
                    lemma_lex_total(src@[best as int]@, src@[k as int]@);
                    crate::file_ops::list::lemma_lex_refl(src@[k as int]@);
                    assert forall|j: int| 0 <= j < k + 1 implies spec_lex_le(
                        src@[k as int]@,
                        src@[j]@,
                    ) by {
                        if j < k {
                            crate::file_ops::list::lemma_lex_trans(
                                src@[k as int]@,
                                src@[best as int]@,
                                src@[j]@,
                            );
                        }
                    }
                }
                best = k;
            }
            k = k + 1;
        }
        let ghost old_src = src@;
        let ghost old_out = out@;
        let item = src.remove(best);
        out.push(item);
        proof {
            old_src.to_multiset_ensures();
            old_out.to_multiset_ensures();
            assert(src@ == old_src.remove(best as int));
            assert(src@.to_multiset() =~= old_src.to_multiset().remove(old_src[best as int]));
            assert(out@.to_multiset() =~= old_out.to_multiset().insert(item));
            assert(out@.to_multiset().add(src@.to_multiset()) =~= v@.to_multiset());
        }
    }
    proof {
        src@.to_multiset_ensures();
        assert(src@.to_multiset() =~= vstd::multiset::Multiset::empty());
        assert(out@.to_multiset() =~= v@.to_multiset());
    }
    out
}

} // verus!

verus! {

use crate::text::subrange_chars;

/// The chunks an indexing pass cuts a text into: windows of `size`
/// characters, each overlapping the previous by `overlap`, blank windows
/// dropped. A window that cannot advance ends the cut.
pub open spec fn spec_chunks(
    chars: Seq<char>,
    size: nat,
    overlap: nat,
    start: nat,
) -> Seq<Seq<char>>
    decreases chars.len() - start,
{
    if start >= chars.len() {
        Seq::empty()
    } else {
        let end = if start + size <= chars.len() {
            start + size
        } else {
            chars.len()
        };
        let piece = chars.subrange(start as int, end as int);
        let this = if spec_trim(piece).len() == 0 {
            Seq::<Seq<char>>::empty()
        } else {
            seq![piece]
        };
        if end == chars.len() {
            this
        } else {
            if end - overlap <= start {
                this
            } else {
                this + spec_chunks(chars, size, overlap, (end - overlap) as nat)
            }
        }
    }
}

/// Cuts a text into overlapping chunks for indexing: a blank text yields
/// nothing, a degenerate window configuration yields the text whole, and
/// otherwise the windows of `spec_chunks`.
pub fn chunk_text(text: &str, chunk_size: usize, overlap: usize) -> (r: Vec<String>)
    ensures
        spec_trim(text@).len() == 0 ==> r@.len() == 0,
        spec_trim(text@).len() > 0 && (chunk_size == 0 || chunk_size <= overlap) ==> (r@.len() == 1
            && r@[0]@ == text@),
        spec_trim(text@).len() > 0 && chunk_size > overlap ==> r.deep_view() == spec_chunks(
            text@,
            chunk_size as nat,
            overlap as nat,
            0,
        ),
{
    let chars = chars_of_str(text);
    let t = trim_chars(&chars);
    if t.len() == 0 {
        return Vec::new();
    }
    if chunk_size == 0 || chunk_size <= overlap {
        let mut out: Vec<String> = Vec::new();
        out.push(text.to_owned());
        return out;
    }
    let n = chars.len();
    let mut out: Vec<String> = Vec::new();
    let mut start: usize = 0;
    while start < n
        invariant_except_break
            start < n,
            n == chars@.len(),
            chars@ == text@,
            chunk_size > overlap,
            out.deep_view() + spec_chunks(chars@, chunk_size as nat, overlap as nat, start as nat)
                =~= spec_chunks(chars@, chunk_size as nat, overlap as nat, 0),
        ensures
            out.deep_view() =~= spec_chunks(chars@, chunk_size as nat, overlap as nat, 0),
        decreases n - start,
    {
        let end = if chunk_size <= n && start <= n - chunk_size {
            start + chunk_size
        } else {
            n
        };
        let ghost rest = spec_chunks(chars@, chunk_size as nat, overlap as nat, start as nat);
        let piece = subrange_chars(&chars, start, end);
        let piece_trim = trim_chars(&piece);
        let ghost before = out.deep_view();
        if piece_trim.len() > 0 {
            out.push(string_of_chars(&piece));
            proof {
                assert(out.deep_view() =~= before.push(piece@));
            }
        }
        if end == n {
            proof {
                if piece_trim.len() > 0 {
                    assert(rest =~= seq![piece@]);
                } else {
                    assert(rest =~= Seq::<Seq<char>>::empty());
                }
                assert(out.deep_view() =~= spec_chunks(
                    chars@,
                    chunk_size as nat,
                    overlap as nat,
                    0,
                ));
            }
            break;
        }
        proof {
            assert(end == start + chunk_size);
            assert(end - overlap > start);
            if piece_trim.len() > 0 {
                assert(rest =~= seq![piece@] + spec_chunks(
                    chars@,
                    chunk_size as nat,
                    overlap as nat,
                    (end - overlap) as nat,
                ));
            } else {
                assert(rest =~= spec_chunks(
                    chars@,
                    chunk_size as nat,
                    overlap as nat,
                    (end - overlap) as nat,
                ));
            }
        }
        start = end - overlap;
    }
    out
}

} // verus!
