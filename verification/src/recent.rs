//! The recent-projects list kept in the user's configuration directory:
//! one entry per project path, most recently opened first.

use vstd::prelude::*;
use vstd::multiset::Multiset;
use crate::text::chars_of_str;
use crate::text::trim_chars;
use crate::text::spec_trim;
use crate::text::string_of_chars;
use crate::text::str_eq_str;

verus! {

/// One remembered project.
pub struct RecentProject {
    pub name: String,
    pub path: String,
    pub last_opened: u64,
}

/// The persisted list of remembered projects.
pub struct RecentProjectsFile {
    pub recent: Vec<RecentProject>,
}

/// Most recently opened first.
pub open spec fn spec_sorted_by_opened_desc(s: Seq<RecentProject>) -> bool {
    forall|i: int, j: int| 0 <= i < j < s.len() ==> s[i].last_opened >= s[j].last_opened
}

/// Sorts remembered projects, most recently opened first.
pub fn sort_recent_desc(v: Vec<RecentProject>) -> (r: Vec<RecentProject>)
    ensures
        r@.to_multiset() == v@.to_multiset(),
        spec_sorted_by_opened_desc(r@),
{
    broadcast use vstd::seq_lib::group_to_multiset_ensures;

    let mut src = v;
    let mut out: Vec<RecentProject> = Vec::new();
    while src.len() > 0
        invariant
            out@.to_multiset().add(src@.to_multiset()) == v@.to_multiset(),
            spec_sorted_by_opened_desc(out@),
            forall|i: int, j: int|
                0 <= i < out@.len() && 0 <= j < src@.len() ==> out@[i].last_opened
                    >= src@[j].last_opened,
        decreases src@.len(),
    {
        let mut best: usize = 0;
        let mut k: usize = 1;
        while k < src.len()
            invariant
                best < k <= src@.len(),
                src@.len() > 0,
                forall|j: int| 0 <= j < k ==> src@[best as int].last_opened >= src@[j].last_opened,
            decreases src@.len() - k,
        {
            if src[k].last_opened > src[best].last_opened {
                best = k;
            }
            k = k + 1;
        }
        let ghost old_src = src@;
        let ghost old_out = out@;
        let item = src.remove(best);
        out.push(item);
        proof {
            old_src.to_multiset_ensures();
            old_out.to_multiset_ensures();
            assert(src@ == old_src.remove(best as int));
            assert(src@.to_multiset() =~= old_src.to_multiset().remove(old_src[best as int]));
            assert(out@.to_multiset() =~= old_out.to_multiset().insert(item));
            assert(out@.to_multiset().add(src@.to_multiset()) =~= v@.to_multiset());
        }
    }
    proof {
        src@.to_multiset_ensures();
        assert(src@.to_multiset() =~= Multiset::empty());
        assert(out@.to_multiset() =~= v@.to_multiset());
    }
    out
}

/// Whether the list holds an entry for this project, renamed and refreshed
/// at this instant.
pub open spec fn spec_has_entry(
    s: Seq<RecentProject>,
    name: Seq<char>,
    path: Seq<char>,
    now: u64,
) -> bool {
    exists|i: int|
        0 <= i < s.len() && (#[trigger] s[i]).path@ == path && s[i].name@ == name
            && s[i].last_opened == now
}

/// Remembers one opened project: a blank name or path is refused; an entry
/// with the same path is renamed and refreshed, any other project gets a
/// new entry; the result lists the most recently opened first.
pub fn add_recent(
    recent: Vec<RecentProject>,
    name: &str,
    path: &str,
    now: u64,
) -> (r: Result<Vec<RecentProject>, String>)
    ensures
        spec_trim(name@).len() == 0 ==> (r matches Err(e) && e@ == "Project name is empty"@),
        spec_trim(name@).len() > 0 && spec_trim(path@).len() == 0 ==> (r matches Err(e) && e@
            == "Project path is empty"@),
        r matches Ok(list) ==> spec_sorted_by_opened_desc(list@),
        r matches Ok(list) ==> spec_has_entry(list@, spec_trim(name@), spec_trim(path@), now),
{
    let name_trim = trim_chars(&chars_of_str(name));
    if name_trim.len() == 0 {
        return Err("Project name is empty".to_owned());
    }
    let path_trim = trim_chars(&chars_of_str(path));
    if path_trim.len() == 0 {
        return Err("Project path is empty".to_owned());
    }
    let name_s = string_of_chars(&name_trim);
    let path_s = string_of_chars(&path_trim);
    let mut updated = recent;
    let mut found: bool = false;
    let mut i: usize = 0;
    while i < updated.len() && !found
        invariant
            i <= updated@.len(),
            found ==> (exists|j: int|
                0 <= j < updated@.len() && (#[trigger] updated@[j]).path@ == path_s@
                    && updated@[j].name@ == name_s@ && updated@[j].last_opened == now),
            name_s@ == spec_trim(name@),
            path_s@ == spec_trim(path@),
        decreases updated@.len() - i,
    {
        if str_eq_str(updated[i].path.as_str(), path_s.as_str()) {
            let fresh = RecentProject { name: name_s.clone(), path: path_s.clone(), last_opened: now };
            updated.set(i, fresh);
            assert(updated@[i as int].path@ == path_s@);
            found = true;
        }
        i = i + 1;
    }
    if !found {
        updated.push(RecentProject { name: name_s.clone(), path: path_s.clone(), last_opened: now });
        assert(updated@.last().path@ == path_s@);
    }
    let ghost pre_sort = updated@;
    assert(exists|j: int|
        0 <= j < pre_sort.len() && (#[trigger] pre_sort[j]).path@ == path_s@ && pre_sort[j].name@
            == name_s@ && pre_sort[j].last_opened == now);
    let sorted = sort_recent_desc(updated);
    proof {
        broadcast use vstd::seq_lib::group_to_multiset_ensures;

        let j = choose|j: int|
            0 <= j < pre_sort.len() && (#[trigger] pre_sort[j]).path@ == path_s@
                && pre_sort[j].name@ == name_s@ && pre_sort[j].last_opened == now;
        pre_sort.to_multiset_ensures();
        sorted@.to_multiset_ensures();
        assert(pre_sort.to_multiset().contains(pre_sort[j]));
        assert(sorted@.to_multiset().contains(pre_sort[j]));
        assert(sorted@.contains(pre_sort[j]));
        let k = choose|k: int| 0 <= k < sorted@.len() && sorted@[k] == pre_sort[j];
        assert(0 <= k < sorted@.len() && (#[trigger] sorted@[k]).path@ == path_s@
            && sorted@[k].name@ == name_s@ && sorted@[k].last_opened == now);
        assert(spec_has_entry(sorted@, spec_trim(name@), spec_trim(path@), now));
    }
    Ok(sorted)
}

} // verus!
