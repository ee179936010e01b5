//! Writing-style presets stored with the project: the built-in default, and
//! the normalization that keeps exactly one preset marked default and the
//! active preset resolvable.

use vstd::prelude::*;
use crate::text::chars_of_str;
use crate::text::trim_chars;
use crate::text::spec_trim;
use crate::text::str_eq_str;
use crate::text::string_of_chars;

verus! {

/// The voice a preset asks for.
pub struct WritingStyle {
    pub tone: String,
    pub perspective: String,
    pub tense: String,
    pub description: String,
}

/// One writing-style preset.
pub struct WritingPreset {
    pub id: String,
    pub name: String,
    pub is_default: bool,
    pub style: WritingStyle,
    pub rules: Vec<String>,
    pub custom_prompt: String,
}

/// Presets with the resolved active preset.
pub struct PresetsPayload {
    pub presets: Vec<WritingPreset>,
    pub active_preset_id: String,
}

/// The built-in preset used when a project has none.
pub fn default_preset() -> (r: WritingPreset)
    ensures
        r.id@ == "default"@,
        r.name@ == "默认风格"@,
        r.is_default == true,
        r.rules@.len() == 0,
        r.custom_prompt@.len() == 0,
{
    proof {
        reveal_strlit("");
    }
    WritingPreset {
        id: "default".to_owned(),
        name: "默认风格".to_owned(),
        is_default: true,
        style: WritingStyle {
            tone: "自然流畅".to_owned(),
            perspective: "第三人称有限".to_owned(),
            tense: "过去式".to_owned(),
            description: "适中".to_owned(),
        },
        rules: Vec::new(),
        custom_prompt: "".to_owned(),
    }
}

fn clone_preset(p: &WritingPreset, is_default: bool) -> (r: WritingPreset)
    ensures
        r.id@ == p.id@,
        r.name@ == p.name@,
        r.is_default == is_default,
        r.style.tone@ == p.style.tone@,
        r.style.perspective@ == p.style.perspective@,
        r.style.tense@ == p.style.tense@,
        r.style.description@ == p.style.description@,
        r.rules.deep_view() == p.rules.deep_view(),
        r.custom_prompt@ == p.custom_prompt@,
{
    let mut rules: Vec<String> = Vec::new();
    let mut i: usize = 0;
    while i < p.rules.len()
        invariant
            i <= p.rules@.len(),
            rules.deep_view() =~= p.rules.deep_view().subrange(0, i as int),
        decreases p.rules@.len() - i,
    {
        let ghost before = rules.deep_view();
        rules.push(p.rules[i].clone());
        proof {
            assert(rules@.last()@ == p.rules@[i as int]@);
            assert(rules.deep_view() =~= before.push(p.rules@[i as int]@));
            assert(p.rules.deep_view()[i as int] == p.rules@[i as int]@);
            assert(rules.deep_view() =~= p.rules.deep_view().subrange(0, i + 1 as int));
        }
        i = i + 1;
    }
    assert(p.rules.deep_view().subrange(0, p.rules.deep_view().len() as int) =~= p.rules.deep_view());
    assert(p.rules.deep_view().len() == p.rules@.len());
    WritingPreset {
        id: p.id.clone(),
        name: p.name.clone(),
        is_default,
        style: WritingStyle {
            tone: p.style.tone.clone(),
            perspective: p.style.perspective.clone(),
            tense: p.style.tense.clone(),
            description: p.style.description.clone(),
        },
        rules,
        custom_prompt: p.custom_prompt.clone(),
    }
}

/// Exactly one preset is marked default.
pub open spec fn spec_one_default(s: Seq<WritingPreset>) -> bool {
    exists|i: int|
        0 <= i < s.len() && (#[trigger] s[i]).is_default && (forall|j: int|
            0 <= j < s.len() && j != i ==> !(#[trigger] s[j]).is_default)
}

/// The identifier names a preset of the list.
pub open spec fn spec_active_resolvable(s: Seq<WritingPreset>, active: Seq<char>) -> bool {
    exists|i: int| 0 <= i < s.len() && (#[trigger] s[i]).id@ == active
}

/// Law: normalization leaves the presets' content untouched (only the
/// default flags move), keeps exactly one preset marked default — the first
/// marked one, or the first preset —, supplies the built-in preset for an
/// empty list, and resolves the active identifier to a preset that exists:
/// the given one when present, else the default one.
pub fn normalize(presets: Vec<WritingPreset>, active: Option<String>) -> (r: (
    Vec<WritingPreset>,
    String,
))
    ensures
        presets@.len() == 0 ==> r.0@.len() == 1,
        presets@.len() > 0 ==> r.0@.len() == presets@.len(),
        presets@.len() > 0 ==> forall|i: int|
            0 <= i < presets@.len() ==> (#[trigger] r.0@[i]).id@ == presets@[i].id@
                && r.0@[i].name@ == presets@[i].name@,
        spec_one_default(r.0@),
        spec_active_resolvable(r.0@, r.1@),
        active matches Some(a) ==> ((spec_trim(a@).len() > 0 && spec_active_resolvable(
            r.0@,
            spec_trim(a@),
        )) ==> r.1@ == spec_trim(a@)),
{
    let mut list: Vec<WritingPreset> = Vec::new();
    if presets.len() == 0 {
        list.push(default_preset());
        proof {
            assert(list@[0].is_default);
            assert(forall|k: int| 0 <= k < list@.len() && k != 0 ==> !(#[trigger] list@[k]).is_default);
        }
    } else {
        let mut seen_default: bool = false;
        let mut i: usize = 0;
        while i < presets.len()
            invariant
                i <= presets@.len(),
                list@.len() == i,
                forall|j: int|
                    0 <= j < i ==> (#[trigger] list@[j]).id@ == presets@[j].id@ && list@[j].name@
                        == presets@[j].name@,
                seen_default <==> (exists|j: int| 0 <= j < i && (#[trigger] list@[j]).is_default),
                seen_default ==> (exists|j: int|
                    0 <= j < i && (#[trigger] list@[j]).is_default && (forall|k: int|
                        0 <= k < i && k != j ==> !(#[trigger] list@[k]).is_default)),
            decreases presets@.len() - i,
        {
            let keep_default = presets[i].is_default && !seen_default;
            let ghost old_list = list@;
            let copy = clone_preset(&presets[i], keep_default);
            list.push(copy);
            proof {
                if keep_default {
                    assert(list@[i as int].is_default);
                    assert(forall|k: int|
                        0 <= k < i + 1 && k != i ==> !(#[trigger] list@[k]).is_default);
                } else {
                    if seen_default {
                        let j = choose|j: int|
                            0 <= j < i && (#[trigger] old_list[j]).is_default && (forall|k: int|
                                0 <= k < i && k != j ==> !(#[trigger] old_list[k]).is_default);
                        assert(list@[j].is_default);
                        assert(forall|k: int|
                            0 <= k < i + 1 && k != j ==> !(#[trigger] list@[k]).is_default);
                    }
                }
            }
            seen_default = presets[i].is_default || seen_default;
            i = i + 1;
        }
        if !seen_default {
            let ghost old_list = list@;
            let first = clone_preset(&list[0], true);
            list.set(0, first);
            proof {
                assert(list@[0].is_default);
                assert(forall|k: int| 0 < k < list@.len() ==> !(#[trigger] list@[k]).is_default);
            }
        }
    }
    assert(spec_one_default(list@));
    let trimmed_active: Option<String> = match &active {
        Some(a) => {
            let t = trim_chars(&chars_of_str(a.as_str()));
            if t.len() == 0 {
                None
            } else {
                Some(string_of_chars(&t))
            }
        },
        None => None,
    };
    let resolved: String;
    match trimmed_active {
        Some(id) => {
            let mut hit: bool = false;
            let mut i: usize = 0;
            while i < list.len() && !hit
                invariant
                    i <= list@.len(),
                    hit ==> spec_active_resolvable(list@, id@),
                    !hit ==> forall|j: int| 0 <= j < i ==> (#[trigger] list@[j]).id@ != id@,
                decreases list@.len() - i,
            {
                if str_eq_str(list[i].id.as_str(), id.as_str()) {
                    hit = true;
                    assert(spec_active_resolvable(list@, id@));
                }
                i = i + 1;
            }
            if hit {
                resolved = id;
            } else {
                resolved = find_default_id(&list);
            }
        },
        None => {
            resolved = find_default_id(&list);
        },
    }
    (list, resolved)
}

fn find_default_id(list: &Vec<WritingPreset>) -> (r: String)
    requires
        spec_one_default(list@),
    ensures
        spec_active_resolvable(list@, r@),
{
    let mut i: usize = 0;
    while i < list.len()
        invariant
            i <= list@.len(),
            spec_one_default(list@),
            forall|j: int| 0 <= j < i ==> !(#[trigger] list@[j]).is_default,
        decreases list@.len() - i,
    {
        if list[i].is_default {
            return list[i].id.clone();
        }
        i = i + 1;
    }
    proof {
        let j = choose|j: int|
            0 <= j < list@.len() && (#[trigger] list@[j]).is_default && (forall|k: int|
                0 <= k < list@.len() && k != j ==> !(#[trigger] list@[k]).is_default);
        assert(!list@[j].is_default);
        assert(false);
    }
    list[0].id.clone()
}

} // verus!
