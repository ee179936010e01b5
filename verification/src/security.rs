//! Path containment: resolves a user-supplied relative path against a
//! project root, rejecting absolute paths and parent-directory traversal
//! outright, and defeating symlink escapes by canonicalizing the deepest
//! existing ancestor of the candidate path.
//!
//! Paths are treated as `/`-separated strings.

use vstd::prelude::*;
use crate::text::chars_of_str;
use crate::text::chars_eq_str;
use crate::text::spec_split;
use crate::text::split_chars;
use crate::text::string_of_chars;
use crate::text::push_chars;

verus! {

/// Whether the path is absolute: it starts with a separator.
pub open spec fn spec_is_absolute(s: Seq<char>) -> bool {
    s.len() > 0 && s[0] == '/'
}

/// Whether some `/`-separated segment of the path is `..`.
pub open spec fn spec_has_dotdot(s: Seq<char>) -> bool {
    exists|i: int|
        0 <= i < spec_split(s, '/').len() && #[trigger] spec_split(s, '/')[i] == seq!['.', '.']
}

/// Path segments with empty and `.` segments dropped.
pub open spec fn spec_clean_segments(parts: Seq<Seq<char>>) -> Seq<Seq<char>>
    decreases parts,
{
    if parts.len() == 0 {
        Seq::empty()
    } else {
        spec_clean_segments(parts.drop_last()) + if parts.last().len() == 0 || parts.last()
            == seq!['.'] {
            Seq::<Seq<char>>::empty()
        } else {
            seq![parts.last()]
        }
    }
}

/// The meaningful components of a relative path.
pub open spec fn spec_components(s: Seq<char>) -> Seq<Seq<char>> {
    spec_clean_segments(spec_split(s, '/'))
}

/// Why a relative path is rejected before touching the file system.
pub enum RelPathError {
    /// The path is absolute.
    Absolute,
    /// The path holds a `..` segment.
    ParentDir,
}

/// Splits a relative path into its cleaned components, rejecting absolute
/// paths and `..` segments.
pub fn clean_relative(rel: &Vec<char>) -> (r: Result<Vec<Vec<char>>, RelPathError>)
    ensures
        r matches Err(RelPathError::Absolute) <==> spec_is_absolute(rel@),
        r matches Err(RelPathError::ParentDir) <==> (!spec_is_absolute(rel@) && spec_has_dotdot(
            rel@,
        )),
        r matches Ok(comps) ==> comps.deep_view() == spec_components(rel@) && !spec_is_absolute(
            rel@,
        ) && !spec_has_dotdot(rel@),
{
    if rel.len() > 0 && rel[0] == '/' {
        return Err(RelPathError::Absolute);
    }
    let parts = split_chars(rel, '/');
    let ghost pview = parts.deep_view();
    let mut comps: Vec<Vec<char>> = Vec::new();
    let mut i: usize = 0;
    while i < parts.len()
        invariant
            i <= parts@.len(),
            pview == parts.deep_view(),
            pview == spec_split(rel@, '/'),
            comps.deep_view() == spec_clean_segments(pview.subrange(0, i as int)),
            forall|j: int| 0 <= j < i ==> #[trigger] pview[j] != seq!['.', '.'],
            !spec_is_absolute(rel@),
        decreases parts@.len() - i,
    {
        let ghost pre = pview.subrange(0, i as int);
        let ghost post = pview.subrange(0, i + 1 as int);
        assert(post.drop_last() =~= pre);
        assert(post.last() == pview[i as int]);
        let part = &parts[i];
        assert(pview[i as int] =~= part@);
        proof {
            reveal_strlit("..");
            reveal_strlit(".");
            assert(".."@ =~= seq!['.', '.']);
            assert("."@ =~= seq!['.']);
        }
        if chars_eq_str(part, "..") {
            assert(pview[i as int] == seq!['.', '.']);
            return Err(RelPathError::ParentDir);
        }
        assert(pview[i as int] != seq!['.', '.']);
        if part.len() == 0 {
            assert(comps.deep_view() =~~= spec_clean_segments(post));
        } else if chars_eq_str(part, ".") {
            assert(pview[i as int] == seq!['.']);
            assert(comps.deep_view() =~~= spec_clean_segments(post));
        } else {
            let ghost before = comps.deep_view();
            let copy = crate::text::subrange_chars(part, 0, part.len());
            assert(copy@ =~= pview[i as int]);
            comps.push(copy);
            assert(comps.deep_view() =~~= before.push(pview[i as int]));
            assert(comps.deep_view() =~~= spec_clean_segments(post));
        }
        i = i + 1;
    }
    assert(pview.subrange(0, pview.len() as int) =~= pview);
    Ok(comps)
}

/// `base` with the components `comps` appended, each behind one separator.
pub open spec fn spec_join(base: Seq<char>, comps: Seq<Seq<char>>) -> Seq<char>
    decreases comps,
{
    if comps.len() == 0 {
        base
    } else {
        spec_join(base, comps.drop_last()) + seq!['/'] + comps.last()
    }
}

/// Joins components `from..to` of `comps` onto `base`.
pub fn join_path(base: &Vec<char>, comps: &Vec<Vec<char>>, from: usize, to: usize) -> (r: Vec<
    char,
>)
    requires
        from <= to <= comps@.len(),
    ensures
        r@ == spec_join(base@, comps.deep_view().subrange(from as int, to as int)),
{
    let mut r: Vec<char> = Vec::new();
    push_chars(&mut r, base);
    assert(r@ =~= base@);
    let ghost cview = comps.deep_view();
    let mut i: usize = from;
    assert(r@ =~= spec_join(base@, cview.subrange(from as int, from as int)));
    while i < to
        invariant
            from <= i <= to <= comps@.len(),
            cview == comps.deep_view(),
            cview.len() == comps@.len(),
            r@ == spec_join(base@, cview.subrange(from as int, i as int)),
        decreases to - i,
    {
        let ghost pre = cview.subrange(from as int, i as int);
        let ghost post = cview.subrange(from as int, i + 1 as int);
        assert(post.drop_last() =~= pre);
        assert(post.last() == cview[i as int]);
        r.push('/');
        push_chars(&mut r, &comps[i]);
        assert(r@ =~= spec_join(base@, post));
        i = i + 1;
    }
    r
}

/// Whether `sub` is a prefix of `s`.
pub open spec fn spec_is_prefix(sub: Seq<char>, s: Seq<char>) -> bool {
    sub.len() <= s.len() && s.subrange(0, sub.len() as int) == sub
}

/// Whether path `path` starts with path `base` at a component boundary:
/// either they are equal, or `path` continues `base` behind a separator.
pub open spec fn spec_path_starts_with(path: Seq<char>, base: Seq<char>) -> bool {
    path == base || (base.len() > 0 && base.last() == '/' && spec_is_prefix(base, path))
        || spec_is_prefix(base + seq!['/'], path)
}

/// Whether the character path `path` starts with `base` at a component
/// boundary.
pub fn path_starts_with(path: &Vec<char>, base: &Vec<char>) -> (r: bool)
    ensures
        r == spec_path_starts_with(path@, base@),
{
    if path.len() == base.len() {
        let mut i: usize = 0;
        let mut eq = true;
        while i < base.len()
            invariant
                i <= base@.len(),
                path@.len() == base@.len(),
                eq == (forall|j: int| 0 <= j < i ==> path@[j] == base@[j]),
            decreases base@.len() - i,
        {
            if path[i] != base[i] {
                eq = false;
            }
            i = i + 1;
        }
        if eq {
            assert(path@ =~= base@);
            return true;
        }
    }
    if base.len() > 0 && base[base.len() - 1] == '/' {
        if path.len() >= base.len() {
            let mut i: usize = 0;
            let mut eq = true;
            while i < base.len()
                invariant
                    i <= base@.len(),
                    path@.len() >= base@.len(),
                    eq == (forall|j: int| 0 <= j < i ==> path@[j] == base@[j]),
                decreases base@.len() - i,
            {
                if path[i] != base[i] {
                    eq = false;
                }
                i = i + 1;
            }
            if eq {
                assert(path@.subrange(0, base@.len() as int) =~= base@);
                return true;
            }
            assert(path@.subrange(0, base@.len() as int) != base@) by {
                let k = choose|j: int| 0 <= j < base@.len() && path@[j] != base@[j];
                assert(path@.subrange(0, base@.len() as int)[k] == path@[k]);
            }
        }
    }
    let mut slashed: Vec<char> = Vec::new();
    push_chars(&mut slashed, base);
    slashed.push('/');
    assert(slashed@ =~= base@ + seq!['/']);
    if path.len() >= slashed.len() {
        let mut i: usize = 0;
        let mut eq = true;
        while i < slashed.len()
            invariant
                i <= slashed@.len(),
                path@.len() >= slashed@.len(),
                eq == (forall|j: int| 0 <= j < i ==> path@[j] == slashed@[j]),
            decreases slashed@.len() - i,
        {
            if path[i] != slashed[i] {
                eq = false;
            }
            i = i + 1;
        }
        if eq {
            assert(path@.subrange(0, slashed@.len() as int) =~= slashed@);
            return true;
        }
        assert(path@.subrange(0, slashed@.len() as int) != slashed@) by {
            let k = choose|j: int| 0 <= j < slashed@.len() && path@[j] != slashed@[j];
            assert(path@.subrange(0, slashed@.len() as int)[k] == path@[k]);
        }
    }
    false
}

/// Relies on std::path::Path::canonicalize: it resolves symlinks and `.`/`..`
/// indirections against the file system and fails when the path does not
/// exist; the error text comes from the underlying I/O error.
#[verifier::external_body]
fn canonicalize_path(p: &str) -> (r: Result<String, String>) {
    match std::path::Path::new(p).canonicalize() {
        Ok(b) => Ok(b.to_string_lossy().into_owned()),
        Err(e) => Err(e.to_string()),
    }
}

/// Relies on std::path::Path::exists: whether the path points at an existing
/// entity, following symlinks.
#[verifier::external_body]
fn path_exists(p: &str) -> (r: bool) {
    std::path::Path::new(p).exists()
}

/// Resolves `relative_path` against `project_dir`, guaranteeing the result
/// stays inside the canonical project root.
///
/// The path is first rejected lexically when it is absolute or holds a `..`
/// segment. The candidate is then checked against the file system: the
/// deepest existing ancestor is canonicalized, so a symlink inside the
/// project that points outside of it is caught even when the final segment
/// does not exist yet.
pub fn validate_path(project_dir: &str, relative_path: &str) -> (r: Result<String, String>)
    ensures
        spec_is_absolute(relative_path@) ==> r is Err,
        spec_has_dotdot(relative_path@) ==> r is Err,
        r is Ok ==> !spec_is_absolute(relative_path@) && !spec_has_dotdot(relative_path@),
        spec_is_absolute(relative_path@) && relative_path@.len() > 0 ==> (r matches Err(m) && (m@
            == "Absolute paths are not allowed"@ || spec_is_prefix("Invalid project_dir: "@, m@))),
        !spec_is_absolute(relative_path@) && spec_has_dotdot(relative_path@) ==> (r matches Err(m)
            && (m@ == "Parent directory '..' is not allowed"@ || spec_is_prefix(
            "Invalid project_dir: "@,
            m@,
        ))),
{
    let canon_root = match canonicalize_path(project_dir) {
        Ok(c) => c,
        Err(e) => {
            let mut msg = String::new();
            msg.append("Invalid project_dir: ");
            msg.append(e.as_str());
            proof {
                reveal_strlit("Invalid project_dir: ");
            }
            assert(spec_is_prefix("Invalid project_dir: "@, msg@)) by {
                assert(msg@.subrange(0, "Invalid project_dir: "@.len() as int)
                    =~= "Invalid project_dir: "@);
            }
            return Err(msg);
        },
    };
    let rel_chars = chars_of_str(relative_path);
    if rel_chars.len() == 0 {
        proof {
            assert(spec_split(relative_path@, '/') =~= seq![Seq::<char>::empty()]);
            assert(!spec_has_dotdot(relative_path@)) by {
                if spec_has_dotdot(relative_path@) {
                    let i = choose|i: int|
                        0 <= i < spec_split(relative_path@, '/').len() && spec_split(
                            relative_path@,
                            '/',
                        )[i] == seq!['.', '.'];
                    assert(spec_split(relative_path@, '/')[i] =~= Seq::<char>::empty());
                }
            }
        }
        return Ok(canon_root);
    }
    let comps = match clean_relative(&rel_chars) {
        Ok(c) => c,
        Err(RelPathError::Absolute) => {
            return Err("Absolute paths are not allowed".to_owned());
        },
        Err(RelPathError::ParentDir) => {
            return Err("Parent directory '..' is not allowed".to_owned());
        },
    };
    let root_chars = chars_of_str(canon_root.as_str());
    let n = comps.len();
    let mut k: usize = n;
    while k > 0
        invariant_except_break
            k <= n,
            n == comps@.len(),
        ensures
            k <= n,
            n == comps@.len(),
        decreases k,
    {
        let candidate = join_path(&root_chars, &comps, 0, k);
        let cand_str = string_of_chars(&candidate);
        if path_exists(cand_str.as_str()) {
            break;
        }
        k = k - 1;
    }
    let existing = string_of_chars(&join_path(&root_chars, &comps, 0, k));
    let canon_anc = match canonicalize_path(existing.as_str()) {
        Ok(c) => c,
        Err(e) => {
            let mut msg = String::new();
            msg.append("Failed to resolve path: ");
            msg.append(e.as_str());
            return Err(msg);
        },
    };
    let anc_chars = chars_of_str(canon_anc.as_str());
    if !path_starts_with(&anc_chars, &root_chars) {
        return Err("Path escapes project_dir".to_owned());
    }
    let result = join_path(&anc_chars, &comps, k, n);
    Ok(string_of_chars(&result))
}

} // verus!
