//! Backup-protected mutation planning: where a backup of a file goes before
//! it is overwritten, which temporary sibling an atomic replace writes
//! first, and when a mutation must be refused outright.
//!
//! Executing the plan against the file system — copying to the backup,
//! writing the temporary file, renaming it onto the target, rolling back on
//! failure — is the caller's part.

use vstd::prelude::*;
use crate::text::chars_of_str;
use crate::text::push_chars;
use crate::text::push_str_chars;
use crate::text::string_of_chars;
use crate::text::decimal_chars;
use crate::text::spec_decimal;
use crate::text::spec_split;
use crate::text::split_chars;
use crate::text::lemma_split_len_pos;
use crate::text::lemma_decimal_injective;

verus! {

/// The backup location for a file: `.backup/<millis>/<relative>` under the
/// project root.
pub open spec fn spec_backup_path(root: Seq<char>, relative: Seq<char>, millis: nat) -> Seq<
    char,
> {
    root + "/.backup/"@ + spec_decimal(millis) + seq!['/'] + relative
}

/// The temporary sibling written before an atomic replace:
/// `<path>.tmp.<millis>`.
pub open spec fn spec_temp_path(path: Seq<char>, millis: nat) -> Seq<char> {
    path + ".tmp."@ + spec_decimal(millis)
}

/// Builds the backup path for a project-relative file.
pub fn backup_path_for(project_root: &str, relative: &Vec<char>, now_millis: u64) -> (r: String)
    ensures
        r@ == spec_backup_path(project_root@, relative@, now_millis as nat),
{
    let mut out: Vec<char> = Vec::new();
    push_str_chars(&mut out, project_root);
    push_str_chars(&mut out, "/.backup/");
    let digits = decimal_chars(now_millis);
    push_chars(&mut out, &digits);
    out.push('/');
    push_chars(&mut out, relative);
    assert(out@ =~= spec_backup_path(project_root@, relative@, now_millis as nat));
    string_of_chars(&out)
}

/// Law: backups taken at different instants never land on the same path, so
/// a second write of the same file keeps the first write's backup intact.
pub proof fn lemma_backup_paths_distinct(
    root: Seq<char>,
    relative: Seq<char>,
    t1: nat,
    t2: nat,
)
    requires
        t1 != t2,
    ensures
        spec_backup_path(root, relative, t1) != spec_backup_path(root, relative, t2),
{
    lemma_decimal_injective(t1, t2);
    let p1 = spec_backup_path(root, relative, t1);
    let p2 = spec_backup_path(root, relative, t2);
    let d1 = spec_decimal(t1);
    let d2 = spec_decimal(t2);
    if p1 == p2 {
        let base = root + "/.backup/"@;
        if d1.len() == d2.len() {
            assert(d1 =~= d2) by {
                assert(forall|i: int|
                    0 <= i < d1.len() ==> p1[base.len() + i as int] == d1[i] && p2[base.len() + i as int]
                        == d2[i]);
            }
        } else {
            crate::text::lemma_decimal_all_digits(t1);
            crate::text::lemma_decimal_all_digits(t2);
            if d1.len() < d2.len() {
                assert(p1[base.len() + d1.len() as int] == '/');
                assert(p2[base.len() + d1.len() as int] == d2[d1.len() as int]);
                assert('0' <= d2[d1.len() as int] <= '9');
                assert(('/' as u32) == 47);
                assert(('0' as u32) == 48);
                assert(('9' as u32) == 57);
            } else {
                assert(p2[base.len() + d2.len() as int] == '/');
                assert(p1[base.len() + d2.len() as int] == d1[d2.len() as int]);
                assert('0' <= d1[d2.len() as int] <= '9');
                assert(('/' as u32) == 47);
                assert(('0' as u32) == 48);
                assert(('9' as u32) == 57);
            }
        }
    }
}

/// Builds the temporary-file path beside the target; fails when the path
/// has no final name segment.
pub fn temp_path_for(full_path: &str, now_millis: u64) -> (r: Result<String, String>)
    ensures
        r matches Ok(p) ==> p@ == spec_temp_path(full_path@, now_millis as nat),
        r is Err <==> spec_split(full_path@, '/').last().len() == 0,
{
    let chars = chars_of_str(full_path);
    let parts = split_chars(&chars, '/');
    proof {
        lemma_split_len_pos(full_path@, '/');
    }
    assert(parts.deep_view().len() == parts@.len());
    let last = &parts[parts.len() - 1];
    assert(last@ == parts.deep_view().last());
    if last.len() == 0 {
        let mut msg = String::new();
        msg.append("Invalid file name: '");
        msg.append(full_path);
        msg.append("'");
        return Err(msg);
    }
    let mut out: Vec<char> = Vec::new();
    push_chars(&mut out, &chars);
    push_str_chars(&mut out, ".tmp.");
    let digits = decimal_chars(now_millis);
    push_chars(&mut out, &digits);
    assert(out@ =~= spec_temp_path(full_path@, now_millis as nat));
    Ok(string_of_chars(&out))
}

/// What a backup-protected write must do, in order: copy the target to the
/// backup first when one is named, write the whole content to the temporary
/// sibling, rename it onto the target, and on a failed rename fall back to
/// the backup (or delete a fresh target).
pub struct WritePlan {
    /// Where the pre-mutation copy goes; nothing is backed up for a target
    /// that does not exist yet.
    pub backup_path: Option<String>,
    /// The temporary sibling that takes the content before the rename.
    pub temp_path: String,
    /// The file being replaced.
    pub target: String,
}

/// Plans one backup-protected write of `full_path` under `project_root`.
/// `relative` names the target inside the project; `target_exists` and
/// `target_is_dir` report what the file system says of the target.
pub fn write_string_with_backup(
    project_root: &str,
    full_path: &str,
    relative: &Vec<char>,
    target_exists: bool,
    target_is_dir: bool,
    now_millis: u64,
) -> (r: Result<WritePlan, String>)
    ensures
        target_exists && target_is_dir ==> r is Err,
        r matches Ok(plan) ==> {
            &&& plan.target@ == full_path@
            &&& plan.temp_path@ == spec_temp_path(full_path@, now_millis as nat)
            &&& (target_exists <==> plan.backup_path is Some)
            &&& (plan.backup_path matches Some(b) ==> b@ == spec_backup_path(
                project_root@,
                relative@,
                now_millis as nat,
            ))
        },
        target_exists && !target_is_dir && spec_split(full_path@, '/').last().len() > 0 ==> r
            is Ok,
        !target_exists && spec_split(full_path@, '/').last().len() > 0 ==> r is Ok,
{
    if target_exists && target_is_dir {
        let mut msg = String::new();
        msg.append("'");
        msg.append(full_path);
        msg.append("' is a directory");
        return Err(msg);
    }
    let temp_path = match temp_path_for(full_path, now_millis) {
        Ok(p) => p,
        Err(e) => {
            return Err(e);
        },
    };
    let backup_path = if target_exists {
        Some(backup_path_for(project_root, relative, now_millis))
    } else {
        None
    };
    Ok(WritePlan { backup_path, temp_path, target: full_path.to_owned() })
}

} // verus!
