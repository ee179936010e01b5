//! Project bookkeeping: the project's configuration record and where the
//! project's metadata files live.

use vstd::prelude::*;
use crate::text::push_str_chars;
use crate::text::string_of_chars;

verus! {

/// Editor behaviour stored with the project.
pub struct ProjectSettings {
    pub auto_save: bool,
    pub auto_save_interval: u32,
}

/// The project's configuration record.
pub struct ProjectConfig {
    pub name: String,
    pub created: u64,
    pub updated: u64,
    pub version: String,
    pub settings: ProjectSettings,
}

/// The project configuration file's place under the project root.
pub fn config_path(project_root: &str) -> (r: String)
    ensures
        r@ == project_root@ + "/.creatorai/config.json"@,
{
    let mut out: Vec<char> = Vec::new();
    push_str_chars(&mut out, project_root);
    push_str_chars(&mut out, "/.creatorai/config.json");
    assert(out@ =~= project_root@ + "/.creatorai/config.json"@);
    string_of_chars(&out)
}

/// The chapter index file's place under the project root.
pub fn chapters_index_path(project_root: &str) -> (r: String)
    ensures
        r@ == project_root@ + "/chapters/index.json"@,
{
    let mut out: Vec<char> = Vec::new();
    push_str_chars(&mut out, project_root);
    push_str_chars(&mut out, "/chapters/index.json");
    assert(out@ =~= project_root@ + "/chapters/index.json"@);
    string_of_chars(&out)
}

/// A fresh project's configuration: created and updated now, the current
/// layout version, auto-save on with its default interval.
pub fn new_project_config(name: String, now: u64) -> (r: ProjectConfig)
    ensures
        r.name@ == name@,
        r.created == now,
        r.updated == now,
        r.version@ == "1.0"@,
        r.settings.auto_save == true,
        r.settings.auto_save_interval == 2000,
{
    ProjectConfig {
        name,
        created: now,
        updated: now,
        version: "1.0".to_owned(),
        settings: ProjectSettings { auto_save: true, auto_save_interval: 2000 },
    }
}

/// A fresh project's chapter index: empty, numbering from one.
pub fn empty_chapter_index() -> (r: crate::chapter::ChapterIndex)
    ensures
        r.chapters@.len() == 0,
        r.next_id == 1,
{
    crate::chapter::ChapterIndex { chapters: Vec::new(), next_id: 1 }
}

} // verus!
