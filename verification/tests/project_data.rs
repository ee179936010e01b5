use creatorai::chapter::{
    chapter_txt_relative_path, format_chapter_id, index_has_chapter, next_order,
    sort_chapters_by_order, update_word_count_and_timestamp, validate_chapter_id, ChapterIndex,
    ChapterMeta,
};
use creatorai::file_ops::list::{is_hidden, is_ignored_dir, select_entries, FileEntry};
use creatorai::file_ops::search::{is_ignored_dir_name, match_lines};
use creatorai::import::{normalize_content, parse_chapters_from_text};
use creatorai::presets::{default_preset, normalize};
use creatorai::rag::{is_supported_doc_path, normalize_doc_path, set_doc_enabled, RagConfig};
use creatorai::recent::{add_recent, RecentProject};
use creatorai::security::validate_path;
use creatorai::summary::{append_summary, latest_summary, SummaryEntry};
use creatorai::text::count_words;
use creatorai::write_protection::{backup_path_for, temp_path_for, write_string_with_backup};

fn meta(id: &str, order: u32, word_count: u32) -> ChapterMeta {
    ChapterMeta {
        id: id.to_string(),
        title: format!("title {id}"),
        order,
        created: 1,
        updated: 2,
        word_count,
    }
}

#[test]
fn parent_components_are_rejected_lexically() {
    let r = validate_path(".", "../outside.txt");
    assert_eq!(r.err().as_deref(), Some("Parent directory '..' is not allowed"));
    let r = validate_path(".", "a/../b.txt");
    assert_eq!(r.err().as_deref(), Some("Parent directory '..' is not allowed"));
    let r = validate_path(".", "a/..");
    assert_eq!(r.err().as_deref(), Some("Parent directory '..' is not allowed"));
}

#[test]
fn absolute_paths_are_rejected() {
    let r = validate_path(".", "/etc/passwd");
    assert_eq!(r.err().as_deref(), Some("Absolute paths are not allowed"));
}

#[test]
fn missing_project_root_is_an_error() {
    let r = validate_path("./no-such-directory-here", "a.txt");
    assert!(r.err().unwrap().starts_with("Invalid project_dir: "));
}

#[test]
fn empty_relative_path_resolves_to_root() {
    let root = validate_path(".", "").expect("root resolves");
    let with_dot = validate_path(".", ".").expect("dot resolves");
    assert_eq!(root, with_dot);
}

#[test]
fn fresh_suffix_is_attached_to_existing_ancestor() {
    let root = validate_path(".", "").expect("root resolves");
    let r = validate_path(".", "brand/new/file.txt").expect("fresh path resolves");
    assert_eq!(r, format!("{root}/brand/new/file.txt"));
}

#[test]
fn backup_and_temp_paths_are_deterministic() {
    let rel: Vec<char> = "chapters/chapter_001.txt".chars().collect();
    assert_eq!(
        backup_path_for("/p", &rel, 17),
        "/p/.backup/17/chapters/chapter_001.txt"
    );
    assert_eq!(temp_path_for("/p/a.txt", 17).ok().as_deref(), Some("/p/a.txt.tmp.17"));
    assert!(temp_path_for("/p/a.txt/", 17).is_err());
}

#[test]
fn sequential_writes_take_separate_backups() {
    let rel: Vec<char> = "a.txt".chars().collect();
    let first = write_string_with_backup("/p", "/p/a.txt", &rel, true, false, 100).expect("plan");
    let second = write_string_with_backup("/p", "/p/a.txt", &rel, true, false, 101).expect("plan");
    let b1 = first.backup_path.expect("backup planned");
    let b2 = second.backup_path.expect("backup planned");
    assert_ne!(b1, b2);
    assert_eq!(b1, "/p/.backup/100/a.txt");
    assert_eq!(b2, "/p/.backup/101/a.txt");
}

#[test]
fn directory_targets_are_refused() {
    let rel: Vec<char> = "dir".chars().collect();
    let r = write_string_with_backup("/p", "/p/dir", &rel, true, true, 1);
    assert_eq!(r.err().as_deref(), Some("'/p/dir' is a directory"));
}

#[test]
fn fresh_targets_take_no_backup() {
    let rel: Vec<char> = "new.txt".chars().collect();
    let plan = write_string_with_backup("/p", "/p/new.txt", &rel, false, false, 5).expect("plan");
    assert!(plan.backup_path.is_none());
    assert_eq!(plan.temp_path, "/p/new.txt.tmp.5");
}

#[test]
fn appending_updates_only_that_chapter() {
    let mut index = ChapterIndex {
        chapters: vec![meta("chapter_001", 1, 10), meta("chapter_003", 3, 4)],
        next_id: 4,
    };
    let found = update_word_count_and_timestamp(&mut index, "chapter_003", 9, 777);
    assert!(found);
    assert_eq!(index.chapters[0].word_count, 10);
    assert_eq!(index.chapters[0].updated, 2);
    assert_eq!(index.chapters[1].word_count, 9);
    assert_eq!(index.chapters[1].updated, 777);
    assert_eq!(index.chapters[1].title, "title chapter_003");
    assert_eq!(index.next_id, 4);

    let missing = update_word_count_and_timestamp(&mut index, "chapter_009", 1, 778);
    assert!(!missing);
}

#[test]
fn chapter_identifiers_follow_the_convention() {
    assert!(validate_chapter_id("chapter_001").is_ok());
    assert!(validate_chapter_id("chapter_").is_err());
    assert!(validate_chapter_id("chap_001").is_err());
    assert_eq!(format_chapter_id(3), "chapter_003");
    assert_eq!(format_chapter_id(1234), "chapter_1234");
    assert_eq!(chapter_txt_relative_path("chapter_003"), "chapters/chapter_003.txt");
}

#[test]
fn chapter_orders_grow_and_sort() {
    let chapters = vec![meta("chapter_002", 2, 0), meta("chapter_001", 1, 0)];
    assert_eq!(next_order(&chapters), 3);
    assert_eq!(next_order(&Vec::new()), 1);
    assert!(index_has_chapter(&chapters, "chapter_001"));
    assert!(!index_has_chapter(&chapters, "chapter_009"));
    let sorted = sort_chapters_by_order(chapters);
    assert_eq!(sorted[0].id, "chapter_001");
    assert_eq!(sorted[1].id, "chapter_002");
}

#[test]
fn word_counts_ignore_whitespace() {
    assert_eq!(count_words("hello"), 5);
    assert_eq!(count_words("a b\tc\nd"), 4);
    assert_eq!(count_words(" \n\t"), 0);
    assert_eq!(count_words("你好 世界"), 4);
}

#[test]
fn summaries_append_and_resolve_latest() {
    let mut summaries: Vec<SummaryEntry> = Vec::new();
    let r = append_summary(&mut summaries, " ".to_string(), "text".to_string(), 1);
    assert_eq!(r.err().as_deref(), Some("chapterId is empty"));
    let r = append_summary(&mut summaries, "chapter_001".to_string(), "\n".to_string(), 1);
    assert_eq!(r.err().as_deref(), Some("summary is empty"));

    append_summary(&mut summaries, "chapter_001".to_string(), "第一".to_string(), 10).expect("save summary 1");
    append_summary(&mut summaries, "chapter_001".to_string(), "第二".to_string(), 20).expect("save summary 2");
    append_summary(&mut summaries, "chapter_002".to_string(), "另".to_string(), 30).expect("save summary 3");
    assert_eq!(summaries.len(), 3);
    assert_eq!(summaries[0].summary, "第一");
    assert_eq!(summaries[1].summary, "第二");

    let latest = latest_summary(&summaries, "chapter_001").expect("latest");
    assert_eq!(latest.summary, "第二");
    assert_eq!(latest.created_at, 20);
    assert!(latest_summary(&summaries, "chapter_009").is_none());
}

#[test]
fn listing_filters_and_sorts() {
    let entries = vec![
        FileEntry { name: "zeta.txt".to_string(), is_dir: false, size: 1, modified: 0 },
        FileEntry { name: ".hidden".to_string(), is_dir: false, size: 1, modified: 0 },
        FileEntry { name: "node_modules".to_string(), is_dir: true, size: 0, modified: 0 },
        FileEntry { name: "alpha.txt".to_string(), is_dir: false, size: 2, modified: 0 },
        FileEntry { name: "node_modules".to_string(), is_dir: false, size: 3, modified: 0 },
    ];
    let r = select_entries(entries);
    let names: Vec<&str> = r.entries.iter().map(|e| e.name.as_str()).collect();
    assert_eq!(names, vec!["alpha.txt", "node_modules", "zeta.txt"]);
    assert!(is_hidden(".git"));
    assert!(!is_hidden("src"));
    assert!(is_ignored_dir(".backup"));
    assert!(!is_ignored_dir("chapters"));
}

#[test]
fn search_matches_are_numbered_and_capped() {
    let found = match_lines("notes.txt", "ab\ncd\nab\nab", "ab", 2);
    assert_eq!(found.len(), 2);
    assert_eq!(found[0].file, "notes.txt");
    assert_eq!(found[0].line, 1);
    assert_eq!(found[0].content, "ab");
    assert_eq!(found[1].line, 3);
    assert!(is_ignored_dir_name("node_modules"));
    assert!(!is_ignored_dir_name(".backup"));
}

#[test]
fn presets_normalize_to_one_default() {
    let (presets, active) = normalize(Vec::new(), None);
    assert_eq!(presets.len(), 1);
    assert!(presets[0].is_default);
    assert_eq!(active, "default");

    let mut a = default_preset();
    a.id = "a".to_string();
    a.is_default = true;
    let mut b = default_preset();
    b.id = "b".to_string();
    b.is_default = true;
    let (presets, active) = normalize(vec![a, b], Some("b".to_string()));
    assert!(presets[0].is_default);
    assert!(!presets[1].is_default);
    assert_eq!(active, "b");

    let mut c = default_preset();
    c.id = "c".to_string();
    c.is_default = false;
    let (presets, active) = normalize(vec![c], Some("missing".to_string()));
    assert!(presets[0].is_default);
    assert_eq!(active, "c");
}

#[test]
fn recent_projects_dedupe_by_path() {
    let r = add_recent(Vec::new(), " ", "/p", 1);
    assert_eq!(r.err().as_deref(), Some("Project name is empty"));
    let r = add_recent(Vec::new(), "Novel", "  ", 1);
    assert_eq!(r.err().as_deref(), Some("Project path is empty"));

    let first = add_recent(Vec::new(), "Novel", "/p/one", 10).expect("add");
    let second = add_recent(first, "Other", "/p/two", 20).expect("add");
    let third = add_recent(second, "Renamed", "/p/one", 30).expect("add");
    assert_eq!(third.len(), 2);
    assert_eq!(third[0].path, "/p/one");
    assert_eq!(third[0].name, "Renamed");
    assert_eq!(third[0].last_opened, 30);
    assert_eq!(third[1].path, "/p/two");
    let _ = RecentProject { name: "n".to_string(), path: "p".to_string(), last_opened: 0 };
}

#[test]
fn knowledge_paths_are_validated() {
    assert_eq!(normalize_doc_path(" knowledge/a.md ").ok().as_deref(), Some("knowledge/a.md"));
    assert_eq!(normalize_doc_path("  ").err().as_deref(), Some("docPath is empty"));
    assert_eq!(
        normalize_doc_path("notes/a.md").err().as_deref(),
        Some("docPath must be under knowledge/")
    );
    assert!(is_supported_doc_path("knowledge/a.txt"));
    assert!(is_supported_doc_path("knowledge/a.TXT"));
    assert!(is_supported_doc_path("knowledge/b.markdown"));
    assert!(!is_supported_doc_path("knowledge/c.doc"));
    assert!(!is_supported_doc_path("knowledge/.md"));
    assert!(!is_supported_doc_path("knowledge/noext"));
}

#[test]
fn enabling_documents_is_a_set_update() {
    let config = RagConfig { schema_version: 1, enabled_paths: vec!["knowledge/b.md".to_string()] };
    let enabled = set_doc_enabled(&config, "knowledge/a.md", true);
    let paths: Vec<&str> = enabled.enabled_paths.iter().map(|p| p.as_str()).collect();
    assert_eq!(paths, vec!["knowledge/a.md", "knowledge/b.md"]);
    let disabled = set_doc_enabled(&enabled, "knowledge/b.md", false);
    let paths: Vec<&str> = disabled.enabled_paths.iter().map(|p| p.as_str()).collect();
    assert_eq!(paths, vec!["knowledge/a.md"]);
}

#[test]
fn bom_is_stripped_from_imports() {
    assert_eq!(normalize_content("\u{feff}第一章".to_string()), "第一章");
    assert_eq!(normalize_content("第一章".to_string()), "第一章");
}

#[test]
fn parse_chapters_uses_multiline_anchors() {
    let text = "前言\n第一章 开端\nhello\n\n第二章 转折\nworld\n";
    let chapters = parse_chapters_from_text(text, "^第.+章.*").expect("parse");
    assert_eq!(chapters.len(), 2);
    assert_eq!(chapters[0].title, "第一章 开端");
    assert_eq!(chapters[0].content, "hello");
    assert_eq!(chapters[0].word_count, 5);
    assert_eq!(chapters[1].title, "第二章 转折");
    assert_eq!(chapters[1].content, "world");
    assert_eq!(chapters[1].word_count, 5);
}

#[test]
fn parse_chapters_empty_pattern_falls_back_to_default() {
    let text = "第一章\nA\n第二章\nB\n";
    let chapters = parse_chapters_from_text(text, "").expect("parse");
    assert_eq!(chapters.len(), 2);
    assert_eq!(chapters[0].title, "第一章");
    assert_eq!(chapters[0].content, "A");
    assert_eq!(chapters[1].title, "第二章");
    assert_eq!(chapters[1].content, "B");
}

#[test]
fn invalid_patterns_are_refused() {
    let r = parse_chapters_from_text("x", "(");
    assert!(r.err().unwrap().starts_with("Invalid regex pattern: "));
}

#[test]
fn deleting_renumbers_remaining_chapters() {
    let index = ChapterIndex {
        chapters: vec![meta("chapter_001", 1, 0), meta("chapter_002", 2, 0), meta("chapter_003", 3, 0)],
        next_id: 4,
    };
    let updated = creatorai::chapter::delete_chapter_update(index, "chapter_002", 9).expect("delete");
    let ids: Vec<&str> = updated.chapters.iter().map(|c| c.id.as_str()).collect();
    assert_eq!(ids, vec!["chapter_001", "chapter_003"]);
    assert_eq!(updated.chapters[0].order, 1);
    assert_eq!(updated.chapters[1].order, 2);
    assert_eq!(updated.chapters[1].updated, 9);
    assert_eq!(updated.next_id, 4);

    let empty = ChapterIndex { chapters: Vec::new(), next_id: 1 };
    let r = creatorai::chapter::delete_chapter_update(empty, "chapter_001", 9);
    assert_eq!(r.err().as_deref(), Some("Chapter not found"));
}

#[test]
fn reordering_follows_the_given_identifiers() {
    let index = ChapterIndex {
        chapters: vec![meta("chapter_001", 1, 0), meta("chapter_002", 2, 0)],
        next_id: 3,
    };
    let ids = vec!["chapter_002".to_string(), "chapter_001".to_string()];
    let updated = creatorai::chapter::reorder_chapters_update(index, &ids, 9).expect("reorder");
    assert_eq!(updated.chapters[0].id, "chapter_002");
    assert_eq!(updated.chapters[0].order, 1);
    assert_eq!(updated.chapters[1].id, "chapter_001");
    assert_eq!(updated.chapters[1].order, 2);

    let small = ChapterIndex { chapters: vec![meta("chapter_001", 1, 0)], next_id: 2 };
    let r = creatorai::chapter::reorder_chapters_update(small, &Vec::new(), 9);
    assert_eq!(r.err().as_deref(), Some("chapter_ids is empty"));
    let small = ChapterIndex { chapters: vec![meta("chapter_001", 1, 0)], next_id: 2 };
    let dup = vec!["chapter_001".to_string(), "chapter_001".to_string()];
    let r = creatorai::chapter::reorder_chapters_update(small, &dup, 9);
    assert_eq!(r.err().as_deref(), Some("chapter_ids must include all chapters"));
}

#[test]
fn chunking_overlaps_and_skips_blanks() {
    let chunks = creatorai::rag::chunk_text("abcdefgh", 4, 1);
    assert_eq!(chunks, vec!["abcd", "defg", "gh"]);
    let whole = creatorai::rag::chunk_text("abc", 2, 2);
    assert_eq!(whole, vec!["abc"]);
    let blank = creatorai::rag::chunk_text("  \n ", 4, 1);
    assert!(blank.is_empty());
}

#[test]
fn renaming_touches_only_that_chapter() {
    let mut index = ChapterIndex {
        chapters: vec![meta("chapter_001", 1, 0), meta("chapter_002", 2, 0)],
        next_id: 3,
    };
    creatorai::chapter::rename_chapter_update(&mut index, "chapter_002", "新标题", 9)
        .expect("rename");
    assert_eq!(index.chapters[1].title, "新标题");
    assert_eq!(index.chapters[1].updated, 9);
    assert_eq!(index.chapters[0].title, "title chapter_001");
    let r = creatorai::chapter::rename_chapter_update(&mut index, "chapter_009", "x", 9);
    assert_eq!(r.err().as_deref(), Some("Chapter not found"));
}
