use vidio::app::{App, AppState, FileFilter};
use vidio::storage::{
    ensure_managed_path, is_artifact_name, newest_first, path_starts_with, FileEntry, FileType, StorageError, StorageService,
};
use vidio::ident::IdError;

fn entry(name: &str, kind: FileType) -> FileEntry {
    let dir = if kind == FileType::Transcript { "transcripts" } else { "reports" };
    FileEntry {
        path: format!("/data/{dir}/{name}"),
        name: name.to_string(),
        file_type: kind,
        size: 10,
        modified: 0,
    }
}

#[test]
fn names_artifacts_from_identifiers() {
    assert_eq!(
        StorageService::transcript_path(" abc "),
        Ok("transcripts/transcript_abc.txt".to_string())
    );
    assert_eq!(StorageService::report_path("abc"), Ok("reports/report_abc.md".to_string()));
    assert_eq!(
        StorageService::report_path("a/b"),
        Err(StorageError::InvalidId(IdError::UnsupportedCharacters))
    );
}

#[test]
fn reads_identifier_back_from_file_name() {
    assert_eq!(entry("transcript_abc.txt", FileType::Transcript).video_id(), Some("abc".to_string()));
    assert_eq!(entry("report_x-1.md", FileType::Report).video_id(), Some("x-1".to_string()));
    assert_eq!(
        entry("transcript_transcript_q.txt.txt", FileType::Transcript).video_id(),
        Some("q".to_string())
    );
    assert_eq!(entry("notes.txt", FileType::Transcript).video_id(), None);
}

#[test]
fn compares_paths_by_component() {
    assert!(path_starts_with("/data/transcripts/transcript_a.txt", "/data/transcripts"));
    assert!(path_starts_with("/data/transcripts", "/data/transcripts/"));
    assert!(!path_starts_with("/data/transcripts_old/x.txt", "/data/transcripts"));
    assert!(!path_starts_with("data/transcripts/x.txt", "/data/transcripts"));
}

#[test]
fn delete_inside_managed_directory_and_refresh() {
    let t = Some("/data/transcripts");
    let r = Some("/data/reports");
    assert_eq!(ensure_managed_path(Some("/data/transcripts/transcript_a.txt"), t, r), Ok(()));
    assert_eq!(ensure_managed_path(Some("/data/reports/report_a.md"), t, r), Ok(()));
    assert_eq!(
        ensure_managed_path(Some("/etc/passwd"), t, r),
        Err(StorageError::OutsideManaged)
    );
    assert_eq!(ensure_managed_path(None, t, r), Err(StorageError::Unresolvable));
    assert_eq!(
        ensure_managed_path(Some("/data/transcripts/x.txt"), None, None),
        Err(StorageError::OutsideManaged)
    );

    let a = entry("transcript_a.txt", FileType::Transcript);
    let b = entry("transcript_b.txt", FileType::Transcript);
    let mut app = App::new(vec![a.clone(), b.clone()]);
    app.filter = FileFilter::All;
    app.state = AppState::Browser { filter: FileFilter::All, search: String::new() };
    // The allowed delete removed `a`: the next listing no longer holds it.
    app.receive_listing(vec![b.clone()]);
    assert_eq!(app.file_list.items, vec![b.clone()]);
    // A refused delete leaves storage as it was: the listing is unchanged.
    app.receive_listing(vec![b.clone()]);
    assert_eq!(app.file_list.items, vec![b]);
}

#[test]
fn listing_applies_filter_and_search() {
    let a = entry("transcript_Alpha.txt", FileType::Transcript);
    let b = entry("report_alpha.md", FileType::Report);
    let c = entry("transcript_beta.txt", FileType::Transcript);
    let mut app = App::new(vec![]);
    app.filter = FileFilter::Transcripts;
    app.receive_listing(vec![a.clone(), b.clone(), c.clone()]);
    assert_eq!(app.file_list.items, vec![a.clone(), c.clone()]);
    app.search_input.set_value("ALPHA");
    app.receive_listing(vec![a.clone(), b.clone(), c.clone()]);
    assert_eq!(app.file_list.items, vec![a.clone()]);
    app.filter = FileFilter::All;
    app.receive_listing(vec![a.clone(), b.clone(), c.clone()]);
    assert_eq!(app.file_list.items, vec![a, b]);
    assert_eq!(StorageError::OutsideManaged.message().is_empty(), false);
}

#[test]
fn listing_order_is_newest_first_and_stable() {
    let mut a = entry("transcript_a.txt", FileType::Transcript);
    let mut b = entry("report_b.md", FileType::Report);
    let mut c = entry("transcript_c.txt", FileType::Transcript);
    a.modified = 5;
    b.modified = 9;
    c.modified = 5;
    assert_eq!(newest_first(vec![a.clone(), b.clone(), c.clone()]), vec![b, a, c]);
    assert!(newest_first(vec![]).is_empty());
    assert!(is_artifact_name(FileType::Transcript, "transcript_x.txt"));
    assert!(!is_artifact_name(FileType::Transcript, "report_x.md"));
    assert!(is_artifact_name(FileType::Report, "report_x.md"));
    assert!(!is_artifact_name(FileType::Report, "report_x.txt"));
}

#[test]
fn listing_clears_marks_and_reclamps_selection() {
    let files: Vec<FileEntry> =
        (0..5).map(|i| entry(&format!("transcript_{i}.txt"), FileType::Transcript)).collect();
    let mut app = App::new(files.clone());
    app.file_list.go_end();
    app.file_list.toggle_selected();
    app.receive_listing(files[..2].to_vec());
    assert_eq!(app.file_list.selected, Some(1));
    assert_eq!(app.file_list.selected_items, vec![false, false]);
}
