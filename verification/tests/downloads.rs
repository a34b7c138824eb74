use localsend::blob::BlobEntry;
use localsend::collection::{
    build_collection, list_collection, split_collection, split_entries, LocalSendCollection,
    LocalSendFileMeta,
};
use localsend::download::{
    next_fetch_action, DownloadSession, DownloadStep, ExportEvent, ExportStep, ExportTask,
    FetchAction, FetchEvent, ReceiveError,
};
use localsend::file_name::check_leads_inside;
use localsend::receiver::LocalSendReceiver;

fn meta(name: &str, hash: &str) -> LocalSendFileMeta {
    LocalSendFileMeta {
        file_name: name.to_string(),
        size: 1,
        file_type: "text".to_string(),
        hash: hash.to_string(),
        last_modified: None,
    }
}

fn files() -> Vec<LocalSendFileMeta> {
    vec![
        meta("a.txt", &"11".repeat(32)),
        meta("b.txt", &"22".repeat(32)),
        meta("c.txt", &"33".repeat(32)),
    ]
}

fn envelope(files: Vec<LocalSendFileMeta>) -> LocalSendCollection {
    LocalSendCollection {
        sender_alias: "Sender".to_string(),
        sender_fingerprint: "fp".to_string(),
        version: "2.1".to_string(),
        files,
    }
}

fn entry(name: &str, byte: u8) -> BlobEntry {
    BlobEntry { name: name.to_string(), hash: [byte; 32] }
}

fn session(indices: Vec<usize>) -> DownloadSession {
    let collection = build_collection(&[9u8; 32], &files()).unwrap();
    let parts = LocalSendReceiver::file_entries(&collection).unwrap();
    LocalSendReceiver::download_files(envelope(files()), parts.files, indices)
}

#[test]
fn collection_lists_metadata_then_files() {
    let collection = build_collection(&[9u8; 32], &files()).unwrap();
    let listed: Vec<(String, iroh_blobs::Hash)> = collection.iter().cloned().collect();
    assert_eq!(
        listed,
        vec![
            ("collection.json".to_string(), iroh_blobs::Hash::from_bytes([9u8; 32])),
            ("11".repeat(32), iroh_blobs::Hash::from_bytes([0x11; 32])),
            ("22".repeat(32), iroh_blobs::Hash::from_bytes([0x22; 32])),
            ("33".repeat(32), iroh_blobs::Hash::from_bytes([0x33; 32])),
        ]
    );
}

#[test]
fn first_unreadable_hash_is_the_error() {
    let mut list = files();
    list[1].hash = "xyz".to_string();
    list[2].hash = "GG".repeat(32);
    let expected = "xyz".parse::<iroh_blobs::Hash>().unwrap_err().to_string();
    assert_eq!(build_collection(&[9u8; 32], &list).unwrap_err(), expected);
}

#[test]
fn splitting_undoes_listing() {
    let blobs = vec![entry("one", 1), entry("two", 2)];
    let collection = list_collection(&[9u8; 32], blobs.clone());
    let parts = split_collection(&collection).unwrap();
    assert_eq!(parts.meta_hash, [9u8; 32]);
    assert_eq!(parts.files, blobs);
}

#[test]
fn splitting_nothing() {
    assert!(split_entries(vec![]).is_none());
    let parts = split_entries(vec![entry("m", 4)]).unwrap();
    assert_eq!(parts.meta_hash, [4u8; 32]);
    assert!(parts.files.is_empty());
}

#[test]
fn collections_without_entries() {
    let empty = iroh_blobs::format::collection::Collection::default();
    let error = LocalSendReceiver::fetch_collection(&empty).unwrap_err();
    assert_eq!(error, ReceiveError::EmptyCollection);
    assert_eq!(error.message(), "empty collection");
    let error = LocalSendReceiver::file_entries(&empty).unwrap_err();
    assert_eq!(error, ReceiveError::NoFileEntries);

    let only_meta = list_collection(&[9u8; 32], vec![]);
    assert_eq!(LocalSendReceiver::fetch_collection(&only_meta).unwrap().meta_hash, [9u8; 32]);
    let error = LocalSendReceiver::file_entries(&only_meta).unwrap_err();
    assert_eq!(error, ReceiveError::NoFileEntries);
    assert_eq!(error.message(), "collection has no file entries");
}

#[test]
fn fetch_actions() {
    assert_eq!(next_fetch_action(FetchEvent::LocalChecked(true)), FetchAction::Load);
    assert_eq!(next_fetch_action(FetchEvent::LocalChecked(false)), FetchAction::Request);
    assert_eq!(next_fetch_action(FetchEvent::Progress(10)), FetchAction::Wait);
    assert_eq!(next_fetch_action(FetchEvent::Done), FetchAction::Load);
    assert_eq!(next_fetch_action(FetchEvent::Ended), FetchAction::Load);
    let failed = next_fetch_action(FetchEvent::Failed("lost".to_string()));
    let error = ReceiveError::Download("lost".to_string());
    assert_eq!(error.message(), "Download error: lost");
    assert_eq!(failed, FetchAction::Fail(error));
}

#[test]
fn download_exports_in_order_and_sums_up() {
    let mut session = session(vec![2, 0]);
    assert_eq!(
        session.next_step(false, false),
        DownloadStep::Export(ExportTask {
            index: 2,
            file_name: "c.txt".to_string(),
            hash: [0x33; 32],
        })
    );
    assert_eq!(session.export_event(ExportEvent::Other), ExportStep::Wait);
    assert_eq!(session.export_event(ExportEvent::Size(40)), ExportStep::Wait);
    assert_eq!(session.export_event(ExportEvent::Done), ExportStep::Complete);
    assert!(session.total_fits());
    assert_eq!(session.finish_export(), (2, 40));
    assert_eq!(
        session.next_step(false, false),
        DownloadStep::Export(ExportTask {
            index: 0,
            file_name: "a.txt".to_string(),
            hash: [0x11; 32],
        })
    );
    assert_eq!(session.export_event(ExportEvent::Size(1)), ExportStep::Wait);
    assert_eq!(session.export_event(ExportEvent::Size(2)), ExportStep::Wait);
    assert_eq!(session.export_event(ExportEvent::Ended), ExportStep::Complete);
    assert_eq!(session.finish_export(), (0, 2));
    assert_eq!(session.next_step(false, false), DownloadStep::Finished(42));
}

#[test]
fn file_without_reported_size_counts_nothing() {
    let mut session = session(vec![1, 1]);
    session.next_step(false, false);
    session.export_event(ExportEvent::Size(5));
    assert_eq!(session.finish_export(), (1, 5));
    session.next_step(false, false);
    assert_eq!(session.export_event(ExportEvent::Done), ExportStep::Complete);
    assert_eq!(session.finish_export(), (1, 0));
    assert_eq!(session.next_step(false, false), DownloadStep::Finished(5));
}

#[test]
fn cancelled_download_stops_between_files() {
    let mut session = session(vec![0, 1]);
    session.next_step(false, false);
    session.export_event(ExportEvent::Size(8));
    session.finish_export();
    assert_eq!(session.next_step(true, false), DownloadStep::Finished(8));
}

#[test]
fn file_index_out_of_range() {
    let mut session = session(vec![3]);
    let step = session.next_step(false, false);
    let error = ReceiveError::IndexOutOfRange { index: 3, max: 2 };
    assert_eq!(error.message(), "file index 3 out of range (max 2)");
    assert_eq!(step, DownloadStep::Fail(error));

    let mut none = LocalSendReceiver::download_files(envelope(vec![]), vec![entry("x", 1)], vec![0]);
    assert_eq!(
        none.next_step(false, false),
        DownloadStep::Fail(ReceiveError::IndexOutOfRange { index: 0, max: 0 })
    );
}

#[test]
fn file_without_entry() {
    let mut session =
        LocalSendReceiver::download_files(envelope(files()), vec![entry("x", 1)], vec![2]);
    let step = session.next_step(false, false);
    let error = ReceiveError::NoHashEntry { index: 2, max: 0 };
    assert_eq!(error.message(), "no hash entry for file index 2 (max 0)");
    assert_eq!(step, DownloadStep::Fail(error));
}

#[test]
fn export_that_fails_names_the_file() {
    let mut session = session(vec![1]);
    session.next_step(false, false);
    let step = session.export_event(ExportEvent::Failed("disk full".to_string()));
    let error =
        ReceiveError::Export { file_name: "b.txt".to_string(), cause: "disk full".to_string() };
    assert_eq!(error.message(), "export b.txt failed: disk full");
    assert_eq!(step, ExportStep::Fail(error));
}

#[test]
fn total_that_does_not_fit() {
    let mut session = session(vec![0, 1]);
    session.next_step(false, false);
    session.export_event(ExportEvent::Size(u64::MAX));
    assert!(session.total_fits());
    session.finish_export();
    session.next_step(false, false);
    session.export_event(ExportEvent::Size(1));
    assert!(!session.total_fits());
}

fn outcome(events: Vec<FetchEvent>) -> Option<FetchAction> {
    events
        .into_iter()
        .map(next_fetch_action)
        .find(|action| !matches!(action, FetchAction::Request | FetchAction::Wait))
}

#[test]
fn first_decisive_event_ends_a_fetch() {
    let progress = || vec![FetchEvent::LocalChecked(false), FetchEvent::Progress(1), FetchEvent::Progress(9)];
    assert_eq!(outcome(progress()), None);

    let mut done = progress();
    done.extend([FetchEvent::Done, FetchEvent::Failed("late".to_string())]);
    assert_eq!(outcome(done), Some(FetchAction::Load));

    let mut failed = progress();
    failed.extend([FetchEvent::Failed("lost".to_string()), FetchEvent::Done]);
    let error = ReceiveError::Download("lost".to_string());
    assert_eq!(outcome(failed), Some(FetchAction::Fail(error)));
}

#[test]
fn names_that_lead_inside() {
    let everywhere = [
        "photo.jpg", "...", "..a", ".hidden", "a b", "\u{e9}t\u{e9}", "ab:c", "1:2", "sub/a.txt",
        "a//b", "./a", "a/./b", "a/../b", "a/b/..", "a/",
    ];
    for name in everywhere {
        assert!(check_leads_inside(name, false));
        assert!(check_leads_inside(name, true));
    }
    for name in ["a\\b.txt", "A:b", "C:x", "z:", "..\\x", "\\x", "\\", "a\\..\\..\\x"] {
        assert!(check_leads_inside(name, false));
    }
    assert!(check_leads_inside("a\\b.txt", true));
    assert!(check_leads_inside("a\\..\\b", true));
}

#[test]
fn names_that_do_not_lead_inside() {
    let everywhere = [
        "", ".", "..", "./", "../x", "../", "/etc/x", "/", "//", "a/..", "a/../..", "a/../../x",
        "./../x", "a/b/../../..", "a/b/../../../c/d",
    ];
    for name in everywhere {
        assert!(!check_leads_inside(name, false));
        assert!(!check_leads_inside(name, true));
    }
    for name in ["C:x", "z:", "C:\\x", "..\\x", "\\x", "\\\\host\\share", "a\\..\\..\\x", "a\\.."] {
        assert!(!check_leads_inside(name, true));
    }
}

#[test]
fn names_of_all_kinds_inside_are_exported() {
    for name in ["sub/a.txt", "a\\b.txt", "A:b", "a/../b"] {
        let list = vec![meta(name, &"11".repeat(32))];
        let mut session =
            LocalSendReceiver::download_files(envelope(list), vec![entry("one", 1)], vec![0]);
        assert_eq!(
            session.next_step(false, false),
            DownloadStep::Export(ExportTask {
                index: 0,
                file_name: name.to_string(),
                hash: [1; 32],
            })
        );
        session.export_event(ExportEvent::Size(7));
        assert_eq!(session.finish_export(), (0, 7));
        assert_eq!(session.next_step(false, false), DownloadStep::Finished(7));
    }
}

#[test]
fn names_that_leave_the_directory_are_refused() {
    let cases = [("../x", false), ("/tmp/x", false), ("..", false), ("", false), ("C:\\x", true)];
    for (name, windows) in cases {
        let list = vec![meta("a.txt", &"11".repeat(32)), meta(name, &"22".repeat(32))];
        let entries = vec![entry("one", 1), entry("two", 2)];
        let mut session =
            LocalSendReceiver::download_files(envelope(list), entries, vec![1, 0]);
        let step = session.next_step(false, windows);
        let error = ReceiveError::FileName { index: 1, file_name: name.to_string() };
        assert_eq!(error.message(), format!("file index 1 has an unusable name: {}", name));
        assert_eq!(step, DownloadStep::Fail(error));
    }
}
