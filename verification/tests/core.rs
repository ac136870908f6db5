use fileshare::errors::ShareError;
use fileshare::ingest::ceiling_step;
use fileshare::ingest::ingest_chunks;
use fileshare::naming::resolve_collision;
use fileshare::sanitize::sanitize_filename;
use fileshare::storage::Storage;

#[test]
fn sanitize_replaces_disallowed_characters() {
    assert_eq!(sanitize_filename("../../etc/passwd"), ".._.._etc_passwd");
    assert_eq!(sanitize_filename("a\\b/c"), "a_b_c");
    assert_eq!(sanitize_filename("weird:name?.txt"), "weird_name_.txt");
    assert_eq!(sanitize_filename("good-name_1.TXT"), "good-name_1.TXT");
}

#[test]
fn sanitize_trims_and_handles_empty() {
    assert_eq!(sanitize_filename("  hello world.txt  "), "hello world.txt");
    assert_eq!(sanitize_filename(""), "");
    assert_eq!(sanitize_filename("     "), "");
    assert_eq!(sanitize_filename("\t\n"), "__");
}

#[test]
fn sanitize_is_ascii_strict() {
    // Characters outside [A-Za-z0-9._- ] are replaced, including letters
    // beyond ASCII.
    assert_eq!(sanitize_filename("caf\u{e9}.txt"), "caf_.txt");
}

#[test]
fn sanitized_names_have_no_separators() {
    let s = sanitize_filename("a/b\\c/../d");
    assert!(!s.contains('/'));
    assert!(!s.contains('\\'));
}

#[test]
fn collision_keeps_extension() {
    assert_eq!(resolve_collision("report.pdf", true, 99), "report_99.pdf");
    assert_eq!(resolve_collision("report.pdf", false, 99), "report.pdf");
    assert_eq!(resolve_collision("archive", true, 5), "archive_5");
    assert_eq!(resolve_collision(".gitignore", true, 7), ".gitignore_7");
    assert_eq!(resolve_collision("report.", true, 3), "report_3.");
    assert_eq!(resolve_collision("a.b.c", true, 1), "a.b_1.c");
}

#[test]
fn ceiling_step_counts_and_rejects() {
    assert_eq!(ceiling_step(0, 3, 10), Some(3));
    assert_eq!(ceiling_step(3, 7, 10), Some(10));
    assert_eq!(ceiling_step(10, 1, 10), None);
    assert_eq!(ceiling_step(0, 11, 10), None);
}

#[test]
fn ingest_halts_at_crossing_chunk() {
    let chunks = vec![vec![1u8], vec![2u8], vec![3u8]];
    let (data, over) = ingest_chunks(&chunks, 2);
    assert!(over);
    assert_eq!(data, vec![1u8, 2u8]);

    let (data, over) = ingest_chunks(&chunks, 3);
    assert!(!over);
    assert_eq!(data, vec![1u8, 2u8, 3u8]);

    let (data, over) = ingest_chunks(&vec![vec![0u8; 2]], 1);
    assert!(over);
    assert_eq!(data, Vec::<u8>::new());
}

#[test]
fn upload_over_ceiling_reports_the_limit() {
    let mut st = Storage::new();
    let chunks = vec![vec![0u8; 1048576], vec![0u8; 2]];
    let r = st.upload("big.bin", &chunks, 1000, 1048576);
    assert_eq!(r, Err(ShareError::TooLarge { max_bytes: 1048576 }));
    let msg = ShareError::TooLarge { max_bytes: 1048576 }.message();
    assert_eq!(msg, "File too large (max: 1 MB)");
    // The chunks before the crossing stay written.
    let kept = st.download("big.bin").unwrap();
    assert_eq!(kept.len(), 1048576);
}

#[test]
fn upload_without_filename_is_skipped() {
    let mut st = Storage::new();
    let r = st.upload("   ", &vec![vec![1u8, 2u8]], 5, 100);
    assert_eq!(r, Ok(None));
    assert_eq!(st.list().len(), 0);
}

#[test]
fn colliding_upload_gets_timestamp_suffix() {
    let mut st = Storage::new();
    let first = st.upload("report.pdf", &vec![vec![1u8]], 100, 1000).unwrap().unwrap();
    assert_eq!(first, "report.pdf");
    let second = st.upload("report.pdf", &vec![vec![2u8]], 1111, 1000).unwrap().unwrap();
    assert_eq!(second, "report_1111.pdf");
    // Both files remain retrievable and distinct.
    assert_eq!(st.download("report.pdf").unwrap(), vec![1u8]);
    assert_eq!(st.download("report_1111.pdf").unwrap(), vec![2u8]);
}

#[test]
fn download_round_trips_bytes() {
    let mut st = Storage::new();
    let body = vec![vec![0u8, 1, 2], vec![3u8, 4], vec![5u8]];
    let name = st.upload("blob.bin", &body, 42, 1024).unwrap().unwrap();
    assert_eq!(st.download(&name).unwrap(), vec![0u8, 1, 2, 3, 4, 5]);
}

#[test]
fn download_of_unknown_name_is_not_found() {
    let st = Storage::new();
    assert_eq!(st.download("nope.txt"), Err(ShareError::NotFound));
}

#[test]
fn delete_removes_the_file() {
    let mut st = Storage::new();
    st.upload("a.txt", &vec![vec![1u8]], 1, 100).unwrap();
    st.upload("b.txt", &vec![vec![2u8]], 2, 100).unwrap();
    assert_eq!(st.delete("a.txt"), Ok(()));
    let names: Vec<String> = st.list().into_iter().map(|f| f.name).collect();
    assert_eq!(names, vec!["b.txt".to_string()]);
    assert_eq!(st.download("a.txt"), Err(ShareError::NotFound));
}

#[test]
fn delete_of_missing_file_fails() {
    let mut st = Storage::new();
    assert_eq!(st.delete("ghost.txt"), Err(ShareError::NotFound));
}

#[test]
fn listing_is_most_recent_first() {
    let mut st = Storage::new();
    assert_eq!(st.list().len(), 0);
    st.upload("a.txt", &vec![vec![1u8]], 100, 1000).unwrap();
    st.upload("b.txt", &vec![vec![2u8, 3u8]], 200, 1000).unwrap();
    let listing = st.list();
    let names: Vec<&str> = listing.iter().map(|f| f.name.as_str()).collect();
    assert_eq!(names, vec!["b.txt", "a.txt"]);
    assert_eq!(listing[0].size, 2);
    assert_eq!(listing[1].size, 1);
}
