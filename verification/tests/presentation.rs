use fileshare::config::display_ip;
use fileshare::config::Config;
use fileshare::errors::ShareError;
use fileshare::format::format_file_size;
use fileshare::format::format_timestamp;
use fileshare::format::get_file_icon;
use fileshare::html::build_url;
use fileshare::html::generate_html;
use fileshare::html::generate_qr_code_svg;
use fileshare::records::build_records;
use fileshare::strutil::u64_to_string;

#[test]
fn decimal_rendering() {
    assert_eq!(u64_to_string(0), "0");
    assert_eq!(u64_to_string(7), "7");
    assert_eq!(u64_to_string(1234567890), "1234567890");
    assert_eq!(u64_to_string(u64::MAX), "18446744073709551615");
}

#[test]
fn size_labels() {
    assert_eq!(format_file_size(0), "0.0 B");
    assert_eq!(format_file_size(1023), "1023.0 B");
    assert_eq!(format_file_size(1536), "1.5 KB");
    assert_eq!(format_file_size(1048576), "1.0 MB");
    assert_eq!(format_file_size(1572864), "1.5 MB");
    assert_eq!(format_file_size(3221225472), "3.0 GB");
}

#[test]
fn age_labels() {
    assert_eq!(format_timestamp(1000, 1000), "just now");
    assert_eq!(format_timestamp(1059, 1000), "just now");
    assert_eq!(format_timestamp(1120, 1000), "2 min ago");
    assert_eq!(format_timestamp(8200, 1000), "2 h ago");
    assert_eq!(format_timestamp(200000, 1000), "2 days ago");
    // A clock that went backwards is treated as no elapsed time.
    assert_eq!(format_timestamp(10, 1000), "just now");
}

#[test]
fn icons_by_kind() {
    assert_eq!(get_file_icon("pdf"), "[doc]");
    assert_eq!(get_file_icon("zip"), "[archive]");
    assert_eq!(get_file_icon("jpeg"), "[image]");
    assert_eq!(get_file_icon("weird"), "[doc]");
}

#[test]
fn records_carry_lowercased_kind_and_order() {
    let entries = vec![
        ("Photo.JPG".to_string(), 10u64, 100u64),
        ("notes".to_string(), 20u64, 300u64),
        ("song.mp3".to_string(), 30u64, 200u64),
    ];
    let records = build_records(&entries);
    let names: Vec<&str> = records.iter().map(|r| r.name.as_str()).collect();
    assert_eq!(names, vec!["notes", "song.mp3", "Photo.JPG"]);
    assert_eq!(records[0].file_type, "unknown");
    assert_eq!(records[1].file_type, "mp3");
    assert_eq!(records[2].file_type, "jpg");
}

#[test]
fn empty_entries_give_empty_listing() {
    let entries: Vec<(String, u64, u64)> = Vec::new();
    assert!(build_records(&entries).is_empty());
}

#[test]
fn urls_and_ip_filter() {
    assert_eq!(build_url("localhost", 8080), "http://localhost:8080");
    assert_eq!(build_url("192.168.1.4", 80), "http://192.168.1.4:80");
    assert!(display_ip("192.168.1.4", false, true));
    assert!(!display_ip("127.0.0.1", true, true));
    assert!(!display_ip("fe80::1", false, false));
    assert!(!display_ip("172.17.0.2", false, true));
    assert!(display_ip("172.170.0.2", false, true));
    assert!(display_ip("172.18.0.2", false, true));
}

#[test]
fn config_converts_megabytes() {
    let c = Config::new(8080, 30000, "./uploads".to_string(), 50);
    assert_eq!(c.max_file_size, 50 * 1024 * 1024);
    assert_eq!(c.port, 8080);
}

#[test]
fn error_messages_name_the_limit() {
    assert_eq!(
        ShareError::TooLarge { max_bytes: 50 * 1024 * 1024 }.message(),
        "File too large (max: 50 MB)"
    );
    assert_eq!(ShareError::NotFound.message(), "File not found");
    assert_eq!(
        ShareError::TooLarge { max_bytes: 1 }.message(),
        "File too large (max: 0 MB)"
    );
    assert_eq!(ShareError::IoFailure.message(), "Server error");
    assert_eq!(ShareError::ProtocolFraming.message(), "Malformed upload body");
}

#[test]
fn qr_rendering_produces_svg() {
    let svg = generate_qr_code_svg("http://localhost:8080");
    // The real renderer ran: the output is an SVG document, not the input.
    assert!(svg.contains("<svg"));
    assert!(svg.contains("</svg>"));
    assert_ne!(svg, "http://localhost:8080");
}

#[test]
fn qr_rendering_is_deterministic() {
    let a = generate_qr_code_svg("http://localhost:8080");
    let b = generate_qr_code_svg("http://localhost:8080");
    assert_eq!(a, b);
}

#[test]
fn page_embeds_files_and_limits() {
    let ips = vec!["192.168.1.4".to_string()];
    let entries = vec![("notes.txt".to_string(), 1536u64, 500u64)];
    let files = build_records(&entries);
    let page = generate_html(&ips, 8080, 30000, &files, 50 * 1024 * 1024, 560);
    assert!(page.contains("Max upload size: 50 MB"));
    assert!(page.contains("Available files (1)"));
    assert!(page.contains("notes.txt"));
    assert!(page.contains("1.5 KB"));
    assert!(page.contains("1 min ago"));
    assert!(page.contains("http://192.168.1.4:8080"));
    assert!(page.contains("http://localhost:8080"));
    assert!(page.contains("<svg"));
}

#[test]
fn page_shows_empty_state() {
    let ips: Vec<String> = Vec::new();
    let files = Vec::new();
    let page = generate_html(&ips, 8080, 30000, &files, 50 * 1024 * 1024, 0);
    assert!(page.contains("No files shared yet."));
    assert!(page.contains("Available files (0)"));
}
