use homecore::chat::{
    allowed_mime, default_logging, default_port, file_path, sanitize_filename, sanitize_slug,
    slug_from_lowercase, Config,
};

#[test]
fn sanitizes_filename() {
    let name = sanitize_filename("../evil\\name.txt");
    assert_eq!(name, ".._evil_name.txt");
}

#[test]
fn filename_loses_control_characters() {
    assert_eq!(sanitize_filename("a\u{0}b\u{7f}c\u{85}d\té"), "abcdé");
    assert_eq!(sanitize_filename(""), "");
}

#[test]
fn mime_allowlist() {
    assert!(allowed_mime("text/plain"));
    assert!(allowed_mime("IMAGE/PNG"));
    assert!(allowed_mime("image/jpeg"));
    assert!(allowed_mime("application/pdf"));
    assert!(!allowed_mime("application/x-msdownload"));
    assert!(!allowed_mime("text/plain; charset=utf-8"));
}

#[test]
fn stored_file_path() {
    assert_eq!(file_path("/data/files", "abcdef"), "/data/files/ab/abcdef");
    assert_eq!(file_path("", "ab"), "ab/ab");
    assert_eq!(file_path("/data/", "0123"), "/data/01/0123");
    assert_eq!(file_path("/data", "é9f"), "/data/é/é9f");
}

#[test]
fn room_slugs() {
    assert_eq!(sanitize_slug("General"), "general");
    assert_eq!(sanitize_slug("  Family -- Chat!  "), "family-chat");
    assert_eq!(sanitize_slug("Über Räume"), "ber-r-ume");
    assert_eq!(sanitize_slug("---"), "");
    assert_eq!(slug_from_lowercase("a  b"), "a-b");
    assert_eq!(slug_from_lowercase("AB"), "AB");
}

#[test]
fn upload_limit_in_bytes() {
    let cfg = Config {
        bind: "127.0.0.1:8787".to_string(),
        data_dir: "/tmp/chat".to_string(),
        max_upload_mb: 10,
        logging_enabled: true,
        bootstrap: None,
    };
    assert_eq!(cfg.max_upload_bytes(), 10 * 1024 * 1024);
}

#[test]
fn config_defaults() {
    assert_eq!(default_port(), 8787);
    assert!(default_logging());
}
