use shc_core::archive::ArchiveBudget;
use shc_core::human_size::format_bytes;
use shc_core::request::{Descriptor, Method, RequestBody, upload_request};

#[test]
fn descriptor_paths_match_the_api() {
    let d = Descriptor::refresh_token();
    assert_eq!(d.path, "/auth/refresh-token");
    assert!(matches!(d.method, Method::Get));
    assert!(!d.requires_auth);

    let d = Descriptor::list_files("notes");
    assert_eq!(d.path, "/api/files?search=notes&page=1&limit=100");
    assert!(matches!(d.method, Method::Get));

    let d = Descriptor::get_file_download_url("f1");
    assert_eq!(d.path, "/api/files/f1");
    assert!(matches!(d.method, Method::Get));

    let d = Descriptor::remove_file("f2");
    assert_eq!(d.path, "/api/files/remove/f2");
    assert!(matches!(d.method, Method::Delete));

    let d = Descriptor::toggle_file_visibility("f3");
    assert_eq!(d.path, "/api/files/toggle-visibility/f3");
    assert!(matches!(d.method, Method::Patch));

    let d = Descriptor::rename_file("f4", "new.txt");
    assert_eq!(d.path, "/api/files/rename/f4");
    assert!(matches!(d.method, Method::Patch));

    let d = Descriptor::update_upload_status("f5", "uploaded");
    assert_eq!(d.path, "/api/files/update-upload-status/f5");
    assert!(matches!(d.method, Method::Patch));

    let d = Descriptor::add_file("a.txt", "text/plain", 12);
    assert_eq!(d.path, "/api/files/add");
    assert!(matches!(d.method, Method::Post));
    assert!(d.requires_auth);
}

#[test]
fn bodies_render_as_exact_json() {
    let body = RequestBody::Rename { name: "new name.txt".to_string() };
    assert_eq!(body.to_json().unwrap(), "{\"name\":\"new name.txt\"}");

    let body = RequestBody::Add {
        file_name: "report.pdf".to_string(),
        mime_type: "application/pdf".to_string(),
        file_size: 10_485_760,
    };
    assert_eq!(
        body.to_json().unwrap(),
        "{\"file_name\":\"report.pdf\",\"mime_type\":\"application/pdf\",\"file_size\":10485760}"
    );

    let body = RequestBody::UploadStatus { status: "uploading".to_string() };
    assert_eq!(body.to_json().unwrap(), "{\"upload_status\":\"uploading\"}");

    assert_eq!(RequestBody::Empty.to_json(), None);
}

#[test]
fn bodies_escape_json_specials() {
    let body = RequestBody::Rename { name: "a\"b\\c\nd".to_string() };
    assert_eq!(body.to_json().unwrap(), "{\"name\":\"a\\\"b\\\\c\\nd\"}");
}

#[test]
fn upload_request_guesses_the_media_type() {
    let d = upload_request("notes.txt", 5);
    match d.body {
        RequestBody::Add { file_name, mime_type, file_size } => {
            assert_eq!(file_name, "notes.txt");
            assert_eq!(mime_type, "text/plain");
            assert_eq!(file_size, 5);
        }
        _ => panic!("an upload request announces its payload"),
    }

    let d = upload_request("report.pdf", 9);
    match d.body {
        RequestBody::Add { mime_type, .. } => assert_eq!(mime_type, "application/pdf"),
        _ => panic!("an upload request announces its payload"),
    }

    let d = upload_request("mystery.zzqy", 1);
    match d.body {
        RequestBody::Add { mime_type, .. } => {
            assert_eq!(mime_type, "application/octet-stream")
        }
        _ => panic!("an upload request announces its payload"),
    }
}

#[test]
fn format_bytes_renders_exact_figures() {
    assert_eq!(format_bytes(0), "0.00 B");
    assert_eq!(format_bytes(512), "512.00 B");
    assert_eq!(format_bytes(999), "999.00 B");
    assert_eq!(format_bytes(1000), "1.00 KB");
    assert_eq!(format_bytes(999_994), "999.99 KB");
    assert_eq!(format_bytes(999_995), "1000.00 KB");
    assert_eq!(format_bytes(1_048_576), "1.05 MB");
    assert_eq!(format_bytes(10_485_760), "10.49 MB");
    assert_eq!(format_bytes(3_270_000_000), "3.27 GB");
    assert_eq!(format_bytes(1_000_000_000_000), "1.00 TB");
    assert_eq!(format_bytes(1_000_000_000_000_000), "1.00 PB");
    assert_eq!(format_bytes(u64::MAX), "18.45 EB");
}

#[test]
fn archive_budget_stops_past_the_limit() {
    let mut budget = ArchiveBudget::new(1000);
    assert!(budget.record(600));
    assert!(budget.record(400));
    assert_eq!(budget.used, 1000);
    assert!(!budget.record(1));
    assert_eq!(budget.used, 1001);
    // The total saturates instead of wrapping around.
    assert!(!budget.record(u64::MAX));
    assert_eq!(budget.used, u64::MAX);
}
