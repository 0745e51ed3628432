use canvas_tui::models::FileUploadSlot;
use canvas_tui::submit::{
    file_payload, mime_from_ext, on_upload_response, plan_slot_request, plan_upload, text_entry_html,
    text_payload, url_payload, SubmissionPayload, UploadOutcome,
};

#[test]
fn text_entry_wraps_and_escapes() {
    assert_eq!(text_entry_html("hello"), "<pre>hello</pre>");
    assert_eq!(text_entry_html("a & b < c > d"), "<pre>a &amp; b &lt; c &gt; d</pre>");
    assert_eq!(text_entry_html(""), "<pre></pre>");
    assert_eq!(text_entry_html("line1\nline2"), "<pre>line1\nline2</pre>");
}

#[test]
fn text_payload_carries_the_escaped_body() {
    match text_payload("<x>") {
        SubmissionPayload::TextEntry { body_html } => {
            assert_eq!(body_html, "<pre>&lt;x&gt;</pre>");
        }
        other => panic!("expected TextEntry, got {:?}", other),
    }
}

#[test]
fn url_payload_is_untransformed() {
    match url_payload(String::from("https://example.com/work?q=1")) {
        SubmissionPayload::OnlineUrl { url } => {
            assert_eq!(url, "https://example.com/work?q=1");
        }
        other => panic!("expected OnlineUrl, got {:?}", other),
    }
}

#[test]
fn file_payload_references_the_uploaded_id() {
    match file_payload(987) {
        SubmissionPayload::FileIds { ids } => assert_eq!(ids, vec![987]),
        other => panic!("expected FileIds, got {:?}", other),
    }
}

#[test]
fn mime_table_known_extensions() {
    assert_eq!(mime_from_ext("pdf"), "application/pdf");
    assert_eq!(mime_from_ext("txt"), "text/plain");
    assert_eq!(mime_from_ext("md"), "text/plain");
    assert_eq!(mime_from_ext("jpg"), "image/jpeg");
    assert_eq!(mime_from_ext("jpeg"), "image/jpeg");
    assert_eq!(mime_from_ext("py"), "text/x-python");
    assert_eq!(mime_from_ext("rs"), "text/x-rust");
    assert_eq!(mime_from_ext("cpp"), "text/x-c");
    assert_eq!(mime_from_ext("zip"), "application/zip");
}

#[test]
fn mime_table_unknown_extension_defaults() {
    assert_eq!(mime_from_ext("xyz"), "application/octet-stream");
    assert_eq!(mime_from_ext(""), "application/octet-stream");
    assert_eq!(mime_from_ext("PDF"), "application/octet-stream");
}

#[test]
fn slot_request_names_the_file() {
    let r = plan_slot_request(11, 22, String::from("essay.pdf"), 2048, "pdf");
    assert_eq!(r.course_id, 11);
    assert_eq!(r.assignment_id, 22);
    assert_eq!(r.name, "essay.pdf");
    assert_eq!(r.size, 2048);
    assert_eq!(r.content_type, "application/pdf");
}

#[test]
fn upload_plan_carries_slot_fields_verbatim_without_credential() {
    let slot = FileUploadSlot {
        upload_url: String::from("https://storage.example.com/slot"),
        upload_params: vec![(String::from("key"), String::from("abc"))],
        file_param: Some(String::from("attachment")),
    };
    let plan = plan_upload(slot, String::from("essay.pdf"), String::from("application/pdf"));
    assert_eq!(plan.url, "https://storage.example.com/slot");
    assert_eq!(plan.fields, vec![(String::from("key"), String::from("abc"))]);
    assert_eq!(plan.file_field, "attachment");
    assert_eq!(plan.filename, "essay.pdf");
    assert_eq!(plan.content_type, "application/pdf");
    // the storage endpoint never sees the bearer credential
    assert!(!plan.with_auth);
}

#[test]
fn upload_plan_defaults_the_file_field() {
    let slot = FileUploadSlot {
        upload_url: String::from("https://s/u"),
        upload_params: Vec::new(),
        file_param: None,
    };
    let plan = plan_upload(slot, String::from("a.txt"), String::from("text/plain"));
    assert_eq!(plan.file_field, "file");
}

#[test]
fn redirecting_upload_is_confirmed_with_credential() {
    let r = on_upload_response(302, Some(String::from("https://api/confirm/9")));
    match r {
        UploadOutcome::Confirm { url, with_auth } => {
            assert_eq!(url, "https://api/confirm/9");
            // the confirmation endpoint is the main API: credential attached
            assert!(with_auth);
        }
        other => panic!("expected Confirm, got {:?}", other),
    }
}

#[test]
fn redirect_without_location_fails() {
    assert_eq!(on_upload_response(302, None), UploadOutcome::MissingLocation);
}

#[test]
fn direct_success_holds_the_file() {
    assert_eq!(on_upload_response(201, None), UploadOutcome::Direct);
    assert_eq!(on_upload_response(200, Some(String::from("x"))), UploadOutcome::Direct);
}

#[test]
fn other_statuses_fail_the_upload() {
    assert_eq!(on_upload_response(500, None), UploadOutcome::Failed { status: 500 });
    assert_eq!(on_upload_response(403, None), UploadOutcome::Failed { status: 403 });
}
