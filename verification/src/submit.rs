//! The submission pipeline: the three submission kinds and the three-step
//! file upload protocol.
//!
//! The functions here fix every decision of the protocol — what each POST
//! must carry, where the bearer credential goes, how a response is judged
//! — while the shell moves the bytes.

use vstd::prelude::*;

use crate::models::FileUploadSlot;
use crate::strutil::{push_char, str_eq_str};

verus! {

// ─── Text entries ───────────────────────────────────────────────────────

/// How one character is written into submitted HTML: `&`, `<` and `>` are
/// escaped, everything else stands as it is.
pub open spec fn escape_char(c: char) -> Seq<char> {
    if c == '&' {
        "&amp;"@
    } else if c == '<' {
        "&lt;"@
    } else if c == '>' {
        "&gt;"@
    } else {
        seq![c]
    }
}

/// The text with `&`, `<` and `>` escaped, character by character.
pub open spec fn escape_html(s: Seq<char>) -> Seq<char>
    decreases s.len(),
{
    if s.len() == 0 {
        Seq::empty()
    } else {
        escape_html(s.drop_last()) + escape_char(s.last())
    }
}

/// The HTML body a text entry submits: the raw text escaped and wrapped
/// in `<pre>`, so whitespace and line breaks stay literal.
pub open spec fn text_entry_body(s: Seq<char>) -> Seq<char> {
    "<pre>"@ + escape_html(s) + "</pre>"@
}

/// Wrap raw text as the HTML body of an online text entry.
pub fn text_entry_html(text: &str) -> (r: String)
    ensures
        r@ == text_entry_body(text@),
{
    let mut out = String::from_str("<pre>");
    let n: usize = text.unicode_len();
    let mut i: usize = 0;
    proof {
        assert(escape_html(text@.take(0)) =~= Seq::<char>::empty());
        assert(out@ =~= "<pre>"@ + escape_html(text@.take(0)));
    }
    while i < n
        invariant
            i <= n == text@.len(),
            out@ == "<pre>"@ + escape_html(text@.take(i as int)),
        decreases n - i,
    {
        let c = text.get_char(i);
        if c == '&' {
            out.append("&amp;");
        } else if c == '<' {
            out.append("&lt;");
        } else if c == '>' {
            out.append("&gt;");
        } else {
            push_char(&mut out, c);
            proof {
                assert(escape_char(c) =~= seq![c]);
                assert(out@ =~= "<pre>"@ + (escape_html(text@.take(i as int)) + escape_char(c)));
            }
        }
        i = i + 1;
        proof {
            assert(text@.take(i as int).drop_last() =~= text@.take(i - 1));
            assert(text@.take(i as int).last() == text@[i - 1]);
            assert(out@ =~= "<pre>"@ + escape_html(text@.take(i as int)));
        }
    }
    proof {
        assert(text@.take(n as int) =~= text@);
    }
    out.append("</pre>");
    proof {
        assert(out@ =~= text_entry_body(text@));
    }
    out
}

// ─── Content types ──────────────────────────────────────────────────────

/// The content type guessed from a file extension; unknown extensions
/// fall back to a raw byte stream.
pub open spec fn mime_of(e: Seq<char>) -> Seq<char> {
    if e == "pdf"@ {
        "application/pdf"@
    } else if e == "doc"@ {
        "application/msword"@
    } else if e == "docx"@ {
        "application/vnd.openxmlformats-officedocument.wordprocessingml.document"@
    } else if e == "ppt"@ {
        "application/vnd.ms-powerpoint"@
    } else if e == "pptx"@ {
        "application/vnd.openxmlformats-officedocument.presentationml.presentation"@
    } else if e == "xls"@ {
        "application/vnd.ms-excel"@
    } else if e == "xlsx"@ {
        "application/vnd.openxmlformats-officedocument.spreadsheetml.sheet"@
    } else if e == "txt"@ || e == "md"@ || e == "rst"@ {
        "text/plain"@
    } else if e == "html"@ || e == "htm"@ {
        "text/html"@
    } else if e == "csv"@ {
        "text/csv"@
    } else if e == "png"@ {
        "image/png"@
    } else if e == "jpg"@ || e == "jpeg"@ {
        "image/jpeg"@
    } else if e == "gif"@ {
        "image/gif"@
    } else if e == "zip"@ {
        "application/zip"@
    } else if e == "py"@ {
        "text/x-python"@
    } else if e == "rs"@ {
        "text/x-rust"@
    } else if e == "js"@ {
        "text/javascript"@
    } else if e == "ts"@ {
        "text/typescript"@
    } else if e == "c"@ || e == "cpp"@ || e == "h"@ {
        "text/x-c"@
    } else if e == "java"@ {
        "text/x-java"@
    } else {
        "application/octet-stream"@
    }
}

/// The content type a file's extension stands for (the extension without
/// its dot; an empty string when the name has none).
pub fn mime_from_ext(ext: &str) -> (r: &'static str)
    ensures
        r@ == mime_of(ext@),
{
    if str_eq_str(ext, "pdf") {
        "application/pdf"
    } else if str_eq_str(ext, "doc") {
        "application/msword"
    } else if str_eq_str(ext, "docx") {
        "application/vnd.openxmlformats-officedocument.wordprocessingml.document"
    } else if str_eq_str(ext, "ppt") {
        "application/vnd.ms-powerpoint"
    } else if str_eq_str(ext, "pptx") {
        "application/vnd.openxmlformats-officedocument.presentationml.presentation"
    } else if str_eq_str(ext, "xls") {
        "application/vnd.ms-excel"
    } else if str_eq_str(ext, "xlsx") {
        "application/vnd.openxmlformats-officedocument.spreadsheetml.sheet"
    } else if str_eq_str(ext, "txt") || str_eq_str(ext, "md") || str_eq_str(ext, "rst") {
        "text/plain"
    } else if str_eq_str(ext, "html") || str_eq_str(ext, "htm") {
        "text/html"
    } else if str_eq_str(ext, "csv") {
        "text/csv"
    } else if str_eq_str(ext, "png") {
        "image/png"
    } else if str_eq_str(ext, "jpg") || str_eq_str(ext, "jpeg") {
        "image/jpeg"
    } else if str_eq_str(ext, "gif") {
        "image/gif"
    } else if str_eq_str(ext, "zip") {
        "application/zip"
    } else if str_eq_str(ext, "py") {
        "text/x-python"
    } else if str_eq_str(ext, "rs") {
        "text/x-rust"
    } else if str_eq_str(ext, "js") {
        "text/javascript"
    } else if str_eq_str(ext, "ts") {
        "text/typescript"
    } else if str_eq_str(ext, "c") || str_eq_str(ext, "cpp") || str_eq_str(ext, "h") {
        "text/x-c"
    } else if str_eq_str(ext, "java") {
        "text/x-java"
    } else {
        "application/octet-stream"
    }
}

// ─── The upload protocol ────────────────────────────────────────────────

/// Step one: what the upload-slot request must say about the file.
#[derive(Debug, Clone, PartialEq)]
pub struct SlotRequest {
    pub course_id: u64,
    pub assignment_id: u64,
    pub name: String,
    pub size: u64,
    pub content_type: String,
}

/// The slot request of one file: its name, byte size, and the content
/// type guessed from its extension.
pub fn plan_slot_request(
    course_id: u64,
    assignment_id: u64,
    filename: String,
    size: u64,
    ext: &str,
) -> (r: SlotRequest)
    ensures
        r.course_id == course_id,
        r.assignment_id == assignment_id,
        r.name == filename,
        r.size == size,
        r.content_type@ == mime_of(ext@),
{
    let content_type = String::from_str(mime_from_ext(ext));
    SlotRequest { course_id, assignment_id, name: filename, size, content_type }
}

/// Step two: what the multipart POST to the storage endpoint must carry.
#[derive(Debug, Clone, PartialEq)]
pub struct UploadPlan {
    /// Where the bytes go: the slot's upload URL, never the main API.
    pub url: String,
    /// Every required form field, verbatim, in the slot's order.
    pub fields: Vec<(String, String)>,
    /// The form field name the file bytes are attached under.
    pub file_field: String,
    pub filename: String,
    pub content_type: String,
    /// The storage endpoint must not see the bearer credential.
    pub with_auth: bool,
}

/// The multipart POST of one upload slot: every required field verbatim,
/// the bytes under the slot's field name ("file" when it names none), and
/// no credential attached — the upload endpoint is typically third-party
/// storage.
pub fn plan_upload(slot: FileUploadSlot, filename: String, content_type: String) -> (p: UploadPlan)
    ensures
        p.url == slot.upload_url,
        p.fields == slot.upload_params,
        slot.file_param matches Some(f) ==> p.file_field == f,
        slot.file_param is None ==> p.file_field@ == "file"@,
        p.filename == filename,
        p.content_type == content_type,
        !p.with_auth,
{
    let file_field = match slot.file_param {
        Some(f) => f,
        None => String::from_str("file"),
    };
    UploadPlan {
        url: slot.upload_url,
        fields: slot.upload_params,
        file_field,
        filename,
        content_type,
        with_auth: false,
    }
}

/// Step three: how the upload response is followed up.
#[derive(Debug, Clone, PartialEq)]
pub enum UploadOutcome {
    /// A redirect: fetch the confirmation endpoint, now with the bearer
    /// credential, to learn the uploaded file's id.
    Confirm { url: String, with_auth: bool },
    /// A direct success: the response itself holds the uploaded file.
    Direct,
    /// A redirect without a Location header: the upload failed.
    MissingLocation,
    /// Any other status: the upload failed with it.
    Failed { status: u16 },
}

/// Judge the storage endpoint's response: a redirect is followed to its
/// Location with the credential attached, a 2xx already holds the file,
/// anything else fails the upload.
pub fn on_upload_response(status: u16, location: Option<String>) -> (r: UploadOutcome)
    ensures
        300 <= status < 400 ==> (location matches Some(u) ==> r == (UploadOutcome::Confirm {
            url: u,
            with_auth: true,
        })),
        300 <= status < 400 && location is None ==> r is MissingLocation,
        200 <= status < 300 ==> r is Direct,
        !(200 <= status < 400) ==> r == (UploadOutcome::Failed { status }),
{
    if 300 <= status && status < 400 {
        match location {
            Some(u) => UploadOutcome::Confirm { url: u, with_auth: true },
            None => UploadOutcome::MissingLocation,
        }
    } else if 200 <= status && status < 300 {
        UploadOutcome::Direct
    } else {
        UploadOutcome::Failed { status }
    }
}

// ─── Submission bodies ──────────────────────────────────────────────────

/// What the final submission POST carries, one shape per kind.
#[derive(Debug, Clone, PartialEq)]
pub enum SubmissionPayload {
    /// An online text entry: the escaped HTML body.
    TextEntry { body_html: String },
    /// An online URL: the raw URL string, untransformed.
    OnlineUrl { url: String },
    /// An online upload: the uploaded file ids.
    FileIds { ids: Vec<u64> },
}

/// The payload of a text entry: the raw text escaped and wrapped.
pub fn text_payload(text: &str) -> (p: SubmissionPayload)
    ensures
        p matches SubmissionPayload::TextEntry { body_html } && body_html@ == text_entry_body(
            text@,
        ),
{
    SubmissionPayload::TextEntry { body_html: text_entry_html(text) }
}

/// The payload of a URL submission: the string exactly as typed.
pub fn url_payload(url: String) -> (p: SubmissionPayload)
    ensures
        p == (SubmissionPayload::OnlineUrl { url }),
{
    SubmissionPayload::OnlineUrl { url }
}

/// The payload of a file submission: the one uploaded file's id.
pub fn file_payload(file_id: u64) -> (p: SubmissionPayload)
    ensures
        p matches SubmissionPayload::FileIds { ids } && ids@ == seq![file_id],
{
    let mut ids: Vec<u64> = Vec::new();
    ids.push(file_id);
    SubmissionPayload::FileIds { ids }
}

} // verus!
