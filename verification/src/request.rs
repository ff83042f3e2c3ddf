//! Descriptors of the HTTP operations: one value per domain call, holding
//! the method, the path, whether the call carries authorization, and the
//! body when the operation sends one. The driver turns a descriptor into a
//! real request; the contracts here pin down exactly what each operation
//! sends, including the rendered JSON body.

use vstd::prelude::*;

use crate::config_text::push_all;
use crate::config_text::push_escaped_str;
use crate::config_text::spec_escape;
use crate::human_size::push_digits;
use crate::human_size::spec_digits;
use crate::text::chars_to_string;
use crate::text::str_to_chars;
use vstd::string::StringExecFns;

verus! {

/// The HTTP method of one operation.
#[derive(Debug, Clone, Copy, PartialEq, Eq, Structural)]
pub enum Method {
    Get,
    Post,
    Patch,
    Put,
    Delete,
}

/// What an operation sends in its body, as plain values.
pub enum RequestBody {
    /// No body at all.
    Empty,
    /// The new name for a rename.
    Rename { name: String },
    /// What the add operation declares about the payload to come.
    Add { file_name: String, mime_type: String, file_size: u64 },
    /// The new upload status of a file.
    UploadStatus { status: String },
}

/// One HTTP call, described: enough for the driver to issue it, and for the
/// refresh-and-retry core to re-issue it unchanged.
pub struct Descriptor {
    pub method: Method,
    pub path: String,
    pub body: RequestBody,
    pub requires_auth: bool,
}

/// A value as it stands inside a JSON document: quoted, with the same
/// escaping the persisted credential document uses (every escape it emits is
/// a JSON escape too).
pub open spec fn spec_json_string(s: Seq<char>) -> Seq<char> {
    seq!['"'] + spec_escape(s) + seq!['"']
}

/// The rendered JSON body of an operation, when it has one.
pub open spec fn spec_body_json(b: RequestBody) -> Option<Seq<char>> {
    match b {
        RequestBody::Empty => None,
        RequestBody::Rename { name } => Some(
            "{\"name\":"@ + spec_json_string(name@) + "}"@,
        ),
        RequestBody::Add { file_name, mime_type, file_size } => Some(
            "{\"file_name\":"@ + spec_json_string(file_name@) + ",\"mime_type\":"@
                + spec_json_string(mime_type@) + ",\"file_size\":"@ + spec_digits(
                file_size as nat,
            ) + "}"@,
        ),
        RequestBody::UploadStatus { status } => Some(
            "{\"upload_status\":"@ + spec_json_string(status@) + "}"@,
        ),
    }
}

/// Append a quoted, escaped JSON string value.
fn push_json_string(out: &mut Vec<char>, s: &str)
    ensures
        final(out)@ == old(out)@ + spec_json_string(s@),
{
    out.push('"');
    push_escaped_str(out, s);
    out.push('"');
    proof {
        assert(final(out)@ =~= old(out)@ + spec_json_string(s@));
    }
}

/// Append every character of a literal piece.
fn push_str(out: &mut Vec<char>, s: &str)
    ensures
        final(out)@ == old(out)@ + s@,
{
    let piece = str_to_chars(s);
    push_all(out, &piece);
}

impl RequestBody {
    /// Render the body as the JSON text the operation sends, if it sends one.
    pub fn to_json(&self) -> (r: Option<String>)
        ensures
            match r {
                Some(s) => spec_body_json(*self) == Some(s@),
                None => spec_body_json(*self) is None,
            },
    {
        match self {
            RequestBody::Empty => None,
            RequestBody::Rename { name } => {
                let mut out: Vec<char> = Vec::new();
                push_str(&mut out, "{\"name\":");
                push_json_string(&mut out, name.as_str());
                push_str(&mut out, "}");
                proof {
                    assert(out@ =~= spec_body_json(*self)->0);
                }
                Some(chars_to_string(&out))
            },
            RequestBody::Add { file_name, mime_type, file_size } => {
                let mut out: Vec<char> = Vec::new();
                push_str(&mut out, "{\"file_name\":");
                push_json_string(&mut out, file_name.as_str());
                push_str(&mut out, ",\"mime_type\":");
                push_json_string(&mut out, mime_type.as_str());
                push_str(&mut out, ",\"file_size\":");
                push_digits(&mut out, *file_size);
                push_str(&mut out, "}");
                proof {
                    assert(out@ =~= spec_body_json(*self)->0);
                }
                Some(chars_to_string(&out))
            },
            RequestBody::UploadStatus { status } => {
                let mut out: Vec<char> = Vec::new();
                push_str(&mut out, "{\"upload_status\":");
                push_json_string(&mut out, status.as_str());
                push_str(&mut out, "}");
                proof {
                    assert(out@ =~= spec_body_json(*self)->0);
                }
                Some(chars_to_string(&out))
            },
        }
    }
}

/// A path made of a fixed prefix and one identifier.
fn join_path(prefix: &str, id: &str) -> (r: String)
    ensures
        r@ == prefix@ + id@,
{
    let mut p = String::new();
    p.append(prefix);
    p.append(id);
    proof {
        assert(p@ =~= prefix@ + id@);
    }
    p
}

impl Descriptor {
    /// The refresh call: it carries the refresh token, not the access token,
    /// so to the retry protocol it is an unauthorized request.
    pub fn refresh_token() -> (d: Descriptor)
        ensures
            d.method == Method::Get,
            d.path@ == "/auth/refresh-token"@,
            d.body is Empty,
            !d.requires_auth,
    {
        Descriptor {
            method: Method::Get,
            path: "/auth/refresh-token".to_owned(),
            body: RequestBody::Empty,
            requires_auth: false,
        }
    }

    /// The first page of the file listing, filtered by a search string.
    pub fn list_files(search: &str) -> (d: Descriptor)
        ensures
            d.method == Method::Get,
            d.path@ == "/api/files?search="@ + search@ + "&page=1&limit=100"@,
            d.body is Empty,
            d.requires_auth,
    {
        let mut p = String::new();
        p.append("/api/files?search=");
        p.append(search);
        p.append("&page=1&limit=100");
        proof {
            assert(p@ =~= "/api/files?search="@ + search@ + "&page=1&limit=100"@);
        }
        Descriptor { method: Method::Get, path: p, body: RequestBody::Empty, requires_auth: true }
    }

    /// One file's record, download link included.
    pub fn get_file_download_url(file_id: &str) -> (d: Descriptor)
        ensures
            d.method == Method::Get,
            d.path@ == "/api/files/"@ + file_id@,
            d.body is Empty,
            d.requires_auth,
    {
        Descriptor {
            method: Method::Get,
            path: join_path("/api/files/", file_id),
            body: RequestBody::Empty,
            requires_auth: true,
        }
    }

    /// Remove one file.
    pub fn remove_file(file_id: &str) -> (d: Descriptor)
        ensures
            d.method == Method::Delete,
            d.path@ == "/api/files/remove/"@ + file_id@,
            d.body is Empty,
            d.requires_auth,
    {
        Descriptor {
            method: Method::Delete,
            path: join_path("/api/files/remove/", file_id),
            body: RequestBody::Empty,
            requires_auth: true,
        }
    }

    /// Flip one file between public and private.
    pub fn toggle_file_visibility(file_id: &str) -> (d: Descriptor)
        ensures
            d.method == Method::Patch,
            d.path@ == "/api/files/toggle-visibility/"@ + file_id@,
            d.body is Empty,
            d.requires_auth,
    {
        Descriptor {
            method: Method::Patch,
            path: join_path("/api/files/toggle-visibility/", file_id),
            body: RequestBody::Empty,
            requires_auth: true,
        }
    }

    /// Rename one file.
    pub fn rename_file(file_id: &str, new_name: &str) -> (d: Descriptor)
        ensures
            d.method == Method::Patch,
            d.path@ == "/api/files/rename/"@ + file_id@,
            d.body matches RequestBody::Rename { name } && name@ == new_name@,
            d.requires_auth,
    {
        Descriptor {
            method: Method::Patch,
            path: join_path("/api/files/rename/", file_id),
            body: RequestBody::Rename { name: new_name.to_owned() },
            requires_auth: true,
        }
    }

    /// Announce a payload and ask for its presigned upload target.
    pub fn add_file(file_name: &str, mime_type: &str, file_size: u64) -> (d: Descriptor)
        ensures
            d.method == Method::Post,
            d.path@ == "/api/files/add"@,
            d.body matches RequestBody::Add { file_name: f, mime_type: m, file_size: n } && f@
                == file_name@ && m@ == mime_type@ && n == file_size,
            d.requires_auth,
    {
        Descriptor {
            method: Method::Post,
            path: "/api/files/add".to_owned(),
            body: RequestBody::Add {
                file_name: file_name.to_owned(),
                mime_type: mime_type.to_owned(),
                file_size,
            },
            requires_auth: true,
        }
    }

    /// Record where an upload stands.
    pub fn update_upload_status(file_id: &str, upload_status: &str) -> (d: Descriptor)
        ensures
            d.method == Method::Patch,
            d.path@ == "/api/files/update-upload-status/"@ + file_id@,
            d.body matches RequestBody::UploadStatus { status } && status@ == upload_status@,
            d.requires_auth,
    {
        Descriptor {
            method: Method::Patch,
            path: join_path("/api/files/update-upload-status/", file_id),
            body: RequestBody::UploadStatus { status: upload_status.to_owned() },
            requires_auth: true,
        }
    }

    /// Send the raw payload to its presigned target; the URL itself is the
    /// authorization, so no token is attached.
    pub fn upload_payload(url: &str) -> (d: Descriptor)
        ensures
            d.method == Method::Put,
            d.path@ == url@,
            d.body is Empty,
            !d.requires_auth,
    {
        Descriptor {
            method: Method::Put,
            path: url.to_owned(),
            body: RequestBody::Empty,
            requires_auth: false,
        }
    }
}

/// The media type the add operation declares for a file of this name.
pub uninterp spec fn mime_for(name: Seq<char>) -> Seq<char>;

/// Relies on mime_guess::from_path and MimeGuess::first_or_octet_stream: the
/// guess reads only the name's extension, touching no disk, so the result is
/// a function of the file name alone; an unknown extension falls back to
/// application/octet-stream.
#[verifier::external_body]
fn guess_mime(file_name: &str) -> (r: String)
    ensures
        r@ == mime_for(file_name@),
{
    mime_guess::from_path(file_name).first_or_octet_stream().as_ref().to_owned()
}

/// The add-file request for a local payload, its media type guessed from the
/// file's name.
pub fn upload_request(file_name: &str, file_size: u64) -> (d: Descriptor)
    ensures
        d.method == Method::Post,
        d.path@ == "/api/files/add"@,
        d.body matches RequestBody::Add { file_name: f, mime_type: m, file_size: n } && f@
            == file_name@ && m@ == mime_for(file_name@) && n == file_size,
        d.requires_auth,
{
    let mime = guess_mime(file_name);
    Descriptor::add_file(file_name, mime.as_str(), file_size)
}

} // verus!
