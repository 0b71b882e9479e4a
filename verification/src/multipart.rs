//! The decisions taken while reading a `multipart/form-data` upload.
use vstd::prelude::*;
use crate::text::{chars_eq_str, chars_of, push_str, string_from_chars};
use crate::upload_types::MultipartReq;

verus! {

/// How a multipart field is treated.
#[derive(PartialEq, Eq, Structural)]
pub enum FieldRole {
    /// The `file` field: its type, file name and bytes are kept.
    File,
    /// A named field that is skipped.
    Ignored,
    /// A field the buffered request does not expect, which fails it.
    Unexpected,
    /// A field without a name, which fails the request.
    Unnamed,
}

/// How the field named `name` is treated.
pub fn classify_field(name: Option<&str>) -> (r: FieldRole)
    ensures
        match name {
            Some(n) => if n@ == "file"@ {
                r == FieldRole::File
            } else {
                r == FieldRole::Ignored
            },
            None => r == FieldRole::Unnamed,
        },
{
    match name {
        Some(n) => {
            let cs = chars_of(n);
            if chars_eq_str(cs.as_slice(), "file") {
                FieldRole::File
            } else {
                FieldRole::Ignored
            }
        },
        None => FieldRole::Unnamed,
    }
}

/// How the buffered request treats the field named `name`: the body holds
/// exactly the `file` and `name` fields, so any other name fails it. The
/// `name` field is accepted and skipped, since the file name comes with the
/// `file` field.
pub fn classify_buffered_field(name: Option<&str>) -> (r: FieldRole)
    ensures
        match name {
            Some(n) => if n@ == "file"@ {
                r == FieldRole::File
            } else if n@ == "name"@ {
                r == FieldRole::Ignored
            } else {
                r == FieldRole::Unexpected
            },
            None => r == FieldRole::Unnamed,
        },
{
    match name {
        Some(n) => {
            let cs = chars_of(n);
            if chars_eq_str(cs.as_slice(), "file") {
                FieldRole::File
            } else if chars_eq_str(cs.as_slice(), "name") {
                FieldRole::Ignored
            } else {
                FieldRole::Unexpected
            }
        },
        None => FieldRole::Unnamed,
    }
}

/// The error text for a field named `name` that the buffered request does
/// not expect.
pub fn unexpected_field_error(name: &str) -> (e: String)
    ensures
        e@ == "multipart field `"@ + name@ + "` is not expected"@,
{
    let mut cs = chars_of("multipart field `");
    push_str(&mut cs, name);
    push_str(&mut cs, "` is not expected");
    string_from_chars(cs.as_slice())
}

/// The error text for a field without a name.
pub fn unnamed_field_error() -> (e: String)
    ensures
        e@ == "multipart field is missing a name"@,
{
    let cs = chars_of("multipart field is missing a name");
    string_from_chars(cs.as_slice())
}

/// Assembles a buffered multipart request from what the `file` field gave:
/// its bytes, its content type and its file name.
pub fn multipart_request(
    file: Option<Vec<u8>>,
    file_content_type: Option<String>,
    name: Option<String>,
) -> (r: Result<MultipartReq, String>)
    ensures
        file is None ==> (r matches Err(e) && e@ == "missing required field `file`"@),
        file is Some && name is None ==> (r matches Err(e) && e@
            == "missing required field `name`"@),
        file is Some && name is Some ==> (r matches Ok(req) && req.file@ == file->0@
            && req.file_content_type == file_content_type && req._name == name->0),
{
    match file {
        None => {
            let cs = chars_of("missing required field `file`");
            Err(string_from_chars(cs.as_slice()))
        },
        Some(bytes) => match name {
            None => {
                let cs = chars_of("missing required field `name`");
                Err(string_from_chars(cs.as_slice()))
            },
            Some(n) => Ok(MultipartReq { file: bytes, file_content_type, _name: n }),
        },
    }
}

/// Where a streamed multipart `file` field is written, by the file name it
/// came with: `./uploads/multipart_stream/<name>`.
pub fn multipart_stream_target(file_name: Option<&str>) -> (r: Result<String, String>)
    ensures
        match file_name {
            None => r matches Err(e) && e@ == "missing file name"@,
            Some(n) => if n@.len() == 0 {
                r matches Err(e) && e@ == "empty file name"@
            } else {
                r matches Ok(p) && p@ == "./uploads/multipart_stream/"@ + n@
            },
        },
{
    match file_name {
        None => {
            let cs = chars_of("missing file name");
            Err(string_from_chars(cs.as_slice()))
        },
        Some(n) => {
            let name = chars_of(n);
            if name.len() == 0 {
                let cs = chars_of("empty file name");
                return Err(string_from_chars(cs.as_slice()));
            }
            let mut p = chars_of("./uploads/multipart_stream/");
            push_str(&mut p, n);
            Ok(string_from_chars(p.as_slice()))
        },
    }
}

/// The outcome of a streamed multipart upload once every field was read:
/// the path written, or an error when no `file` field was written.
pub fn multipart_stream_outcome(saved_path: String) -> (r: Result<String, String>)
    ensures
        saved_path@.len() == 0 ==> (r matches Err(e) && e@ == "missing required field `file`"@),
        saved_path@.len() > 0 ==> r == Ok::<String, String>(saved_path),
{
    let cs = chars_of(saved_path.as_str());
    if cs.len() == 0 {
        let e = chars_of("missing required field `file`");
        Err(string_from_chars(e.as_slice()))
    } else {
        Ok(saved_path)
    }
}

} // verus!
