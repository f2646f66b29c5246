//! The demonstration endpoint shapes and the pure parts of the upload and
//! error handlers: mapping a requested error code to a service error,
//! categorizing an uploaded file by its content type, and laying out the
//! storage path a file is saved under.

use vstd::prelude::*;
use vstd::string::*;

use crate::numfmt::{spec_dec, spec_dec2, u64_to_dec, u64_to_dec2};
use crate::query::str_eq;
use crate::response::AppError;

verus! {

/// The query parameters of the echo endpoint.
#[derive(Clone, Debug, PartialEq)]
pub struct Params {
    pub name: String,
    pub age: Option<u32>,
}

/// The request body of the echo endpoint.
#[derive(Clone, Debug, PartialEq)]
pub struct Payloads {
    pub name: String,
    pub age: Option<u32>,
}

/// The query parameter of the error endpoint: the status code to fail
/// with.
#[derive(Clone, Debug, PartialEq)]
pub struct ErrorType {
    pub code: i32,
}

/// The query parameters of the download endpoint.
#[derive(Clone, Debug, PartialEq)]
pub struct ParamsFile {
    pub file_path: String,
    pub file_name: String,
}

/// The error a requested code maps to: 404 and 500 fail with the matching
/// error, every other code succeeds.
pub fn error_for_code(code: i32) -> (r: Option<AppError>)
    ensures
        code == 404 ==> (r matches Some(e) && e is NotFound),
        code == 500 ==> (r matches Some(e) && e is InternalServerError),
        code != 404 && code != 500 ==> r is None,
{
    if code == 404 {
        Some(AppError::NotFound)
    } else if code == 500 {
        Some(AppError::InternalServerError)
    } else {
        None
    }
}

/// The storage category of an uploaded file, by its content type: image,
/// audio, video or document types land in their category, everything else
/// is unknown.
pub open spec fn spec_category(t: Seq<char>) -> Seq<char> {
    if t == "image/jpeg"@ || t == "image/png"@ || t == "image/gif"@ {
        "image"@
    } else if t == "audio/mpeg"@ || t == "audio/wav"@ || t == "audio/ogg"@ {
        "audio"@
    } else if t == "video/mp4"@ || t == "video/x-msvideo"@ || t == "video/x-flv"@ {
        "video"@
    } else if t == "application/pdf"@ || t == "application/msword"@ || t
        == "application/vnd.openxmlformats-officedocument.wordprocessingml.document"@ {
        "document"@
    } else {
        "unknown"@
    }
}

/// Categorizes an uploaded file by its content type.
pub fn categorize_content_type(content_type: &str) -> (r: &'static str)
    ensures
        r@ == spec_category(content_type@),
{
    let t = content_type;
    if str_eq(t, "image/jpeg") || str_eq(t, "image/png") || str_eq(t, "image/gif") {
        "image"
    } else if str_eq(t, "audio/mpeg") || str_eq(t, "audio/wav") || str_eq(t, "audio/ogg") {
        "audio"
    } else if str_eq(t, "video/mp4") || str_eq(t, "video/x-msvideo") || str_eq(t, "video/x-flv") {
        "video"
    } else if str_eq(t, "application/pdf") || str_eq(t, "application/msword") || str_eq(
        t,
        "application/vnd.openxmlformats-officedocument.wordprocessingml.document",
    ) {
        "document"
    } else {
        "unknown"
    }
}

/// The directory an uploaded file is stored under: its category, then the
/// upload date as year, two-digit month and two-digit day.
pub open spec fn spec_storage_dir(category: Seq<char>, year: int, month: int, day: int)
    -> Seq<char> {
    "data/"@ + category + "/"@ + spec_dec(year) + "/"@ + spec_dec2(month) + "/"@ + spec_dec2(day)
}

/// Lays out the storage directory of an upload.
pub fn storage_dir(category: &str, year: u64, month: u64, day: u64) -> (r: String)
    ensures
        r@ == spec_storage_dir(category@, year as int, month as int, day as int),
{
    let mut out = String::from_str("data/");
    out.append(category);
    out.append("/");
    let y = u64_to_dec(year);
    out.append(y.as_str());
    out.append("/");
    let m = u64_to_dec2(month);
    out.append(m.as_str());
    out.append("/");
    let d = u64_to_dec2(day);
    out.append(d.as_str());
    proof {
        assert(out@ =~= spec_storage_dir(category@, year as int, month as int, day as int));
    }
    out
}

/// The full path of a file inside a directory.
pub fn file_path_in(dir: &str, file_name: &str) -> (r: String)
    ensures
        r@ == dir@ + "/"@ + file_name@,
{
    let mut out = String::from_str(dir);
    out.append("/");
    out.append(file_name);
    out
}

} // verus!
