use vstd::prelude::*;
use crate::error::ApiError;
use crate::filename::{
    extension_of, file_extension, final_component, is_safe_char, lemma_sanitized_name_is_safe,
    sanitize_filename, sanitized_name,
};
use crate::signature::{magic_number_matches, verify_image_magic_number};
use crate::text::{decimal, lemma_decimal_is_digits, push_decimal, same_text};

verus! {

/// The extensions under which an upload is taken.
pub open spec fn allowed_extension(extension: Seq<char>) -> bool {
    ||| extension == ".jpg"@
    ||| extension == ".jpeg"@
    ||| extension == ".png"@
    ||| extension == ".gif"@
    ||| extension == ".webp"@
}

/// Whether an upload with this extension is taken at all.
pub fn is_allowed_extension(extension: &str) -> (allowed: bool)
    ensures
        allowed == allowed_extension(extension@),
{
    same_text(extension, ".jpg") || same_text(extension, ".jpeg") || same_text(extension, ".png")
        || same_text(extension, ".gif") || same_text(extension, ".webp")
}

/// The largest upload that is taken, in bytes: 10 MiB.
pub const MAX_FILE_SIZE: usize = 10485760;

/// What is said of an upload whose stored name has this extension and
/// whose content is `data`: it passes, or it is a bad request.
pub open spec fn image_verdict(extension: Option<Seq<char>>, data: Seq<u8>) -> Result<(), ApiError> {
    match extension {
        Some(e) => if allowed_extension(e) && magic_number_matches(data, e) {
            Ok(())
        } else {
            Err(ApiError::BadRequest)
        },
        None => Err(ApiError::BadRequest),
    }
}

/// Takes the content only under an allowed extension whose signature it
/// carries. A name without an extension is refused.
pub fn check_image(extension: Option<&str>, data: &[u8]) -> (verdict: Result<(), ApiError>)
    ensures
        verdict == image_verdict(
            match extension {
                Some(e) => Some(e@),
                None => None,
            },
            data@,
        ),
{
    match extension {
        Some(e) => {
            if is_allowed_extension(e) && verify_image_magic_number(data, e) {
                Ok(())
            } else {
                Err(ApiError::BadRequest)
            }
        },
        None => Err(ApiError::BadRequest),
    }
}

/// The first field of a multipart upload, as far as it could be read.
pub struct UploadField {
    /// The file name that the client gave, if it gave one.
    pub file_name: Option<String>,
    /// The field's content, or `None` where reading it failed.
    pub body: Option<Vec<u8>>,
}

/// What an upload comes to: the sanitized name under which its content is
/// accepted, or the error that refuses it. The gates stand in this order:
/// a field, a file name, a body that could be read, the size cap, an
/// extension, the allow-list, the signature.
pub open spec fn upload_verdict(
    field: Option<(Option<Seq<char>>, Option<Seq<u8>>)>,
) -> Result<Seq<char>, ApiError> {
    match field {
        None => Err(ApiError::BadRequest),
        Some((None, _)) => Err(ApiError::BadRequest),
        Some((Some(_), None)) => Err(ApiError::BadRequest),
        Some((Some(file_name), Some(data))) => {
            let name = sanitized_name(final_component(file_name));
            if data.len() > MAX_FILE_SIZE {
                Err(ApiError::PayloadTooLarge)
            } else {
                match image_verdict(extension_of(name), data) {
                    Ok(_) => Ok(name),
                    Err(e) => Err(e),
                }
            }
        },
    }
}

impl UploadField {
    /// The field as the contracts see it: its name and its content, each as
    /// far as it is there.
    pub open spec fn view(&self) -> (Option<Seq<char>>, Option<Seq<u8>>) {
        (
            match self.file_name {
                Some(n) => Some(n@),
                None => None,
            },
            match self.body {
                Some(b) => Some(b@),
                None => None,
            },
        )
    }
}

/// Decides whether an upload is accepted, and under which sanitized name.
pub fn validate_upload(field: Option<&UploadField>) -> (verdict: Result<String, ApiError>)
    ensures
        match upload_verdict(
            match field {
                Some(f) => Some(f@),
                None => None,
            },
        ) {
            Ok(name) => verdict is Ok && verdict->Ok_0@ == name,
            Err(e) => verdict == Err::<String, ApiError>(e),
        },
{
    let field = match field {
        Some(f) => f,
        None => {
            return Err(ApiError::BadRequest);
        },
    };
    let file_name = match &field.file_name {
        Some(n) => n,
        None => {
            return Err(ApiError::BadRequest);
        },
    };
    let data = match &field.body {
        Some(b) => b,
        None => {
            return Err(ApiError::BadRequest);
        },
    };
    if data.len() > MAX_FILE_SIZE {
        return Err(ApiError::PayloadTooLarge);
    }
    let name = sanitize_filename(file_name.as_str());
    let extension = file_extension(name.as_str());
    let checked = match &extension {
        Some(e) => check_image(Some(e.as_str()), data.as_slice()),
        None => check_image(None, data.as_slice()),
    };
    match checked {
        Ok(_) => Ok(name),
        Err(e) => Err(e),
    }
}

/// The name under which an upload is stored: the time of the upload, `_`,
/// and the sanitized name.
pub open spec fn stored_name(timestamp: u64, name: Seq<char>) -> Seq<char> {
    decimal(timestamp as nat) + seq!['_'] + name
}

/// The name under which an upload taken at `timestamp` (seconds since the
/// Unix epoch) is stored.
pub fn stored_filename(timestamp: u64, name: &str) -> (stored: String)
    ensures
        stored@ == stored_name(timestamp, name@),
{
    let mut stored = String::new();
    push_decimal(&mut stored, timestamp);
    stored.push('_');
    stored.append(name);
    assert(stored@ =~= stored_name(timestamp, name@));
    stored
}

/// The path under which a stored upload is served.
pub open spec fn public_url(stored: Seq<char>) -> Seq<char> {
    "/uploads/"@ + stored
}

/// The file, relative to the working directory, that holds a stored upload.
pub open spec fn storage_path(stored: Seq<char>) -> Seq<char> {
    "../uploads/"@ + stored
}

/// The directory that holds the stored uploads.
pub fn upload_directory() -> (dir: String)
    ensures
        dir@ == "../uploads"@,
{
    String::from_str("../uploads")
}

/// What the client learns of an accepted upload, and where its bytes go.
pub struct UploadResponse {
    /// The public path of the file.
    pub url: String,
    /// The name under which it is stored.
    pub filename: String,
    /// The file to write the content to.
    pub path: String,
}

/// Where an accepted upload taken at `timestamp` goes: its stored name, the
/// file that holds it, and its public path.
pub fn stored_upload(timestamp: u64, name: &str) -> (response: UploadResponse)
    ensures
        response.filename@ == stored_name(timestamp, name@),
        response.url@ == public_url(stored_name(timestamp, name@)),
        response.path@ == storage_path(stored_name(timestamp, name@)),
{
    let filename = stored_filename(timestamp, name);
    let mut url = String::from_str("/uploads/");
    url.append(filename.as_str());
    let mut path = String::from_str("../uploads/");
    path.append(filename.as_str());
    UploadResponse { url, filename, path }
}

/// Handles the first field of a multipart upload taken at `timestamp`: it is
/// refused with the error of the first gate that it fails, or accepted with
/// the name, the file and the public path that come of its sanitized name.
/// Writing the content is left to the caller.
pub fn upload_file(field: Option<&UploadField>, timestamp: u64) -> (response: Result<
    UploadResponse,
    ApiError,
>)
    ensures
        match upload_verdict(
            match field {
                Some(f) => Some(f@),
                None => None,
            },
        ) {
            Ok(name) => {
                &&& response is Ok
                &&& response->Ok_0.filename@ == stored_name(timestamp, name)
                &&& response->Ok_0.url@ == public_url(stored_name(timestamp, name))
                &&& response->Ok_0.path@ == storage_path(stored_name(timestamp, name))
            },
            Err(e) => response is Err && response->Err_0 == e,
        },
{
    match validate_upload(field) {
        Ok(name) => Ok(stored_upload(timestamp, name.as_str())),
        Err(e) => Err(e),
    }
}

/// No upload is stored outside the upload directory: the stored name of an
/// accepted upload begins with a digit, so it is neither `.` nor `..`, and
/// it holds no `/` and no `\`, whatever path the client sent as file name.
pub proof fn lemma_stored_name_stays_in_directory(
    field: (Option<Seq<char>>, Option<Seq<u8>>),
    timestamp: u64,
)
    requires
        upload_verdict(Some(field)) is Ok,
    ensures
        ({
            let stored = stored_name(timestamp, upload_verdict(Some(field))->Ok_0);
            &&& stored.len() >= 2
            &&& '0' <= stored[0] <= '9'
            &&& forall|i: int| 0 <= i < stored.len() ==> stored[i] != '/' && stored[i] != '\\'
        }),
{
    let name = upload_verdict(Some(field))->Ok_0;
    let stored = stored_name(timestamp, name);
    let digits = decimal(timestamp as nat);
    lemma_decimal_is_digits(timestamp as nat);
    lemma_sanitized_name_is_safe(final_component(field.0->Some_0));
    assert(stored[0] == digits[0]);
    assert forall|i: int| 0 <= i < stored.len() implies stored[i] != '/' && stored[i] != '\\' by {
        if i < digits.len() {
            assert(stored[i] == digits[i]);
        } else if i == digits.len() {
            assert(stored[i] == '_');
        } else {
            assert(stored[i] == name[i - digits.len() - 1]);
            assert(is_safe_char(name[i - digits.len() - 1]));
        }
    }
}

/// An upload whose field, file name and body are there and whose body is
/// over the size cap is refused as too large, whatever its name and content.
pub proof fn lemma_oversized_upload_is_refused(file_name: Seq<char>, data: Seq<u8>)
    requires
        data.len() > MAX_FILE_SIZE,
    ensures
        upload_verdict(Some((Some(file_name), Some(data)))) == Err::<Seq<char>, ApiError>(
            ApiError::PayloadTooLarge,
        ),
{
}

} // verus!
