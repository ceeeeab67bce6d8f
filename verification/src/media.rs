//! Profile pictures and life-story media: accepted types, file names, size
//! caps and the storage quota of a plan.

use vstd::prelude::*;
use vstd::string::StringExecFns;
use crate::auth::{spec_life_media_allowed, ClannAuth};
use crate::text::str_eq;

verus! {

/// Hard cap on the size of a profile picture (2 MB).
pub const MAX_IMAGE_BYTES: usize = 2097152;

/// The canonical file extension of a supported MIME type.
pub open spec fn ext_of_mime(m: Seq<char>) -> Option<Seq<char>> {
    if m == "image/jpeg"@ || m == "image/jpg"@ {
        Some("jpg"@)
    } else if m == "image/png"@ {
        Some("png"@)
    } else if m == "image/gif"@ {
        Some("gif"@)
    } else if m == "image/webp"@ {
        Some("webp"@)
    } else if m == "video/mp4"@ {
        Some("mp4"@)
    } else if m == "video/quicktime"@ {
        Some("mov"@)
    } else if m == "video/webm"@ {
        Some("webm"@)
    } else if m == "audio/mpeg"@ || m == "audio/mp3"@ {
        Some("mp3"@)
    } else if m == "audio/wav"@ || m == "audio/wave"@ || m == "audio/x-wav"@ {
        Some("wav"@)
    } else if m == "audio/ogg"@ {
        Some("ogg"@)
    } else if m == "application/pdf"@ {
        Some("pdf"@)
    } else {
        None
    }
}

/// The MIME type under which a file with the extension is served.
pub open spec fn mime_of_ext(e: Seq<char>) -> Seq<char> {
    if e == "jpg"@ || e == "jpeg"@ {
        "image/jpeg"@
    } else if e == "png"@ {
        "image/png"@
    } else if e == "gif"@ {
        "image/gif"@
    } else if e == "webp"@ {
        "image/webp"@
    } else if e == "mp4"@ {
        "video/mp4"@
    } else if e == "mov"@ {
        "video/quicktime"@
    } else if e == "webm"@ {
        "video/webm"@
    } else if e == "mp3"@ {
        "audio/mpeg"@
    } else if e == "wav"@ {
        "audio/wav"@
    } else if e == "ogg"@ {
        "audio/ogg"@
    } else if e == "pdf"@ {
        "application/pdf"@
    } else {
        "application/octet-stream"@
    }
}

/// Maps a MIME type to its canonical file extension; `None` for
/// unsupported types.
pub fn ext_for_mime(mime: &str) -> (r: Option<&'static str>)
    ensures
        match r {
            Some(e) => ext_of_mime(mime@) == Some(e@),
            None => ext_of_mime(mime@) is None,
        },
{
    if str_eq(mime, "image/jpeg") || str_eq(mime, "image/jpg") {
        Some("jpg")
    } else if str_eq(mime, "image/png") {
        Some("png")
    } else if str_eq(mime, "image/gif") {
        Some("gif")
    } else if str_eq(mime, "image/webp") {
        Some("webp")
    } else if str_eq(mime, "video/mp4") {
        Some("mp4")
    } else if str_eq(mime, "video/quicktime") {
        Some("mov")
    } else if str_eq(mime, "video/webm") {
        Some("webm")
    } else if str_eq(mime, "audio/mpeg") || str_eq(mime, "audio/mp3") {
        Some("mp3")
    } else if str_eq(mime, "audio/wav") || str_eq(mime, "audio/wave") || str_eq(mime, "audio/x-wav") {
        Some("wav")
    } else if str_eq(mime, "audio/ogg") {
        Some("ogg")
    } else if str_eq(mime, "application/pdf") {
        Some("pdf")
    } else {
        None
    }
}

/// Maps a file extension to its MIME type for serving; unknown extensions
/// are served as `application/octet-stream`.
pub fn mime_for_ext(ext: &str) -> (r: &'static str)
    ensures
        r@ == mime_of_ext(ext@),
{
    if str_eq(ext, "jpg") || str_eq(ext, "jpeg") {
        "image/jpeg"
    } else if str_eq(ext, "png") {
        "image/png"
    } else if str_eq(ext, "gif") {
        "image/gif"
    } else if str_eq(ext, "webp") {
        "image/webp"
    } else if str_eq(ext, "mp4") {
        "video/mp4"
    } else if str_eq(ext, "mov") {
        "video/quicktime"
    } else if str_eq(ext, "webm") {
        "video/webm"
    } else if str_eq(ext, "mp3") {
        "audio/mpeg"
    } else if str_eq(ext, "wav") {
        "audio/wav"
    } else if str_eq(ext, "ogg") {
        "audio/ogg"
    } else if str_eq(ext, "pdf") {
        "application/pdf"
    } else {
        "application/octet-stream"
    }
}

/// A file stored under the extension of an accepted MIME type is served
/// under a MIME type with that same extension, never as the generic
/// `application/octet-stream`.
pub proof fn lemma_stored_media_served_consistently(mime: Seq<char>)
    requires
        ext_of_mime(mime) is Some,
    ensures
        ext_of_mime(mime_of_ext(ext_of_mime(mime)->0)) == ext_of_mime(mime),
        mime_of_ext(ext_of_mime(mime)->0) != "application/octet-stream"@,
{
    reveal_strlit("jpg");
    reveal_strlit("jpeg");
    reveal_strlit("png");
    reveal_strlit("gif");
    reveal_strlit("webp");
    reveal_strlit("mp4");
    reveal_strlit("mov");
    reveal_strlit("webm");
    reveal_strlit("mp3");
    reveal_strlit("wav");
    reveal_strlit("ogg");
    reveal_strlit("pdf");
    reveal_strlit("image/jpeg");
    reveal_strlit("image/jpg");
    reveal_strlit("image/png");
    reveal_strlit("image/gif");
    reveal_strlit("image/webp");
    reveal_strlit("video/mp4");
    reveal_strlit("video/quicktime");
    reveal_strlit("video/webm");
    reveal_strlit("audio/mpeg");
    reveal_strlit("audio/mp3");
    reveal_strlit("audio/wav");
    reveal_strlit("audio/wave");
    reveal_strlit("audio/x-wav");
    reveal_strlit("audio/ogg");
    reveal_strlit("application/pdf");
    assert("jpg"@.len() != "jpeg"@.len());
    assert("jpg"@[0] != "png"@[0]);
    assert("jpg"@[0] != "gif"@[0]);
    assert("jpg"@.len() != "webp"@.len());
    assert("jpg"@[0] != "mp4"@[0]);
    assert("jpg"@[0] != "mov"@[0]);
    assert("jpg"@.len() != "webm"@.len());
    assert("jpg"@[0] != "mp3"@[0]);
    assert("jpg"@[0] != "wav"@[0]);
    assert("jpg"@[0] != "ogg"@[0]);
    assert("jpg"@[0] != "pdf"@[0]);
    assert("jpeg"@.len() != "png"@.len());
    assert("jpeg"@.len() != "gif"@.len());
    assert("jpeg"@[0] != "webp"@[0]);
    assert("jpeg"@.len() != "mp4"@.len());
    assert("jpeg"@.len() != "mov"@.len());
    assert("jpeg"@[0] != "webm"@[0]);
    assert("jpeg"@.len() != "mp3"@.len());
    assert("jpeg"@.len() != "wav"@.len());
    assert("jpeg"@.len() != "ogg"@.len());
    assert("jpeg"@.len() != "pdf"@.len());
    assert("png"@[0] != "gif"@[0]);
    assert("png"@.len() != "webp"@.len());
    assert("png"@[0] != "mp4"@[0]);
    assert("png"@[0] != "mov"@[0]);
    assert("png"@.len() != "webm"@.len());
    assert("png"@[0] != "mp3"@[0]);
    assert("png"@[0] != "wav"@[0]);
    assert("png"@[0] != "ogg"@[0]);
    assert("png"@[1] != "pdf"@[1]);
    assert("gif"@.len() != "webp"@.len());
    assert("gif"@[0] != "mp4"@[0]);
    assert("gif"@[0] != "mov"@[0]);
    assert("gif"@.len() != "webm"@.len());
    assert("gif"@[0] != "mp3"@[0]);
    assert("gif"@[0] != "wav"@[0]);
    assert("gif"@[0] != "ogg"@[0]);
    assert("gif"@[0] != "pdf"@[0]);
    assert("webp"@.len() != "mp4"@.len());
    assert("webp"@.len() != "mov"@.len());
    assert("webp"@[3] != "webm"@[3]);
    assert("webp"@.len() != "mp3"@.len());
    assert("webp"@.len() != "wav"@.len());
    assert("webp"@.len() != "ogg"@.len());
    assert("webp"@.len() != "pdf"@.len());
    assert("mp4"@[1] != "mov"@[1]);
    assert("mp4"@.len() != "webm"@.len());
    assert("mp4"@[2] != "mp3"@[2]);
    assert("mp4"@[0] != "wav"@[0]);
    assert("mp4"@[0] != "ogg"@[0]);
    assert("mp4"@[0] != "pdf"@[0]);
    assert("mov"@.len() != "webm"@.len());
    assert("mov"@[1] != "mp3"@[1]);
    assert("mov"@[0] != "wav"@[0]);
    assert("mov"@[0] != "ogg"@[0]);
    assert("mov"@[0] != "pdf"@[0]);
    assert("webm"@.len() != "mp3"@.len());
    assert("webm"@.len() != "wav"@.len());
    assert("webm"@.len() != "ogg"@.len());
    assert("webm"@.len() != "pdf"@.len());
    assert("mp3"@[0] != "wav"@[0]);
    assert("mp3"@[0] != "ogg"@[0]);
    assert("mp3"@[0] != "pdf"@[0]);
    assert("wav"@[0] != "ogg"@[0]);
    assert("wav"@[0] != "pdf"@[0]);
    assert("ogg"@[0] != "pdf"@[0]);
    assert("image/jpeg"@.len() != "image/jpg"@.len());
    assert("image/jpeg"@.len() != "image/png"@.len());
    assert("image/jpeg"@.len() != "image/gif"@.len());
    assert("image/jpeg"@[6] != "image/webp"@[6]);
    assert("image/jpeg"@.len() != "video/mp4"@.len());
    assert("image/jpeg"@.len() != "video/quicktime"@.len());
    assert("image/jpeg"@[0] != "video/webm"@[0]);
    assert("image/jpeg"@[0] != "audio/mpeg"@[0]);
    assert("image/jpeg"@.len() != "audio/mp3"@.len());
    assert("image/jpeg"@.len() != "audio/wav"@.len());
    assert("image/jpeg"@[0] != "audio/wave"@[0]);
    assert("image/jpeg"@.len() != "audio/x-wav"@.len());
    assert("image/jpeg"@.len() != "audio/ogg"@.len());
    assert("image/jpeg"@.len() != "application/pdf"@.len());
    assert("image/jpg"@[6] != "image/png"@[6]);
    assert("image/jpg"@[6] != "image/gif"@[6]);
    assert("image/jpg"@.len() != "image/webp"@.len());
    assert("image/jpg"@[0] != "video/mp4"@[0]);
    assert("image/jpg"@.len() != "video/quicktime"@.len());
    assert("image/jpg"@.len() != "video/webm"@.len());
    assert("image/jpg"@.len() != "audio/mpeg"@.len());
    assert("image/jpg"@[0] != "audio/mp3"@[0]);
    assert("image/jpg"@[0] != "audio/wav"@[0]);
    assert("image/jpg"@.len() != "audio/wave"@.len());
    assert("image/jpg"@.len() != "audio/x-wav"@.len());
    assert("image/jpg"@[0] != "audio/ogg"@[0]);
    assert("image/jpg"@.len() != "application/pdf"@.len());
    assert("image/png"@[6] != "image/gif"@[6]);
    assert("image/png"@.len() != "image/webp"@.len());
    assert("image/png"@[0] != "video/mp4"@[0]);
    assert("image/png"@.len() != "video/quicktime"@.len());
    assert("image/png"@.len() != "video/webm"@.len());
    assert("image/png"@.len() != "audio/mpeg"@.len());
    assert("image/png"@[0] != "audio/mp3"@[0]);
    assert("image/png"@[0] != "audio/wav"@[0]);
    assert("image/png"@.len() != "audio/wave"@.len());
    assert("image/png"@.len() != "audio/x-wav"@.len());
    assert("image/png"@[0] != "audio/ogg"@[0]);
    assert("image/png"@.len() != "application/pdf"@.len());
    assert("image/gif"@.len() != "image/webp"@.len());
    assert("image/gif"@[0] != "video/mp4"@[0]);
    assert("image/gif"@.len() != "video/quicktime"@.len());
    assert("image/gif"@.len() != "video/webm"@.len());
    assert("image/gif"@.len() != "audio/mpeg"@.len());
    assert("image/gif"@[0] != "audio/mp3"@[0]);
    assert("image/gif"@[0] != "audio/wav"@[0]);
    assert("image/gif"@.len() != "audio/wave"@.len());
    assert("image/gif"@.len() != "audio/x-wav"@.len());
    assert("image/gif"@[0] != "audio/ogg"@[0]);
    assert("image/gif"@.len() != "application/pdf"@.len());
    assert("image/webp"@.len() != "video/mp4"@.len());
    assert("image/webp"@.len() != "video/quicktime"@.len());
    assert("image/webp"@[0] != "video/webm"@[0]);
    assert("image/webp"@[0] != "audio/mpeg"@[0]);
    assert("image/webp"@.len() != "audio/mp3"@.len());
    assert("image/webp"@.len() != "audio/wav"@.len());
    assert("image/webp"@[0] != "audio/wave"@[0]);
    assert("image/webp"@.len() != "audio/x-wav"@.len());
    assert("image/webp"@.len() != "audio/ogg"@.len());
    assert("image/webp"@.len() != "application/pdf"@.len());
    assert("video/mp4"@.len() != "video/quicktime"@.len());
    assert("video/mp4"@.len() != "video/webm"@.len());
    assert("video/mp4"@.len() != "audio/mpeg"@.len());
    assert("video/mp4"@[0] != "audio/mp3"@[0]);
    assert("video/mp4"@[0] != "audio/wav"@[0]);
    assert("video/mp4"@.len() != "audio/wave"@.len());
    assert("video/mp4"@.len() != "audio/x-wav"@.len());
    assert("video/mp4"@[0] != "audio/ogg"@[0]);
    assert("video/mp4"@.len() != "application/pdf"@.len());
    assert("video/quicktime"@.len() != "video/webm"@.len());
    assert("video/quicktime"@.len() != "audio/mpeg"@.len());
    assert("video/quicktime"@.len() != "audio/mp3"@.len());
    assert("video/quicktime"@.len() != "audio/wav"@.len());
    assert("video/quicktime"@.len() != "audio/wave"@.len());
    assert("video/quicktime"@.len() != "audio/x-wav"@.len());
    assert("video/quicktime"@.len() != "audio/ogg"@.len());
    assert("video/quicktime"@[0] != "application/pdf"@[0]);
    assert("video/webm"@[0] != "audio/mpeg"@[0]);
    assert("video/webm"@.len() != "audio/mp3"@.len());
    assert("video/webm"@.len() != "audio/wav"@.len());
    assert("video/webm"@[0] != "audio/wave"@[0]);
    assert("video/webm"@.len() != "audio/x-wav"@.len());
    assert("video/webm"@.len() != "audio/ogg"@.len());
    assert("video/webm"@.len() != "application/pdf"@.len());
    assert("audio/mpeg"@.len() != "audio/mp3"@.len());
    assert("audio/mpeg"@.len() != "audio/wav"@.len());
    assert("audio/mpeg"@[6] != "audio/wave"@[6]);
    assert("audio/mpeg"@.len() != "audio/x-wav"@.len());
    assert("audio/mpeg"@.len() != "audio/ogg"@.len());
    assert("audio/mpeg"@.len() != "application/pdf"@.len());
    assert("audio/mp3"@[6] != "audio/wav"@[6]);
    assert("audio/mp3"@.len() != "audio/wave"@.len());
    assert("audio/mp3"@.len() != "audio/x-wav"@.len());
    assert("audio/mp3"@[6] != "audio/ogg"@[6]);
    assert("audio/mp3"@.len() != "application/pdf"@.len());
    assert("audio/wav"@.len() != "audio/wave"@.len());
    assert("audio/wav"@.len() != "audio/x-wav"@.len());
    assert("audio/wav"@[6] != "audio/ogg"@[6]);
    assert("audio/wav"@.len() != "application/pdf"@.len());
    assert("audio/wave"@.len() != "audio/x-wav"@.len());
    assert("audio/wave"@.len() != "audio/ogg"@.len());
    assert("audio/wave"@.len() != "application/pdf"@.len());
    assert("audio/x-wav"@.len() != "audio/ogg"@.len());
    assert("audio/x-wav"@.len() != "application/pdf"@.len());
    assert("audio/ogg"@.len() != "application/pdf"@.len());
    reveal_strlit("application/octet-stream");
    assert("application/octet-stream"@[0] != "image/jpeg"@[0]);
    assert("application/octet-stream"@[0] != "image/png"@[0]);
    assert("application/octet-stream"@[0] != "image/gif"@[0]);
    assert("application/octet-stream"@[0] != "image/webp"@[0]);
    assert("application/octet-stream"@[0] != "video/mp4"@[0]);
    assert("application/octet-stream"@[0] != "video/quicktime"@[0]);
    assert("application/octet-stream"@[0] != "video/webm"@[0]);
    assert("application/octet-stream"@[1] != "audio/mpeg"@[1]);
    assert("application/octet-stream"@[1] != "audio/wav"@[1]);
    assert("application/octet-stream"@[1] != "audio/ogg"@[1]);
    assert("application/octet-stream"@.len() != "application/pdf"@.len());
}

/// A file whose extension is none of the known ones is served as
/// `application/octet-stream`.
pub proof fn lemma_unknown_extension_served_as_octet_stream(e: Seq<char>)
    requires
        e != "jpg"@, e != "jpeg"@, e != "png"@, e != "gif"@, e != "webp"@, e != "mp4"@,
        e != "mov"@, e != "webm"@, e != "mp3"@, e != "wav"@, e != "ogg"@, e != "pdf"@,
    ensures
        mime_of_ext(e) == "application/octet-stream"@,
{
}

/// Why an upload is refused.
#[derive(Debug, Clone, PartialEq, Eq)]
pub enum MediaError {
    /// The file field has no content type.
    MissingContentType,
    /// A profile picture that is neither JPG nor PNG.
    UnsupportedImageType(String),
    /// A life-story media type that the plan does not allow.
    PlanDisallows(String),
    /// A life-story media type with no known extension.
    UnsupportedMediaType(String),
    /// A profile picture over the size cap; the bytes received so far.
    TooLarge(usize),
    /// The file field is empty.
    Empty,
    /// The upload would exceed the plan's storage; the limit in MB.
    StorageLimit(i64),
}

/// The extension of a profile picture: JPG and PNG only, whatever the plan.
pub fn profile_image_ext(content_type: Option<&str>) -> (r: Result<&'static str, MediaError>)
    ensures
        match content_type {
            None => r == Err::<&'static str, MediaError>(MediaError::MissingContentType),
            Some(ct) => if ct@ == "image/jpeg"@ || ct@ == "image/jpg"@ {
                r is Ok && r->Ok_0@ == "jpg"@
            } else if ct@ == "image/png"@ {
                r is Ok && r->Ok_0@ == "png"@
            } else {
                r matches Err(MediaError::UnsupportedImageType(t)) && t@ == ct@
            },
        },
{
    match content_type {
        None => Err(MediaError::MissingContentType),
        Some(ct) => {
            if str_eq(ct, "image/jpeg") || str_eq(ct, "image/jpg") {
                Ok("jpg")
            } else if str_eq(ct, "image/png") {
                Ok("png")
            } else {
                Err(MediaError::UnsupportedImageType(ct.to_owned()))
            }
        },
    }
}

/// The extension of life-story media: the plan must allow the type, and
/// the type must have a known extension.
pub fn life_media_ext(auth: &ClannAuth, content_type: Option<&str>) -> (r: Result<&'static str, MediaError>)
    ensures
        match content_type {
            None => r == Err::<&'static str, MediaError>(MediaError::MissingContentType),
            Some(ct) => if !spec_life_media_allowed(auth.tier@, ct@) {
                r matches Err(MediaError::PlanDisallows(t)) && t@ == ct@
            } else {
                match ext_of_mime(ct@) {
                    Some(e) => r is Ok && r->Ok_0@ == e,
                    None => r matches Err(MediaError::UnsupportedMediaType(t)) && t@ == ct@,
                }
            },
        },
{
    match content_type {
        None => Err(MediaError::MissingContentType),
        Some(ct) => {
            if !auth.life_media_type_allowed(ct) {
                return Err(MediaError::PlanDisallows(ct.to_owned()));
            }
            match ext_for_mime(ct) {
                Some(e) => Ok(e),
                None => Err(MediaError::UnsupportedMediaType(ct.to_owned())),
            }
        },
    }
}

/// Whether a profile picture of `received` bytes so far is over the cap.
pub fn image_too_large(received: usize) -> (r: Result<(), MediaError>)
    ensures
        received > MAX_IMAGE_BYTES ==> r == Err::<(), MediaError>(MediaError::TooLarge(received)),
        received <= MAX_IMAGE_BYTES ==> r is Ok,
{
    if received > MAX_IMAGE_BYTES {
        Err(MediaError::TooLarge(received))
    } else {
        Ok(())
    }
}

/// An empty file is refused.
pub fn check_not_empty(len: usize) -> (r: Result<(), MediaError>)
    ensures
        r is Ok <==> len > 0,
        r is Err ==> r == Err::<(), MediaError>(MediaError::Empty),
{
    if len == 0 {
        Err(MediaError::Empty)
    } else {
        Ok(())
    }
}

/// The storage quota check: the user's stored bytes with the replaced
/// file's bytes taken out and the new file's added must not exceed the
/// plan's limit. The refusal carries the limit in whole MB.
pub fn check_storage_quota(limit: Option<i64>, total: i64, old_bytes: Option<i64>, new_size: i64) -> (r: Result<(), MediaError>)
    ensures
        match limit {
            None => r is Ok,
            Some(l) => {
                let old = match old_bytes {
                    Some(b) => b as int,
                    None => 0int,
                };
                if total - old + new_size > l {
                    r == Err::<(), MediaError>(MediaError::StorageLimit(
                        (if l >= 0 { l / 1048576 } else { -((-l) / 1048576) }) as i64,
                    ))
                } else {
                    r is Ok
                }
            },
        },
{
    match limit {
        None => Ok(()),
        Some(l) => {
            let old: i64 = match old_bytes {
                Some(b) => b,
                None => 0,
            };
            let after: i128 = total as i128 - old as i128 + new_size as i128;
            if after > l as i128 {
                let mb: i64 = if l >= 0 { l / 1048576 } else { (-((-(l as i128)) / 1048576)) as i64 };
                Err(MediaError::StorageLimit(mb))
            } else {
                Ok(())
            }
        },
    }
}

/// The text after the last `.` of a file name (all of it when there is none).
pub open spec fn extension_of(name: Seq<char>) -> Seq<char> {
    if exists|i: int| 0 <= i < name.len() && name[i] == '.' {
        let i = choose|i: int| 0 <= i < name.len() && name[i] == '.' && forall|j: int| i < j < name.len() ==> name[j] != '.';
        name.skip(i + 1)
    } else {
        name
    }
}

/// The extension of a stored file name (`rsplit('.')`'s first piece).
pub fn file_extension(name: &str) -> (r: &str)
    ensures
        r@ == extension_of(name@),
{
    let cs = crate::text::chars_of(name);
    let n = cs.len();
    let mut k: usize = n;
    while k > 0
        invariant
            cs@ == name@,
            n == cs.len(),
            k <= n,
            forall|j: int| k <= j < n ==> name@[j] != '.',
        decreases k,
    {
        if cs[k - 1] == '.' {
            let r = name.substring_char(k, n);
            proof {
                let i = (k - 1) as int;
                assert(name@[i] == '.' && forall|j: int| i < j < n ==> name@[j] != '.');
                let c = choose|c: int| 0 <= c < name@.len() && name@[c] == '.' && forall|j: int| c < j < name@.len() ==> name@[j] != '.';
                if c < i {
                    assert(name@[i] != '.');
                } else if c > i {
                    assert(name@[c] != '.');
                }
                assert(r@ =~= name@.skip(i + 1));
            }
            return r;
        }
        k = k - 1;
    }
    proof {
        assert(name@.subrange(0, n as int) =~= name@);
    }
    let r = name.substring_char(0, n);
    proof {
        assert(r@ =~= name@);
    }
    r
}

/// The MIME type a stored media file is served with.
pub fn served_content_type(name: &str) -> (r: &'static str)
    ensures
        r@ == mime_of_ext(extension_of(name@)),
{
    mime_for_ext(file_extension(name))
}

/// The stored file name of a person's media: `<id>.<ext>` for the profile
/// picture and `<id>_life.<ext>` for life-story media.
pub fn media_filename(id: &str, ext: &str, life: bool) -> (r: String)
    ensures
        r@ == id@ + (if life { "_life."@ } else { "."@ }) + ext@,
{
    let mut name = String::from_str(id);
    if life {
        name.append("_life.");
    } else {
        name.append(".");
    }
    name.append(ext);
    name
}

/// The extensions of earlier files that an upload replaces.
pub fn replaced_extensions(life: bool) -> (r: Vec<&'static str>)
    ensures
        !life ==> r@.len() == 2 && r@[0]@ == "jpg"@ && r@[1]@ == "png"@,
        life ==> r@.len() == 12 && r@[0]@ == "jpg"@ && r@[1]@ == "jpeg"@ && r@[2]@ == "png"@
            && r@[3]@ == "gif"@ && r@[4]@ == "webp"@ && r@[5]@ == "mp4"@ && r@[6]@ == "mov"@
            && r@[7]@ == "webm"@ && r@[8]@ == "mp3"@ && r@[9]@ == "wav"@ && r@[10]@ == "ogg"@
            && r@[11]@ == "pdf"@,
{
    if life {
        vec!["jpg", "jpeg", "png", "gif", "webp", "mp4", "mov", "webm", "mp3", "wav", "ogg", "pdf"]
    } else {
        vec!["jpg", "png"]
    }
}

} // verus!
