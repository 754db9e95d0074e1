//! Content types of the static assets, guessed from a path's extension.
use vstd::prelude::*;

verus! {

/// The extension of a path, as `std::path::Path::extension` finds it.
pub uninterp spec fn extension_of(path: Seq<char>) -> Option<Seq<char>>;

/// Relies on std::path::Path::extension: the part of the file name after
/// its last dot, if any; a path given as `&str` is valid UTF-8, so is its
/// extension.
#[verifier::external_body]
fn path_extension(path: &str) -> (r: Option<String>)
    ensures
        match r {
            Some(e) => extension_of(path@) == Some(e@),
            None => extension_of(path@) is None,
        },
{
    std::path::Path::new(path).extension().and_then(|e| e.to_str()).map(|e| e.to_owned())
}

/// The content type for a file extension.
pub open spec fn mime_for(ext: Option<Seq<char>>) -> Seq<char> {
    match ext {
        Some(e) => if e == "html"@ {
            "text/html"@
        } else if e == "js"@ || e == "mjs"@ || e == "jsonp"@ {
            "text/javascript"@
        } else if e == "json"@ {
            "text/json"@
        } else if e == "css"@ {
            "text/css"@
        } else if e == "svg"@ {
            "text/svg"@
        } else if e == "xml"@ {
            "text/xml"@
        } else if e == "ico"@ || e == "cur"@ {
            "image/x-icon"@
        } else if e == "bmp"@ {
            "image/bmp"@
        } else if e == "git"@ {
            "image/gif"@
        } else if e == "png"@ {
            "image/png"@
        } else if e == "jpg"@ || e == "jpeg"@ {
            "image/jpeg"@
        } else {
            "application/octet-stream"@
        },
        None => "application/octet-stream"@,
    }
}

fn text_is(s: &String, lit: &str) -> (r: bool)
    ensures
        r == (s@ == lit@),
{
    *s == lit.to_owned()
}

/// The content type for a file extension, or for a path without one.
pub fn mime_for_extension(ext: &Option<String>) -> (r: &'static str)
    ensures
        r@ == mime_for(
            match ext {
                Some(e) => Some(e@),
                None => None,
            },
        ),
{
    match ext {
        Some(e) => if text_is(e, "html") {
            "text/html"
        } else if text_is(e, "js") || text_is(e, "mjs") || text_is(e, "jsonp") {
            "text/javascript"
        } else if text_is(e, "json") {
            "text/json"
        } else if text_is(e, "css") {
            "text/css"
        } else if text_is(e, "svg") {
            "text/svg"
        } else if text_is(e, "xml") {
            "text/xml"
        } else if text_is(e, "ico") || text_is(e, "cur") {
            "image/x-icon"
        } else if text_is(e, "bmp") {
            "image/bmp"
        } else if text_is(e, "git") {
            "image/gif"
        } else if text_is(e, "png") {
            "image/png"
        } else if text_is(e, "jpg") || text_is(e, "jpeg") {
            "image/jpeg"
        } else {
            "application/octet-stream"
        },
        None => "application/octet-stream",
    }
}

pub struct MimeUtils;

impl MimeUtils {
    /// The content type to serve the file at `path` with.
    pub fn guess(path: &String) -> (r: &'static str)
        ensures
            r@ == mime_for(extension_of(path@)),
    {
        let ext = path_extension(path.as_str());
        mime_for_extension(&ext)
    }
}

} // verus!
