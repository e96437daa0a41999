use vstd::prelude::*;
use crate::text::{is_prefix, starts_with, str_eq, strip_prefix};

verus! {

/// Image file formats the loader recognises.
#[derive(Clone, Copy, Debug, PartialEq, Eq, Structural)]
pub enum ImageFormat {
    Png,
    Jpeg,
    Gif,
    WebP,
    Bmp,
}

/// Where an image comes from.
#[derive(Clone, Debug)]
pub enum ImageSource {
    /// A file path.
    File(String),
    /// A URL to fetch.
    Url(String),
    /// Base64 data, possibly a whole `data:` URI.
    Base64(String),
    /// Encoded bytes, with an optional hint of their format.
    Bytes { data: Vec<u8>, format: Option<ImageFormat> },
}

/// Lower-case form of a string, as `str::to_lowercase` gives it.
pub uninterp spec fn lower_of(s: Seq<char>) -> Seq<char>;

/// Relies on `str::to_lowercase`: the lower-case form depends on the characters
/// alone, and the empty string stays empty.
#[verifier::external_body]
pub(crate) fn lowercase(s: &str) -> (r: String)
    ensures
        r@ == lower_of(s@),
        s@.len() == 0 ==> r@.len() == 0,
{
    s.to_lowercase()
}

/// The format a lower-case file extension names.
pub open spec fn format_of_extension(ext: Seq<char>) -> Option<ImageFormat> {
    if ext == "png"@ {
        Some(ImageFormat::Png)
    } else if ext == "jpg"@ || ext == "jpeg"@ {
        Some(ImageFormat::Jpeg)
    } else if ext == "gif"@ {
        Some(ImageFormat::Gif)
    } else if ext == "webp"@ {
        Some(ImageFormat::WebP)
    } else if ext == "bmp"@ {
        Some(ImageFormat::Bmp)
    } else {
        None
    }
}

/// The format a MIME type names.
pub open spec fn format_of_mime(mime: Seq<char>) -> Option<ImageFormat> {
    if mime == "image/png"@ {
        Some(ImageFormat::Png)
    } else if mime == "image/jpeg"@ || mime == "image/jpg"@ {
        Some(ImageFormat::Jpeg)
    } else if mime == "image/gif"@ {
        Some(ImageFormat::Gif)
    } else if mime == "image/webp"@ {
        Some(ImageFormat::WebP)
    } else if mime == "image/bmp"@ {
        Some(ImageFormat::Bmp)
    } else {
        None
    }
}

impl ImageFormat {
    /// The format of a file extension, whatever its case.
    pub fn from_extension(ext: &str) -> (r: Option<ImageFormat>)
        ensures
            r == format_of_extension(lower_of(ext@)),
    {
        let lower = lowercase(ext);
        ImageFormat::from_lowercase_extension(lower.as_str())
    }

    /// The format of an extension already in lower case.
    pub fn from_lowercase_extension(ext: &str) -> (r: Option<ImageFormat>)
        ensures
            r == format_of_extension(ext@),
    {
        if str_eq(ext, "png") {
            Some(ImageFormat::Png)
        } else if str_eq(ext, "jpg") || str_eq(ext, "jpeg") {
            Some(ImageFormat::Jpeg)
        } else if str_eq(ext, "gif") {
            Some(ImageFormat::Gif)
        } else if str_eq(ext, "webp") {
            Some(ImageFormat::WebP)
        } else if str_eq(ext, "bmp") {
            Some(ImageFormat::Bmp)
        } else {
            None
        }
    }

    /// The format of a MIME type (matched exactly).
    pub fn from_mime(mime: &str) -> (r: Option<ImageFormat>)
        ensures
            r == format_of_mime(mime@),
    {
        if str_eq(mime, "image/png") {
            Some(ImageFormat::Png)
        } else if str_eq(mime, "image/jpeg") || str_eq(mime, "image/jpg") {
            Some(ImageFormat::Jpeg)
        } else if str_eq(mime, "image/gif") {
            Some(ImageFormat::Gif)
        } else if str_eq(mime, "image/webp") {
            Some(ImageFormat::WebP)
        } else if str_eq(mime, "image/bmp") {
            Some(ImageFormat::Bmp)
        } else {
            None
        }
    }
}

impl ImageSource {
    pub fn file(path: &str) -> (r: ImageSource)
        ensures
            (r matches ImageSource::File(p) && p@ == path@),
    {
        ImageSource::File(path.to_owned())
    }

    pub fn url(url: &str) -> (r: ImageSource)
        ensures
            (r matches ImageSource::Url(u) && u@ == url@),
    {
        ImageSource::Url(url.to_owned())
    }

    pub fn base64(data: &str) -> (r: ImageSource)
        ensures
            (r matches ImageSource::Base64(d) && d@ == data@),
    {
        ImageSource::Base64(data.to_owned())
    }

    pub fn bytes(data: Vec<u8>) -> (r: ImageSource)
        ensures
            (r matches ImageSource::Bytes { data: d, format: None } && d@ == data@),
    {
        ImageSource::Bytes { data, format: None }
    }

    pub fn bytes_with_format(data: Vec<u8>, format: ImageFormat) -> (r: ImageSource)
        ensures
            (r matches ImageSource::Bytes { data: d, format: Some(f) } && d@ == data@ && f == format),
    {
        ImageSource::Bytes { data, format: Some(format) }
    }

    /// Reads a resource URI: a `data:` URI is base64 data, an `http://` or
    /// `https://` URI a URL, a `file://` URI the path after that prefix, and
    /// anything else a file path as it stands.
    pub fn from_uri(uri: &str) -> (r: ImageSource)
        ensures
            is_prefix("data:"@, uri@) ==> (r matches ImageSource::Base64(d) && d@ == uri@),
            !is_prefix("data:"@, uri@) && (is_prefix("http://"@, uri@) || is_prefix("https://"@, uri@))
                ==> (r matches ImageSource::Url(u) && u@ == uri@),
            !is_prefix("data:"@, uri@) && !is_prefix("http://"@, uri@) && !is_prefix("https://"@, uri@)
                && is_prefix("file://"@, uri@) ==> (r matches ImageSource::File(p) && p@ == uri@.subrange(
                "file://"@.len() as int,
                uri@.len() as int,
            )),
            !is_prefix("data:"@, uri@) && !is_prefix("http://"@, uri@) && !is_prefix("https://"@, uri@)
                && !is_prefix("file://"@, uri@) ==> (r matches ImageSource::File(p) && p@ == uri@),
    {
        if starts_with(uri, "data:") {
            ImageSource::Base64(uri.to_owned())
        } else if starts_with(uri, "http://") || starts_with(uri, "https://") {
            ImageSource::Url(uri.to_owned())
        } else {
            match strip_prefix(uri, "file://") {
                Some(path) => ImageSource::File(path.to_owned()),
                None => ImageSource::File(uri.to_owned()),
            }
        }
    }
}

} // verus!
