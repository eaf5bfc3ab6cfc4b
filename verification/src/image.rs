//! Images that a page refers to: whether an image must be fetched, what
//! stands for it in the article once its bytes have come, and where it is
//! saved.

use vstd::prelude::*;
use vstd::string::StringExecFns;
use base64::engine::general_purpose::STANDARD;
use base64::Engine;
use crate::error::{CommErr, CommErrView};
use crate::request::is_success;
use crate::strings::{before_first, contains, occurs_in, trim_end_matches, without_trailing};

verus! {

/// The bytes in Base64, with the standard alphabet and padding.
pub uninterp spec fn base64_of(bytes: Seq<u8>) -> Seq<char>;

/// Whether bytes of this number can be written in Base64: four characters
/// for each three bytes, and four more, must be a length.
pub open spec fn encodable(len: nat) -> bool {
    len / 3 * 4 + 4 <= usize::MAX
}

/// Writes bytes in Base64.
///
/// Wraps `base64::Engine::encode` of the engine
/// `base64::engine::general_purpose::STANDARD`: the result is the Base64
/// text of the bytes, which depends on the bytes alone. The call does not
/// return where the length of the text does not fit a `usize`.
#[verifier::external_body]
fn base64_text(bytes: &Vec<u8>) -> (r: String)
    requires
        encodable(bytes@.len()),
    ensures
        r@ == base64_of(bytes@),
{
    STANDARD.encode(bytes)
}

/// The extension of the file that a path names.
///
/// Wraps `std::path::Path::extension`. What the result is depends on the
/// platform's way with paths, so nothing is said of it.
#[verifier::external_body]
fn path_extension(path: &str) -> (r: Option<String>) {
    match std::path::Path::new(path).extension() {
        Some(e) => Some(e.to_string_lossy().into_owned()),
        None => None,
    }
}

/// The name of the file that a path names.
///
/// Wraps `std::path::Path::file_name`. What the result is depends on the
/// platform's way with paths, so nothing is said of it.
#[verifier::external_body]
fn path_file_name(path: &str) -> (r: Option<String>) {
    match std::path::Path::new(path).file_name() {
        Some(e) => Some(e.to_string_lossy().into_owned()),
        None => None,
    }
}

/// Whether the image is kept by the remote service itself, so that its
/// address serves as it is.
pub open spec fn is_hosted(path: Seq<char>) -> bool {
    occurs_in(path, "secure.notion-static.com"@)
}

/// The address of an image as data: the kind of image, named by the
/// extension, and the bytes in Base64.
pub open spec fn data_uri(extension: Seq<char>, encoded: Seq<char>) -> Seq<char> {
    "data:image/"@ + extension + ";base64,"@ + encoded
}

/// What stands for an image once it has been fetched, given the extension
/// of its file: its bytes as data where the fetch succeeded, the file has
/// an extension and the bytes can be encoded.
pub open spec fn image_data_of(
    extension: Option<Seq<char>>,
    code: u16,
    bytes: Seq<u8>,
) -> Result<Seq<char>, CommErrView> {
    if !is_success(code) {
        Err(CommErrView::FetchErr(code, "Request image in Notion Error"@))
    } else {
        match extension {
            None => Err(CommErrView::MissingField("extension"@)),
            Some(e) => if encodable(bytes.len()) {
                Ok(data_uri(e, base64_of(bytes)))
            } else {
                Err(CommErrView::CErr("image too large"@))
            },
        }
    }
}

/// Where a fetched image is saved: in the directory `save_path`, under
/// the given name; an error where the fetch failed or the image has no
/// name.
pub open spec fn saved_path_of(
    save_path: Seq<char>,
    name: Option<Seq<char>>,
    code: u16,
) -> Result<Seq<char>, CommErrView> {
    if !is_success(code) {
        Err(CommErrView::FetchErr(code, "Request image in Notion Error"@))
    } else {
        match name {
            None => Err(CommErrView::MissingField("file name"@)),
            Some(n) => Ok(without_trailing(save_path, '/') + "/"@ + n),
        }
    }
}

/// The view of an optional text.
pub open spec fn text_view(t: Option<String>) -> Option<Seq<char>> {
    match t {
        Some(s) => Some(s@),
        None => None,
    }
}

/// Whether the image at `path` must be fetched: not where the remote
/// service keeps it itself.
pub fn needs_fetch(path: &str) -> (r: bool)
    ensures
        r == !is_hosted(path@),
{
    !contains(path, "secure.notion-static.com")
}

/// What stands for a fetched image, given the extension of its file.
pub fn image_data_with(extension: Option<String>, code: u16, bytes: &Vec<u8>) -> (r: Result<
    String,
    CommErr,
>)
    ensures
        match r {
            Ok(t) => image_data_of(text_view(extension), code, bytes@) == Ok::<
                Seq<char>,
                CommErrView,
            >(t@),
            Err(e) => image_data_of(text_view(extension), code, bytes@) == Err::<
                Seq<char>,
                CommErrView,
            >(e@),
        },
{
    if !(200 <= code && code < 300) {
        return Err(CommErr::FetchErr(code, String::from_str("Request image in Notion Error")));
    }
    match extension {
        None => Err(CommErr::MissingField(String::from_str("extension"))),
        Some(e) => {
            if bytes.len() / 3 > (usize::MAX - 4) / 4 {
                return Err(CommErr::CErr(String::from_str("image too large")));
            }
            let mut out = String::from_str("data:image/");
            out.append(e.as_str());
            out.append(";base64,");
            let encoded = base64_text(bytes);
            out.append(encoded.as_str());
            Ok(out)
        },
    }
}

/// What stands for the image at `path` once it has been fetched with the
/// status `code` and the content `bytes`. The extension is that of the
/// path before its query.
pub fn img_to_base64(path: &str, code: u16, bytes: &Vec<u8>) -> (r: Result<String, CommErr>)
    ensures
        exists|extension: Option<Seq<char>>|
            match r {
                Ok(t) => #[trigger] image_data_of(extension, code, bytes@) == Ok::<
                    Seq<char>,
                    CommErrView,
                >(t@),
                Err(e) => image_data_of(extension, code, bytes@) == Err::<Seq<char>, CommErrView>(
                    e@,
                ),
            },
{
    let file = before_first(path, '?');
    let extension = path_extension(file.as_str());
    let ghost ext = text_view(extension);
    let r = image_data_with(extension, code, bytes);
    proof {
        if r is Ok {
            assert(image_data_of(ext, code, bytes@) == Ok::<Seq<char>, CommErrView>(r->Ok_0@));
        } else {
            assert(image_data_of(ext, code, bytes@) == Err::<Seq<char>, CommErrView>(r->Err_0@));
        }
    }
    r
}

/// Where a fetched image is saved, given the name of its file.
pub fn saved_path_with(save_path: &str, name: Option<String>, code: u16) -> (r: Result<
    String,
    CommErr,
>)
    ensures
        match r {
            Ok(t) => saved_path_of(save_path@, text_view(name), code) == Ok::<Seq<char>, CommErrView>(
                t@,
            ),
            Err(e) => saved_path_of(save_path@, text_view(name), code) == Err::<
                Seq<char>,
                CommErrView,
            >(e@),
        },
{
    if !(200 <= code && code < 300) {
        return Err(CommErr::FetchErr(code, String::from_str("Request image in Notion Error")));
    }
    match name {
        None => Err(CommErr::MissingField(String::from_str("file name"))),
        Some(n) => {
            let mut out = trim_end_matches(save_path, '/');
            out.append("/");
            out.append(n.as_str());
            Ok(out)
        },
    }
}

/// Where the image at `path`, fetched with the status `code`, is saved in
/// the directory `save_path`. The name is that of the path before its
/// query.
pub fn download_img(path: &str, save_path: &str, code: u16) -> (r: Result<String, CommErr>)
    ensures
        exists|name: Option<Seq<char>>|
            match r {
                Ok(t) => #[trigger] saved_path_of(save_path@, name, code) == Ok::<
                    Seq<char>,
                    CommErrView,
                >(t@),
                Err(e) => saved_path_of(save_path@, name, code) == Err::<Seq<char>, CommErrView>(e@),
            },
{
    let file = before_first(path, '?');
    let name = path_file_name(file.as_str());
    let ghost n = text_view(name);
    let r = saved_path_with(save_path, name, code);
    proof {
        if r is Ok {
            assert(saved_path_of(save_path@, n, code) == Ok::<Seq<char>, CommErrView>(r->Ok_0@));
        } else {
            assert(saved_path_of(save_path@, n, code) == Err::<Seq<char>, CommErrView>(r->Err_0@));
        }
    }
    r
}

} // verus!
