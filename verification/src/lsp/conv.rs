//! Conversions between `file:` URIs and filesystem paths.
//!
//! The `url` crate maps a path to a URL and back; `lsp_types` says which texts are URIs.
//! Paths are bytes, and need not be text.

use crate::encoding;
use crate::lsp::uris;
use crate::paths;
use crate::paths::display;
use crate::strings;
use std::path::PathBuf;
use vstd::prelude::*;

verus! {

/// `url::Url`: an outside type. Its text is named by [`url_text`].
#[verifier::external_type_specification]
#[verifier::external_body]
pub struct ExUrl(url::Url);

/// The text of a URL.
pub uninterp spec fn url_text(url: url::Url) -> Seq<char>;

/// The text of the URL that `url::Url::from_file_path` makes of a path; `None` where it
/// refuses the path.
pub uninterp spec fn file_url(path: Seq<u8>) -> Option<Seq<char>>;

/// The text of the URL that `url::Url::parse` reads, or the text of its error.
pub uninterp spec fn parsed_url(text: Seq<char>) -> Result<Seq<char>, Seq<char>>;

/// The path that `url::Url::to_file_path` gives for a URL's text; `None` where the URL is no
/// file's.
pub uninterp spec fn url_file_path(text: Seq<char>) -> Option<Seq<u8>>;

/// The error that parsing a text as an `lsp_types::Uri` gives, as `Debug` shows it;
/// `None` where the text is a URI.
pub uninterp spec fn uri_error(text: Seq<char>) -> Option<Seq<char>>;

/// No component of `path` is `..`.
pub open spec fn without_parent_dirs(path: Seq<u8>) -> bool {
    !paths::components(path).contains(seq![paths::DOT, paths::DOT])
}

/// `url::Url::from_file_path`, on Unix. It percent-encodes the components of the path, so
/// that reading the URL's text back gives a path with the same components, where that text
/// is a URI and no component is `..`.
#[verifier::external_body]
fn url_from_file_path(path: &PathBuf) -> (r: Result<url::Url, ()>)
    ensures
        match r {
            Ok(url) => file_url(paths::path_bytes(*path)) == Some(url_text(url)),
            Err(_) => file_url(paths::path_bytes(*path)) is None,
        },
        r is Ok && without_parent_dirs(paths::path_bytes(*path)) && encoding::byte_len(url_text(r->Ok_0))
            <= uris::uri_limit() && uri_error(url_text(r->Ok_0)) is None ==> {
            &&& parsed_url(url_text(r->Ok_0)) == Ok::<Seq<char>, Seq<char>>(url_text(r->Ok_0))
            &&& url_file_path(url_text(r->Ok_0)) is Some
            &&& paths::same_path(
                url_file_path(url_text(r->Ok_0))->Some_0,
                paths::path_bytes(*path),
            )
        },
{
    url::Url::from_file_path(path)
}

/// `url::Url::as_str`: the URL's text.
#[verifier::external_body]
fn url_as_str(url: &url::Url) -> (r: &str)
    ensures
        r@ == url_text(*url),
{
    url.as_str()
}

/// `url::Url::parse`: the URL, or the text of the error.
#[verifier::external_body]
fn url_parse(text: &str) -> (r: Result<url::Url, String>)
    ensures
        match r {
            Ok(url) => parsed_url(text@) == Ok::<Seq<char>, Seq<char>>(url_text(url)),
            Err(error) => parsed_url(text@) == Err::<Seq<char>, Seq<char>>(error@),
        },
{
    url::Url::parse(text).map_err(|e| e.to_string())
}

/// `url::Url::to_file_path`: the path, where the URL is a file's.
#[verifier::external_body]
fn url_to_file_path(url: &url::Url) -> (r: Result<PathBuf, ()>)
    ensures
        match r {
            Ok(path) => url_file_path(url_text(*url)) == Some(paths::path_bytes(path)),
            Err(_) => url_file_path(url_text(*url)) is None,
        },
{
    url.to_file_path()
}

/// `str::parse::<lsp_types::Uri>`: the error as `Debug` shows it, where there is one. It
/// panics on a text longer than [`uris::uri_limit`].
#[verifier::external_body]
fn lsp_uri_error(text: &str) -> (r: Option<String>)
    requires
        encoding::byte_len(text@) <= uris::uri_limit(),
    ensures
        strings::optional_text(r) == uri_error(text@),
{
    text.parse::<lsp_types::Uri>().err().map(|e| format!("{e:?}"))
}

/// Why a path has no URI, or a URI no path.
#[derive(Debug)]
pub enum ConvError {
    /// The path is not absolute.
    InvalidFilePath { path: PathBuf },
    /// The path's URL is no URI.
    InvalidUri { uri: String, reason: String },
    /// The path's URL is longer than a URI can be.
    UriTooLong,
    /// The text is no URL.
    UnreadableUri { reason: String },
    /// The URL is no file's.
    NotFileUri { uri: String },
}

/// The content of a [`ConvError`].
pub enum ConvErrorView {
    InvalidFilePath { path: Seq<u8> },
    InvalidUri { uri: Seq<char>, reason: Seq<char> },
    UriTooLong,
    UnreadableUri { reason: Seq<char> },
    NotFileUri { uri: Seq<char> },
}

impl View for ConvError {
    type V = ConvErrorView;

    open spec fn view(&self) -> ConvErrorView {
        match self {
            ConvError::InvalidFilePath { path } => ConvErrorView::InvalidFilePath {
                path: paths::path_bytes(*path),
            },
            ConvError::InvalidUri { uri, reason } => ConvErrorView::InvalidUri {
                uri: uri@,
                reason: reason@,
            },
            ConvError::UriTooLong => ConvErrorView::UriTooLong,
            ConvError::UnreadableUri { reason } => ConvErrorView::UnreadableUri {
                reason: reason@,
            },
            ConvError::NotFileUri { uri } => ConvErrorView::NotFileUri { uri: uri@ },
        }
    }
}

/// The content of the result of a conversion to a URI.
pub open spec fn conv_view(r: Result<String, ConvError>) -> Result<Seq<char>, ConvErrorView> {
    match r {
        Ok(text) => Ok(text@),
        Err(error) => Err(error@),
    }
}

/// The content of the result of a conversion to a path.
pub open spec fn path_view(r: Result<PathBuf, ConvError>) -> Result<Seq<u8>, ConvErrorView> {
    match r {
        Ok(path) => Ok(paths::path_bytes(path)),
        Err(error) => Err(error@),
    }
}

/// The text of an error.
pub open spec fn conv_error_text(error: ConvErrorView) -> Seq<char> {
    match error {
        ConvErrorView::InvalidFilePath { path } => "invalid file path "@ + paths::shown(
            path,
        ),
        ConvErrorView::InvalidUri { uri, reason } => "invalid uri `"@ + uri + "`: "@ + reason,
        ConvErrorView::UriTooLong => "uri too long"@,
        ConvErrorView::UnreadableUri { reason } => "invalid uri: "@ + reason,
        ConvErrorView::NotFileUri { uri } => "not a file uri: "@ + uri,
    }
}

impl ConvError {
    /// The text of this error.
    pub fn message(&self) -> (r: String)
        ensures
            r@ == conv_error_text(self@),
    {
        let mut out = String::new();
        match self {
            ConvError::InvalidFilePath { path } => {
                out.push_str("invalid file path ");
                out.push_str(display(path).as_str());
            },
            ConvError::InvalidUri { uri, reason } => {
                out.push_str("invalid uri `");
                out.push_str(uri.as_str());
                out.push_str("`: ");
                out.push_str(reason.as_str());
            },
            ConvError::UriTooLong => {
                out.push_str("uri too long");
            },
            ConvError::UnreadableUri { reason } => {
                out.push_str("invalid uri: ");
                out.push_str(reason.as_str());
            },
            ConvError::NotFileUri { uri } => {
                out.push_str("not a file uri: ");
                out.push_str(uri.as_str());
            },
        }
        assert(out@ =~= conv_error_text(self@));
        out
    }
}

/// A URL's text as a URI.
pub open spec fn uri_of_url(url: Seq<char>) -> Result<Seq<char>, ConvErrorView> {
    match uri_error(url) {
        None => Ok(url),
        Some(reason) => Err(ConvErrorView::InvalidUri { uri: url, reason }),
    }
}

/// The URI of a path, given the text of the path's URL.
pub open spec fn uri_of_file_url(path: Seq<u8>, url: Option<Seq<char>>) -> Result<
    Seq<char>,
    ConvErrorView,
> {
    match url {
        None => Err(ConvErrorView::InvalidFilePath { path }),
        Some(url) => if encoding::byte_len(url) <= uris::uri_limit() {
            uri_of_url(url)
        } else {
            Err(ConvErrorView::UriTooLong)
        },
    }
}

/// The URI of a path.
pub open spec fn path_uri(path: Seq<u8>) -> Result<Seq<char>, ConvErrorView> {
    uri_of_file_url(path, file_url(path))
}

/// The path of a URI, given what reading it as a URL gave, and that URL's path.
pub open spec fn path_of_url(
    uri: Seq<char>,
    url: Result<Seq<char>, Seq<char>>,
    path: Option<Seq<u8>>,
) -> Result<Seq<u8>, ConvErrorView> {
    match (url, path) {
        (Err(reason), _) => Err(ConvErrorView::UnreadableUri { reason }),
        (Ok(_), None) => Err(ConvErrorView::NotFileUri { uri }),
        (Ok(_), Some(path)) => Ok(path),
    }
}

/// The path of a URI.
pub open spec fn uri_path(uri: Seq<char>) -> Result<Seq<u8>, ConvErrorView> {
    path_of_url(
        uri,
        parsed_url(uri),
        match parsed_url(uri) {
            Ok(url) => url_file_path(url),
            Err(_) => None,
        },
    )
}

/// The path of a URI as it is shown: the URI itself where it is no file's.
pub open spec fn uri_path_text(uri: Seq<char>) -> Seq<char> {
    match uri_path(uri) {
        Ok(path) => paths::shown(path),
        Err(_) => uri,
    }
}

/// The URI with the text `url`, which must not be longer than a URI can be.
pub fn uri_with_text(url: &str) -> (r: Result<String, ConvError>)
    requires
        encoding::byte_len(url@) <= uris::uri_limit(),
    ensures
        conv_view(r) == uri_of_url(url@),
{
    match lsp_uri_error(url) {
        None => Ok(url.to_string()),
        Some(reason) => Err(ConvError::InvalidUri { uri: url.to_string(), reason }),
    }
}

/// The URI of a path. It leads back to that path, unless the path has a `..`.
pub fn uri_from_path(path: &PathBuf) -> (r: Result<String, ConvError>)
    ensures
        conv_view(r) == path_uri(paths::path_bytes(*path)),
        r is Ok && without_parent_dirs(paths::path_bytes(*path)) ==> uri_path(r->Ok_0@) is Ok
            && paths::same_path(uri_path(r->Ok_0@)->Ok_0, paths::path_bytes(*path)),
{
    match url_from_file_path(path) {
        Err(_) => Err(ConvError::InvalidFilePath { path: path.clone() }),
        Ok(url) => {
            let text = url_as_str(&url);
            if text.as_bytes().len() <= 0x7fff_ffff {
                uri_with_text(text)
            } else {
                Err(ConvError::UriTooLong)
            }
        },
    }
}

/// The path of a URI.
pub fn uri_to_path(uri: &str) -> (r: Result<PathBuf, ConvError>)
    ensures
        path_view(r) == uri_path(uri@),
{
    match url_parse(uri) {
        Err(reason) => Err(ConvError::UnreadableUri { reason }),
        Ok(url) => match url_to_file_path(&url) {
            Err(_) => Err(ConvError::NotFileUri { uri: uri.to_string() }),
            Ok(path) => Ok(path),
        },
    }
}

/// The path of a URI as it is shown: the URI itself where it is no file's.
pub fn uri_to_path_string(uri: &str) -> (r: String)
    ensures
        r@ == uri_path_text(uri@),
{
    match uri_to_path(uri) {
        Err(_) => uri.to_string(),
        Ok(path) => display(&path),
    }
}

// ---- laws ----

/// A path has the URI that its URL's text is, unless it has no URL, the URL is too long, or the
/// URL is no URI; each of these is told apart.
pub proof fn law_uri_of_a_path(path: Seq<u8>, url: Seq<char>, reason: Seq<char>)
    ensures
        file_url(path) is None ==> path_uri(path) == Err::<Seq<char>, _>(
            ConvErrorView::InvalidFilePath { path },
        ),
        file_url(path) == Some(url) && encoding::byte_len(url) > 0x7fff_ffff ==> path_uri(path)
            == Err::<Seq<char>, _>(ConvErrorView::UriTooLong),
        file_url(path) == Some(url) && encoding::byte_len(url) <= 0x7fff_ffff && uri_error(url)
            is None ==> path_uri(path) == Ok::<_, ConvErrorView>(url),
        file_url(path) == Some(url) && encoding::byte_len(url) <= 0x7fff_ffff && uri_error(url)
            == Some(reason) ==> path_uri(path) == Err::<Seq<char>, _>(
            ConvErrorView::InvalidUri { uri: url, reason },
        ),
{
}

/// A URI has the path of the URL that it is read as, unless it is no URL, or the URL is no
/// file's; it is shown as its path, or else as it is.
pub proof fn law_path_of_a_uri(
    uri: Seq<char>,
    url: Seq<char>,
    path: Seq<u8>,
    reason: Seq<char>,
)
    ensures
        parsed_url(uri) == Ok::<_, Seq<char>>(url) && url_file_path(url) == Some(path) ==> {
            &&& uri_path(uri) == Ok::<_, ConvErrorView>(path)
            &&& uri_path_text(uri) == paths::shown(path)
        },
        parsed_url(uri) == Ok::<_, Seq<char>>(url) && url_file_path(url) is None ==> {
            &&& uri_path(uri) == Err::<Seq<u8>, _>(ConvErrorView::NotFileUri { uri })
            &&& uri_path_text(uri) == uri
        },
        parsed_url(uri) == Err::<Seq<char>, _>(reason) ==> {
            &&& uri_path(uri) == Err::<Seq<u8>, _>(ConvErrorView::UnreadableUri { reason })
            &&& uri_path_text(uri) == uri
        },
{
}

/// The text of an error says what is wrong, and with which path or URI.
pub proof fn law_conv_error_texts(path: Seq<u8>, uri: Seq<char>, reason: Seq<char>)
    ensures
        conv_error_text(ConvErrorView::InvalidFilePath { path }) == "invalid file path "@
            + paths::shown(path),
        conv_error_text(ConvErrorView::InvalidUri { uri, reason }) == "invalid uri `"@ + uri
            + "`: "@ + reason,
        conv_error_text(ConvErrorView::UriTooLong) == "uri too long"@,
        conv_error_text(ConvErrorView::UnreadableUri { reason }) == "invalid uri: "@ + reason,
        conv_error_text(ConvErrorView::NotFileUri { uri }) == "not a file uri: "@ + uri,
{
}

/// An error, and the result of a conversion, hold what they are made of.
pub proof fn law_conv_views(path: PathBuf, uri: String, reason: String, error: ConvError)
    ensures
        (ConvError::InvalidFilePath { path })@ == (ConvErrorView::InvalidFilePath {
            path: paths::path_bytes(path),
        }),
        (ConvError::InvalidUri { uri, reason })@ == (ConvErrorView::InvalidUri {
            uri: uri@,
            reason: reason@,
        }),
        ConvError::UriTooLong@ == ConvErrorView::UriTooLong,
        (ConvError::UnreadableUri { reason })@ == (ConvErrorView::UnreadableUri {
            reason: reason@,
        }),
        (ConvError::NotFileUri { uri })@ == (ConvErrorView::NotFileUri { uri: uri@ }),
        conv_view(Ok(uri)) == Ok::<_, ConvErrorView>(uri@),
        conv_view(Err(error)) == Err::<Seq<char>, _>(error@),
        path_view(Ok(path)) == Ok::<_, ConvErrorView>(paths::path_bytes(path)),
        path_view(Err(error)) == Err::<Seq<u8>, _>(error@),
{
}

} // verus!
