//! URLs of object stores, as the plain values that the store providers read.

use vstd::prelude::*;
use vstd::utf8::encode_utf8;

use crate::error::StoreError;
use crate::text::{ends_with_char, view_opt};

verus! {

/// The components of a URL.
#[verifier::ext_equal]
pub struct UrlView {
    /// The whole URL.
    pub serialization: Seq<char>,
    pub scheme: Seq<char>,
    /// What stands between `://` and the path.
    pub authority: Seq<char>,
    pub host: Option<Seq<char>>,
    pub path: Seq<char>,
}

impl UrlView {
    /// The URL ends with its path: it has neither a query nor a fragment.
    pub open spec fn ends_with_path(self) -> bool {
        self.serialization == self.scheme + "://"@ + self.authority + self.path
    }

    /// The URL is short enough for its path to get a slash at its end.
    pub open spec fn fits_as_directory(self) -> bool {
        self.fits_with(self.path.push('/'))
    }

    /// The URL is short enough to have its path replaced by `path`: the `url`
    /// crate keeps 32-bit offsets into the encoded text.
    pub open spec fn fits_with(self, path: Seq<char>) -> bool {
        encode_utf8(self.serialization).len() + self.growth_with(path) + 8 <= u32::MAX
    }

    /// How many bytes the path `path` can add to the URL, but for a few separators.
    /// Percent-encoding can turn each byte into three. It leaves the path of the URL as
    /// it is, which is encoded already.
    pub open spec fn growth_with(self, path: Seq<char>) -> nat {
        if path == self.path.push('/') {
            0
        } else {
            3 * encode_utf8(path).len()
        }
    }

    /// Every path but the empty one starts with a slash, as it does behind a host.
    pub open spec fn path_is_rooted(self) -> bool {
        self.path.len() > 0 ==> self.path[0] == '/'
    }
}

/// A scheme for which the URL standard has special rules.
pub open spec fn is_special(scheme: Seq<char>) -> bool {
    ||| scheme == "http"@
    ||| scheme == "https"@
    ||| scheme == "ws"@
    ||| scheme == "wss"@
    ||| scheme == "ftp"@
    ||| scheme == "file"@
}

/// The shortest path that a URL with a host can have.
pub open spec fn root_path(scheme: Seq<char>) -> Seq<char> {
    if is_special(scheme) {
        seq!['/']
    } else {
        Seq::empty()
    }
}

/// The components of a URL.
#[derive(Debug)]
pub struct UrlParts {
    pub serialization: String,
    pub scheme: String,
    pub authority: String,
    pub host: Option<String>,
    pub path: String,
}

impl View for UrlParts {
    type V = UrlView;

    open spec fn view(&self) -> UrlView {
        UrlView {
            serialization: self.serialization@,
            scheme: self.scheme@,
            authority: self.authority@,
            host: view_opt(self.host),
            path: self.path@,
        }
    }
}

/// The reason why `url::Url::parse` refuses a text.
#[verifier::external_type_specification]
#[verifier::external_body]
pub struct ExParseError(url::ParseError);

/// The text is short enough to be parsed: the `url` crate counts the characters of an
/// authority in a signed 32-bit integer.
pub open spec fn can_be_parsed(text: Seq<char>) -> bool {
    text.len() <= i32::MAX
}

/// The components of the URL that `url::Url::parse` reads from a text, if it
/// reads one.
pub uninterp spec fn parsed_url(text: Seq<char>) -> Option<UrlView>;

/// The components of the URL read from `text` once `url::Url::set_path` has
/// given it the path `path`.
pub uninterp spec fn url_with_path(text: Seq<char>, path: Seq<char>) -> UrlView;

/// Calls `url::Url::parse` and reads the components off the result. How a text is
/// parsed is named by `parsed_url`; besides that, the contract says that behind a
/// host the path is empty or starts with a slash.
///
/// The outside function can panic where the count of the characters of an authority
/// overflows: a text in which it could is left out.
#[verifier::external_body]
fn parse_parts(text: &str) -> (r: Result<UrlParts, url::ParseError>)
    requires
        can_be_parsed(text@),
    ensures
        match r {
            Ok(parts) => parsed_url(text@) == Some(parts@) && (parts@.host is Some
                ==> parts@.path_is_rooted()),
            Err(_) => parsed_url(text@) is None,
        },
{
    let url = url::Url::parse(text)?;
    Ok(UrlParts {
        serialization: url.as_str().to_string(),
        scheme: url.scheme().to_string(),
        authority: url.authority().to_string(),
        host: url.host_str().map(str::to_string),
        path: url.path().to_string(),
    })
}

/// Calls `url::Url::set_path` on the URL read from `text`, and reads the
/// components off the result. The new components are named by `url_with_path`;
/// besides that, the contract says that
/// - scheme, authority and host stay;
/// - a URL with a host that ends with its path still does;
/// - on a URL with a host, an empty path stays empty, or becomes `/` if the scheme
///   is a special one;
/// - on a URL with a host, a path that starts and ends with `/` still ends with it.
///
/// The outside function panics where a URL outgrows its 32-bit offsets: such a URL is
/// left out, as is a text that is too long to be parsed.
#[verifier::external_body]
fn set_path_parts(text: &str, path: &str) -> (r: Result<UrlParts, url::ParseError>)
    requires
        can_be_parsed(text@),
        parsed_url(text@) matches Some(base) ==> base.fits_with(path@),
    ensures
        r is Ok <==> parsed_url(text@) is Some,
        r matches Ok(parts) ==> {
            let base = parsed_url(text@)->0;
            &&& parts@ == url_with_path(text@, path@)
            &&& parts@.scheme == base.scheme
            &&& parts@.authority == base.authority
            &&& parts@.host == base.host
            &&& base.host is Some && base.ends_with_path() ==> parts@.ends_with_path()
            &&& base.host is Some && path@.len() == 0 ==> parts@.path == root_path(base.scheme)
            &&& base.host is Some && path@.len() > 0 && path@[0] == '/' && path@.last() == '/'
                ==> parts@.path.len() > 0 && parts@.path.last() == '/'
        },
{
    let mut url = url::Url::parse(text)?;
    url.set_path(path);
    Ok(UrlParts {
        serialization: url.as_str().to_string(),
        scheme: url.scheme().to_string(),
        authority: url.authority().to_string(),
        host: url.host_str().map(str::to_string),
        path: url.path().to_string(),
    })
}

impl Clone for UrlParts {
    fn clone(&self) -> (r: Self)
        ensures
            r@ == self@,
    {
        UrlParts {
            serialization: self.serialization.clone(),
            scheme: self.scheme.clone(),
            authority: self.authority.clone(),
            host: match &self.host {
                Some(host) => Some(host.clone()),
                None => None,
            },
            path: self.path.clone(),
        }
    }
}

/// A path with a slash at its end.
pub open spec fn directory_path(path: Seq<char>) -> Seq<char> {
    if path.len() > 0 && path.last() == '/' {
        path
    } else {
        path.push('/')
    }
}

/// The components of `url` once its path names a directory. `text` is what `url`
/// was read from.
pub open spec fn directory_url(text: Seq<char>, url: UrlView) -> UrlView {
    if directory_path(url.path) == url.path {
        url
    } else {
        url_with_path(text, directory_path(url.path))
    }
}

/// An absolute URL.
#[derive(Debug)]
pub struct StoreUrl {
    text: String,
    parts: UrlParts,
}

impl View for StoreUrl {
    type V = UrlView;

    closed spec fn view(&self) -> UrlView {
        self.parts@
    }
}

impl StoreUrl {
    /// The text from which the URL was read.
    pub closed spec fn text(&self) -> Seq<char> {
        self.text@
    }

    #[verifier::type_invariant]
    closed spec fn parts_are_parsed(&self) -> bool {
        &&& can_be_parsed(self.text@)
        &&& parsed_url(self.text@) == Some(self.parts@)
        &&& self.parts@.host is Some ==> self.parts@.path_is_rooted()
    }

    /// Reads an absolute URL.
    pub fn parse(text: &str) -> (r: Result<StoreUrl, StoreError>)
        requires
            can_be_parsed(text@),
        ensures
            match r {
                Ok(url) => url.text() == text@ && parsed_url(text@) == Some(url@),
                Err(e) => e == StoreError::InvalidUrl && parsed_url(text@) is None,
            },
    {
        match parse_parts(text) {
            Ok(parts) => Ok(StoreUrl { text: text.to_owned(), parts }),
            Err(_) => Err(StoreError::InvalidUrl),
        }
    }

    /// The components of the URL.
    pub fn parts(&self) -> (r: &UrlParts)
        ensures
            r@ == self@,
    {
        &self.parts
    }

    /// Whether the URL is short enough for its path to get a slash at its end.
    pub fn fits_as_directory(&self) -> (r: bool)
        ensures
            r == self@.fits_as_directory(),
    {
        let url_len: u128 = self.parts.serialization.as_str().as_bytes().len() as u128;
        url_len + 8 <= u32::MAX as u128
    }

    /// The components of the URL once its path is replaced by `path`.
    pub fn with_path(&self, path: &str) -> (r: UrlParts)
        requires
            self@.fits_with(path@),
        ensures
            r@ == url_with_path(self.text(), path@),
            r@.scheme == self@.scheme,
            r@.authority == self@.authority,
            r@.host == self@.host,
            self@.host is Some && self@.ends_with_path() ==> r@.ends_with_path(),
            self@.host is Some && path@.len() == 0 ==> r@.path == root_path(self@.scheme),
            self@.host is Some && path@.len() > 0 && path@[0] == '/' && path@.last() == '/'
                ==> r@.path.len() > 0 && r@.path.last() == '/',
    {
        proof {
            use_type_invariant(self);
        }
        match set_path_parts(self.text.as_str(), path) {
            Ok(parts) => parts,
            Err(_) => {
                assert(false);
                vstd::pervasive::unreached()
            },
        }
    }

    /// The components of the URL once its path names a directory.
    pub fn as_directory(&self) -> (r: UrlParts)
        requires
            self@.fits_as_directory(),
        ensures
            r@ == directory_url(self.text(), self@),
            r@.scheme == self@.scheme,
            r@.authority == self@.authority,
            r@.host == self@.host,
            self@.host is Some ==> directory_path(r@.path) == r@.path,
    {
        proof {
            use_type_invariant(self);
        }
        let path = self.parts.path.as_str();
        if ends_with_char(path, '/') {
            return self.parts.clone();
        }
        let mut with_slash = path.to_owned();
        with_slash.push('/');
        self.with_path(with_slash.as_str())
    }
}

/// A URL ends with its path exactly if it consists of its scheme, `://`, its authority
/// and its path.
pub proof fn lemma_ends_with_path(url: UrlView)
    ensures
        url.ends_with_path() <==> url.serialization == url.scheme + "://"@ + url.authority
            + url.path,
{
}

/// The schemes with special rules are those of HTTP, of web sockets, of FTP and of
/// files.
pub proof fn lemma_special_schemes(scheme: Seq<char>)
    ensures
        is_special(scheme) <==> (scheme == "http"@ || scheme == "https"@ || scheme == "ws"@
            || scheme == "wss"@ || scheme == "ftp"@ || scheme == "file"@),
        is_special(scheme) ==> root_path(scheme) == "/"@,
        !is_special(scheme) ==> root_path(scheme) == ""@,
{
    reveal_strlit("/");
    reveal_strlit("");
    assert("/"@ =~= seq!['/']);
    assert(""@ =~= Seq::<char>::empty());
}

/// The path of a directory ends with a slash, and is the path itself or the path with
/// one character more. To ask for it twice changes nothing.
pub proof fn lemma_directory_path(path: Seq<char>)
    ensures
        directory_path(path).len() > 0,
        directory_path(path).last() == '/',
        path.len() > 0 && path.last() == '/' ==> directory_path(path) == path,
        path.len() == 0 || path.last() != '/' ==> directory_path(path).drop_last() == path,
        directory_path(directory_path(path)) == directory_path(path),
{
    assert(path.push('/').drop_last() =~= path);
}

/// A URL whose path names a directory stays as it is, and any other gets the path with
/// a slash at its end.
pub proof fn lemma_directory_url(text: Seq<char>, url: UrlView)
    ensures
        url.path.len() > 0 && url.path.last() == '/' ==> directory_url(text, url) == url,
        url.path.len() == 0 || url.path.last() != '/' ==> directory_url(text, url)
            == url_with_path(text, url.path.push('/')),
{
    if url.path.len() == 0 || url.path.last() != '/' {
        assert(url.path.push('/').len() != url.path.len());
    }
}

/// A URL may be as long as 32-bit offsets reach, but for a few bytes, for its path to
/// get a slash at its end. For another path, there must be room for three bytes for
/// each of its bytes.
pub proof fn lemma_lengths_that_fit(url: UrlView, path: Seq<char>)
    ensures
        encode_utf8(url.serialization).len() <= 0xffff_fff7 ==> url.fits_as_directory(),
        encode_utf8(url.serialization).len() + 3 * encode_utf8(path).len() <= 0xffff_fff7
            ==> url.fits_with(path),
{
}

/// Every text of fewer than 2^31 characters can be parsed.
pub proof fn lemma_texts_that_can_be_parsed(text: Seq<char>)
    requires
        text.len() <= 0x7fff_ffff,
    ensures
        can_be_parsed(text),
{
}

/// The components of a URL view as their texts, each as it is. A host is there for the
/// view exactly if it is there.
pub proof fn lemma_components(parts: UrlParts)
    ensures
        parts@.serialization == parts.serialization@,
        parts@.scheme == parts.scheme@,
        parts@.authority == parts.authority@,
        parts@.path == parts.path@,
        parts.host matches Some(host) ==> parts@.host == Some(host@),
        parts.host is None ==> parts@.host is None,
{
}

} // verus!
