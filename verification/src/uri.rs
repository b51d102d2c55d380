//! Identifiers.
//!
//! An identifier is a URL, held as its text. Reading and changing URLs is left
//! to the `url` crate: the functions at the head of this file call it and say,
//! without proof, that what comes back is a function of the texts that went in.
//! Those functions have names here, and the contracts of the library speak of
//! the names.

use vstd::prelude::*;

verus! {

/// Why the `url` crate refused a text.
#[verifier::external_type_specification]
#[verifier::external_body]
pub struct ExParseError(url::ParseError);

/// The URL that `url::Url::parse` reads from `input`, as that URL is written
/// out again; nothing where it refuses `input`.
pub uninterp spec fn url_parsed(input: Seq<char>) -> Option<Seq<char>>;

/// The URL that `url::ParseOptions::parse` reads from `input` when the URL read
/// from `base` is its base, written out; nothing where either is refused.
pub uninterp spec fn url_joined(base: Seq<char>, input: Seq<char>) -> Option<Seq<char>>;

/// What `url::Url::fragment` gives for the URL read from `text`: the part
/// behind the `#`; nothing where there is no such part or `text` is no URL.
pub uninterp spec fn url_fragment(text: Seq<char>) -> Option<Seq<char>>;

/// The URL read from `text` after `url::Url::set_fragment` took its fragment
/// away, written out; nothing where `text` is no URL.
pub uninterp spec fn url_without_fragment(text: Seq<char>) -> Option<Seq<char>>;

/// Calls `url::Url::parse` and writes the URL out with `into_string`.
#[verifier::external_body]
fn parse_text(input: &str) -> (r: Result<String, url::ParseError>)
    ensures
        r matches Ok(s) ==> url_parsed(input@) == Some(s@),
        r is Err ==> url_parsed(input@) is None,
{
    url::Url::parse(input).map(url::Url::into_string)
}

/// Reads `base` with `url::Url::parse`, then calls `url::ParseOptions::parse`
/// on `input` with that base, and writes the URL out with `into_string`.
#[verifier::external_body]
fn join_text(base: &str, input: &str) -> (r: Result<String, url::ParseError>)
    ensures
        r matches Ok(s) ==> url_joined(base@, input@) == Some(s@),
        r is Err ==> url_joined(base@, input@) is None,
{
    let base_url = url::Url::parse(base)?;
    url::Url::options().base_url(Some(&base_url)).parse(input).map(url::Url::into_string)
}

/// Reads `text` with `url::Url::parse` and calls `url::Url::fragment`.
#[verifier::external_body]
fn fragment_text(text: &str) -> (r: Option<String>)
    ensures
        r is Some <==> url_fragment(text@) is Some,
        r matches Some(s) ==> url_fragment(text@) == Some(s@),
{
    match url::Url::parse(text) {
        Ok(u) => u.fragment().map(String::from),
        Err(_) => None,
    }
}

/// Reads `text` with `url::Url::parse`, takes the fragment away with
/// `url::Url::set_fragment` and writes the URL out with `into_string`.
#[verifier::external_body]
fn without_fragment_text(text: &str) -> (r: Option<String>)
    ensures
        r is Some <==> url_without_fragment(text@) is Some,
        r matches Some(s) ==> url_without_fragment(text@) == Some(s@),
{
    match url::Url::parse(text) {
        Ok(mut u) => {
            u.set_fragment(None);
            Some(u.into_string())
        },
        Err(_) => None,
    }
}

/// An identifier: the text of a URL.
#[derive(Debug, PartialEq, Eq)]
pub struct Uri {
    pub text: String,
}

impl View for Uri {
    type V = Seq<char>;

    open spec fn view(&self) -> Seq<char> {
        self.text@
    }
}

/// The views of a sequence of identifiers, one for one.
pub open spec fn uri_views(uris: Seq<Uri>) -> Seq<Seq<char>> {
    uris.map_values(|u: Uri| u@)
}

/// The text `uri` without its fragment. A text that is no URL is left as it is.
pub open spec fn without_fragment_spec(uri: Seq<char>) -> Seq<char> {
    match url_without_fragment(uri) {
        Some(s) => s,
        None => uri,
    }
}

/// The text `uri` with `fragment` in place of its own: what a reference that
/// is a `#` and `fragment` gives when it is read against `uri`. Where that is
/// refused, `uri` is left as it is.
pub open spec fn with_fragment_spec(uri: Seq<char>, fragment: Seq<char>) -> Seq<char> {
    match url_joined(uri, seq!['#'] + fragment) {
        Some(s) => s,
        None => uri,
    }
}

impl Clone for Uri {
    /// A copy with the same text.
    fn clone(&self) -> (r: Uri)
        ensures
            r@ == self@,
    {
        Uri { text: self.text.clone() }
    }
}

impl Uri {
    /// Reads an absolute URL.
    pub fn parse(input: &str) -> (r: Result<Uri, url::ParseError>)
        ensures
            r is Ok <==> url_parsed(input@) is Some,
            r matches Ok(u) ==> url_parsed(input@) == Some(u@),
    {
        match parse_text(input) {
            Ok(text) => Ok(Uri { text }),
            Err(e) => Err(e),
        }
    }

    /// Reads a URL that may be relative to `self`.
    pub fn join(&self, input: &str) -> (r: Result<Uri, url::ParseError>)
        ensures
            r is Ok <==> url_joined(self@, input@) is Some,
            r matches Ok(u) ==> url_joined(self@, input@) == Some(u@),
    {
        match join_text(self.text.as_str(), input) {
            Ok(text) => Ok(Uri { text }),
            Err(e) => Err(e),
        }
    }

    /// The text of the identifier.
    pub fn as_str(&self) -> (r: &str)
        ensures
            r@ == self@,
    {
        self.text.as_str()
    }

    /// The text of the identifier.
    pub fn into_string(self) -> (r: String)
        ensures
            r@ == self@,
    {
        self.text
    }

    /// The part behind the `#`, where there is one.
    pub fn fragment(&self) -> (r: Option<String>)
        ensures
            r is Some <==> url_fragment(self@) is Some,
            r matches Some(s) ==> url_fragment(self@) == Some(s@),
    {
        fragment_text(self.text.as_str())
    }

    /// The identifier without its fragment.
    pub fn without_fragment(&self) -> (r: Uri)
        ensures
            r@ == without_fragment_spec(self@),
    {
        match without_fragment_text(self.text.as_str()) {
            Some(text) => Uri { text },
            None => self.clone(),
        }
    }

    /// The identifier with `fragment` in place of its own.
    pub fn with_fragment(&self, fragment: &str) -> (r: Uri)
        ensures
            r@ == with_fragment_spec(self@, fragment@),
    {
        let mut reference = String::new();
        crate::text::push_char(&mut reference, '#');
        reference.append(fragment);
        match join_text(self.text.as_str(), reference.as_str()) {
            Ok(text) => Uri { text },
            Err(_) => self.clone(),
        }
    }

    /// Whether two identifiers have the same text.
    pub fn same(&self, other: &Uri) -> (r: bool)
        ensures
            r == (self@ == other@),
    {
        crate::text::str_eq(self.text.as_str(), other.text.as_str())
    }
}

} // verus!
