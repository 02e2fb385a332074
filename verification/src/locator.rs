//! Absolute URLs, as parsed by the `url` crate.
//!
//! A `Url` keeps, as plain strings, what the rest of the library reads of a
//! parsed URL: its serialization, scheme, host and path segments.

use vstd::prelude::*;

verus! {

/// What the library reads of a parsed URL.
pub struct UrlView {
    pub serialization: Seq<char>,
    pub scheme: Seq<char>,
    pub host: Option<Seq<char>>,
    pub path_segments: Option<Seq<Seq<char>>>,
}

/// An absolute URL produced by `Url::parse`.
#[derive(Debug, Clone, PartialEq, Eq)]
pub struct Url {
    serialization: String,
    scheme: String,
    host: Option<String>,
    path_segments: Option<Vec<String>>,
}

/// The outcome of `url::Url::parse` on the given text: the parsed URL's
/// serialization, scheme, host and path segments, or the parse error's message.
pub uninterp spec fn url_parse(input: Seq<char>) -> Result<UrlView, Seq<char>>;

pub open spec fn opt_string_view(o: Option<String>) -> Option<Seq<char>> {
    match o {
        Some(s) => Some(s@),
        None => None,
    }
}

pub open spec fn opt_strings_view(o: Option<Vec<String>>) -> Option<Seq<Seq<char>>> {
    match o {
        Some(v) => Some(v@.map_values(|s: String| s@)),
        None => None,
    }
}

pub open spec fn url_result_view(r: Result<Url, String>) -> Result<UrlView, Seq<char>> {
    match r {
        Ok(u) => Ok(u@),
        Err(e) => Err(e@),
    }
}

impl View for Url {
    type V = UrlView;

    closed spec fn view(&self) -> UrlView {
        UrlView {
            serialization: self.serialization@,
            scheme: self.scheme@,
            host: opt_string_view(self.host),
            path_segments: opt_strings_view(self.path_segments),
        }
    }
}

impl Url {
    /// Parses an absolute URL: the parsed URL or the parse error's message,
    /// as `url_parse` names them for this input.
    pub fn parse(input: &str) -> (r: Result<Url, String>)
        ensures
            url_result_view(r) == url_parse(input@),
    {
        Self::parse_with_url_crate(input)
    }

    /// `url::Url::parse`: parses an absolute URL. The result is the parsed URL
    /// (its `as_str`, `scheme`, `host_str` and `path_segments`, each copied into
    /// owned strings) or the `Display` text of the `ParseError`; both are
    /// claimed to be exactly what `url_parse` names for this input.
    #[verifier::external_body]
    fn parse_with_url_crate(input: &str) -> (r: Result<Url, String>)
        ensures
            url_result_view(r) == url_parse(input@),
    {
        match ::url::Url::parse(input) {
            Ok(u) => Ok(Url {
                serialization: u.as_str().to_string(),
                scheme: u.scheme().to_string(),
                host: u.host_str().map(|h| h.to_string()),
                path_segments: u.path_segments().map(|segs| segs.map(|s| s.to_string()).collect()),
            }),
            Err(e) => Err(e.to_string()),
        }
    }

    /// The serialization of the URL (`Url::as_str`).
    pub fn as_str(&self) -> (r: &str)
        ensures
            r@ == self@.serialization,
    {
        self.serialization.as_str()
    }

    /// The lower-cased scheme, without the `:` delimiter.
    pub fn scheme(&self) -> (r: &str)
        ensures
            r@ == self@.scheme,
    {
        self.scheme.as_str()
    }

    /// The host, when the URL has one.
    pub fn host_str(&self) -> (r: Option<&str>)
        ensures
            r matches Some(h) ==> self@.host == Some(h@),
            r is None ==> self@.host is None,
    {
        match &self.host {
            Some(h) => Some(h.as_str()),
            None => None,
        }
    }

    /// The path segments, when the URL's path starts with `/`.
    pub fn path_segments(&self) -> (r: Option<&Vec<String>>)
        ensures
            r matches Some(v) ==> self@.path_segments == Some(v@.map_values(|s: String| s@)),
            r is None ==> self@.path_segments is None,
    {
        match &self.path_segments {
            Some(v) => Some(v),
            None => None,
        }
    }

    /// The serialization as an owned string (`Url::to_string`).
    pub fn to_text(&self) -> (r: String)
        ensures
            r@ == self@.serialization,
    {
        self.serialization.clone()
    }

    /// A copy of the URL.
    pub fn duplicate(&self) -> (r: Url)
        ensures
            r@ == self@,
    {
        let segs = match &self.path_segments {
            Some(v) => {
                let mut out: Vec<String> = Vec::new();
                let mut i: usize = 0;
                while i < v.len()
                    invariant
                        0 <= i <= v@.len(),
                        out@.len() == i,
                        forall|k: int| 0 <= k < i ==> #[trigger] out@[k]@ == v@[k]@,
                    decreases v@.len() - i,
                {
                    out.push(v[i].clone());
                    i = i + 1;
                }
                assert(out@.map_values(|s: String| s@) =~= v@.map_values(|s: String| s@));
                Some(out)
            },
            None => None,
        };
        let host = match &self.host {
            Some(h) => Some(h.clone()),
            None => None,
        };
        Url {
            serialization: self.serialization.clone(),
            scheme: self.scheme.clone(),
            host,
            path_segments: segs,
        }
    }
}

} // verus!
