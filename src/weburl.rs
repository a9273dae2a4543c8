//! URLs as plain values: what the rest of the library reads of a parsed URL.
use crate::text::{chars_of, opt_view, split_chars, split_spec, views};
use vstd::prelude::*;

verus! {

/// A URL that parsed, held as the parts this library reads: its serialization,
/// its host and its path.
#[derive(Debug)]
pub struct ParsedUrl {
    pub text: String,
    pub host: Option<String>,
    pub path: String,
}

impl View for ParsedUrl {
    type V = (Seq<char>, Option<Seq<char>>, Seq<char>);

    open spec fn view(&self) -> Self::V {
        (self.text@, opt_view(self.host), self.path@)
    }
}

/// What parsing `s` as a URL gives: `None` where it is not a valid URL, else
/// the serialization, host and path of the parsed URL.
pub uninterp spec fn url_parse_of(s: Seq<char>) -> Option<(Seq<char>, Option<Seq<char>>, Seq<char>)>;

/// What the URL parsed from `source` becomes once its path is set to `path`.
pub uninterp spec fn url_with_path_of(source: Seq<char>, path: Seq<char>) -> (
    Seq<char>,
    Option<Seq<char>>,
    Seq<char>,
);

/// Relies on `url::Url::parse`, read back through `as_str`, `host_str` and
/// `path`: whether `s` is a URL, and the parts of the URL it is.
#[verifier::external_body]
fn parse_url_parts(s: &str) -> (r: Result<ParsedUrl, String>)
    ensures
        r is Ok <==> url_parse_of(s@) is Some,
        r matches Ok(u) ==> url_parse_of(s@) == Some(u@),
{
    match url::Url::parse(s) {
        Ok(u) => Ok(
            ParsedUrl {
                text: u.as_str().to_string(),
                host: u.host_str().map(|h| h.to_string()),
                path: u.path().to_string(),
            },
        ),
        Err(e) => Err(e.to_string()),
    }
}

/// Relies on `url::Url::set_path`, applied to the URL parsed from `source`.
#[verifier::external_body]
fn url_with_path(source: &str, path: &str) -> (r: ParsedUrl)
    requires
        url_parse_of(source@) is Some,
    ensures
        r@ == url_with_path_of(source@, path@),
{
    let mut u = url::Url::parse(source).unwrap();
    u.set_path(path);
    ParsedUrl {
        text: u.as_str().to_string(),
        host: u.host_str().map(|h| h.to_string()),
        path: u.path().to_string(),
    }
}

/// The path segments of a URL path: `None` unless it starts with `/`, else the
/// rest split at each `/`.
pub open spec fn path_segments_spec(path: Seq<char>) -> Option<Seq<Seq<char>>> {
    if path.len() > 0 && path[0] == '/' {
        Some(split_spec(path.subrange(1, path.len() as int), '/'))
    } else {
        None
    }
}

impl ParsedUrl {
    /// Parses `s` as a URL; the error carries the parser's message.
    pub fn parse(s: &str) -> (r: Result<ParsedUrl, String>)
        ensures
            r is Ok <==> url_parse_of(s@) is Some,
            r matches Ok(u) ==> url_parse_of(s@) == Some(u@),
    {
        parse_url_parts(s)
    }

    /// The URL parsed from `source`, with its path replaced by `path`.
    pub fn with_path(source: &str, path: &str) -> (r: ParsedUrl)
        requires
            url_parse_of(source@) is Some,
        ensures
            r@ == url_with_path_of(source@, path@),
    {
        url_with_path(source, path)
    }

    /// The segments of the path, as `url::Url::path_segments` yields them.
    pub fn path_segments(&self) -> (r: Option<Vec<Vec<char>>>)
        ensures
            r matches Some(v) ==> path_segments_spec(self.path@) == Some(views(v@)) && v@.len() >= 1,
            r is None <==> path_segments_spec(self.path@) is None,
    {
        let p = chars_of(self.path.as_str());
        if p.len() == 0 || p[0] != '/' {
            return None;
        }
        let mut rest: Vec<char> = Vec::new();
        let mut i: usize = 1;
        while i < p.len()
            invariant
                1 <= i <= p.len(),
                rest@ == p@.subrange(1, i as int),
            decreases p.len() - i,
        {
            rest.push(p[i]);
            proof {
                assert(p@.subrange(1, i + 1) =~= p@.subrange(1, i as int).push(p@[i as int]));
            }
            i += 1;
        }
        Some(split_chars(&rest, '/'))
    }
}

} // verus!
