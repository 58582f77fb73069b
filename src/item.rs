use vstd::prelude::*;

use crate::error::Error;

verus! {

#[verifier::external_type_specification]
#[verifier::external_body]
pub struct ExValue(serde_json::Value);

/// Whether serde_json accepts the text as one JSON value.
pub uninterp spec fn json_parses(s: Seq<char>) -> bool;

/// Relies on serde_json::from_str: it yields a value exactly when the text is valid JSON.
#[verifier::external_body]
fn parse_json(s: &str) -> (r: Option<serde_json::Value>)
    ensures
        r.is_some() == json_parses(s@),
{
    serde_json::from_str(s).ok()
}

/// The separator that splits a request item into its name and its value.
#[derive(Clone, Copy, Debug, PartialEq, Eq, Structural)]
pub enum Separator {
    /// `name:value`, or `name:` to remove a header
    Header,
    /// `name==value`
    Query,
    /// `name:=value`
    Json,
    /// `name=value`
    Data,
    /// `name@path`
    File,
}

/// The separator that starts at position `i`, with its length; the two-character
/// forms are preferred over the one-character forms that begin them.
pub open spec fn sep_at(s: Seq<char>, i: int) -> Option<(Separator, int)> {
    if s[i] == '=' && i + 1 < s.len() && s[i + 1] == '=' {
        Some((Separator::Query, 2))
    } else if s[i] == ':' && i + 1 < s.len() && s[i + 1] == '=' {
        Some((Separator::Json, 2))
    } else if s[i] == '=' {
        Some((Separator::Data, 1))
    } else if s[i] == '@' {
        Some((Separator::File, 1))
    } else if s[i] == ':' {
        Some((Separator::Header, 1))
    } else {
        None
    }
}

/// Characters that a backslash may escape inside a name.
pub open spec fn escapable(c: char) -> bool {
    c == ':' || c == '=' || c == '@' || c == '\\'
}

/// Scans from position `i`, with `key` the unescaped name read so far, to the first
/// unescaped separator: the name, the separator and the position where the value starts.
pub open spec fn scan(s: Seq<char>, i: int, key: Seq<char>) -> Option<(Seq<char>, Separator, int)>
    decreases s.len() - i,
{
    if i < 0 || i >= s.len() {
        None
    } else if s[i] == '\\' {
        if i + 1 < s.len() && escapable(s[i + 1]) {
            scan(s, i + 2, key.push(s[i + 1]))
        } else {
            None
        }
    } else {
        match sep_at(s, i) {
            Some((sep, n)) => Some((key, sep, i + n)),
            None => scan(s, i + 1, key.push(s[i])),
        }
    }
}

/// A token split into name, separator and value, or `None` if it is malformed.
pub open spec fn split_spec(s: Seq<char>) -> Option<(Seq<char>, Separator, Seq<char>)> {
    match scan(s, 0, Seq::empty()) {
        Some((k, sep, p)) => Some((k, sep, s.subrange(p, s.len() as int))),
        None => None,
    }
}

proof fn lemma_scan_bounds(s: Seq<char>, i: int, key: Seq<char>)
    ensures
        scan(s, i, key) matches Some((k, sep, p)) ==> 0 <= i < p <= s.len(),
    decreases s.len() - i,
{
    if 0 <= i < s.len() {
        if s[i] == '\\' {
            if i + 1 < s.len() && escapable(s[i + 1]) {
                lemma_scan_bounds(s, i + 2, key.push(s[i + 1]));
            }
        } else if sep_at(s, i).is_none() {
            lemma_scan_bounds(s, i + 1, key.push(s[i]));
        }
    }
}

fn one_char(s: &str, i: usize) -> (r: &str)
    requires
        i < s@.len() <= usize::MAX,
    ensures
        r@ == seq![s@[i as int]],
{
    let r = s.substring_char(i, i + 1);
    assert(r@ =~= seq![s@[i as int]]);
    r
}

/// Splits a token at its first unescaped separator into the unescaped name, the
/// separator and the raw value.
pub fn split_item(s: &str) -> (r: Option<(String, Separator, String)>)
    ensures
        match split_spec(s@) {
            None => r.is_none(),
            Some((k, sep, v)) => r matches Some((k2, sep2, v2)) && k2@ == k && sep2 == sep && v2@ == v,
        },
{
    let n = s.unicode_len();
    let mut key = String::new();
    let mut i: usize = 0;
    proof {
        lemma_scan_bounds(s@, 0, Seq::empty());
    }
    while i < n
        invariant
            n == s@.len(),
            i <= n,
            scan(s@, i as int, key@) == scan(s@, 0, Seq::empty()),
        decreases n - i,
    {
        let c = s.get_char(i);
        if c == '\\' {
            if i + 1 < n {
                let d = s.get_char(i + 1);
                if d == ':' || d == '=' || d == '@' || d == '\\' {
                    let ghost k0 = key@;
                    key.append(one_char(s, i + 1));
                    assert(key@ =~= k0.push(d));
                    i = i + 2;
                    continue;
                }
            }
            return None;
        }
        let next_eq = i + 1 < n && s.get_char(i + 1) == '=';
        let sep = if c == '=' && next_eq {
            Some((Separator::Query, 2usize))
        } else if c == ':' && next_eq {
            Some((Separator::Json, 2usize))
        } else if c == '=' {
            Some((Separator::Data, 1usize))
        } else if c == '@' {
            Some((Separator::File, 1usize))
        } else if c == ':' {
            Some((Separator::Header, 1usize))
        } else {
            None
        };
        match sep {
            Some((sep, len)) => {
                proof {
                    lemma_scan_bounds(s@, 0, Seq::empty());
                }
                let value = String::from_str(s.substring_char(i + len, n));
                return Some((key, sep, value));
            },
            None => {
                let ghost k0 = key@;
                key.append(one_char(s, i));
                assert(key@ =~= k0.push(c));
                i = i + 1;
            },
        }
    }
    None
}

/// Relies on serde_json's derived `Clone`, which copies the value.
pub assume_specification[ <serde_json::Value as Clone>::clone ](v: &serde_json::Value) -> (r: serde_json::Value)
    ensures
        r == *v,
;

/// One classified command-line request item.
#[derive(Debug, PartialEq)]
pub enum RequestItem {
    /// A header to set: `name:value`
    HttpHeader(String, String),
    /// A header to remove: `name:`
    HttpHeaderToUnset(String),
    /// A URL query parameter: `name==value`
    UrlParam(String, String),
    /// A body field with a JSON value: `name:=value`
    JSONField(String, serde_json::Value),
    /// A body field with a string value: `name=value`
    DataField(String, String),
    /// A file to upload: `name@path`
    FormFile(String, String),
}

/// What parsing yields for a token, stated over its split; a JSON field is given
/// with only its name, its value being whatever serde_json made of the text.
pub open spec fn parse_spec_holds(s: Seq<char>, r: Result<RequestItem, Error>) -> bool {
    let malformed = r matches Err(Error::MalformedRequestItem(t)) && t@ == s;
    match split_spec(s) {
        None => malformed,
        Some((k, sep, v)) => match sep {
            Separator::Header => if v.len() == 0 {
                r matches Ok(RequestItem::HttpHeaderToUnset(k2)) && k2@ == k
            } else {
                r matches Ok(RequestItem::HttpHeader(k2, v2)) && k2@ == k && v2@ == v
            },
            Separator::Query => r matches Ok(RequestItem::UrlParam(k2, v2)) && k2@ == k && v2@ == v,
            Separator::Json => if json_parses(v) {
                r matches Ok(RequestItem::JSONField(k2, _)) && k2@ == k
            } else {
                malformed
            },
            Separator::Data => r matches Ok(RequestItem::DataField(k2, v2)) && k2@ == k && v2@ == v,
            Separator::File => r matches Ok(RequestItem::FormFile(k2, v2)) && k2@ == k && v2@ == v,
        },
    }
}

impl RequestItem {
    /// Classifies one raw token by its first unescaped separator.
    pub fn parse(s: &str) -> (r: Result<RequestItem, Error>)
        ensures
            parse_spec_holds(s@, r),
    {
        match split_item(s) {
            None => Err(Error::MalformedRequestItem(String::from_str(s))),
            Some((key, sep, value)) => match sep {
                Separator::Header => {
                    if value.unicode_len() == 0 {
                        Ok(RequestItem::HttpHeaderToUnset(key))
                    } else {
                        Ok(RequestItem::HttpHeader(key, value))
                    }
                },
                Separator::Query => Ok(RequestItem::UrlParam(key, value)),
                Separator::Json => match parse_json(value.as_str()) {
                    Some(v) => Ok(RequestItem::JSONField(key, v)),
                    None => Err(Error::MalformedRequestItem(String::from_str(s))),
                },
                Separator::Data => Ok(RequestItem::DataField(key, value)),
                Separator::File => Ok(RequestItem::FormFile(key, value)),
            },
        }
    }
}

} // verus!
