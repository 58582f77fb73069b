use vstd::prelude::*;

use crate::entries::pairs_view;
use crate::error::Error;

verus! {

/// The text of the URL that the `url` crate parses from the input, or `None`
/// where the input is no valid URL.
pub uninterp spec fn parsed_url(s: Seq<char>) -> Option<Seq<char>>;

/// The `application/x-www-form-urlencoded` writing of a string.
pub uninterp spec fn form_encoded(s: Seq<char>) -> Seq<char>;

/// Relies on url::Url::parse, through reqwest's re-export, and on the URL's
/// serialization: the text of the parsed URL, or `None` on a parse error.
#[verifier::external_body]
fn parse_url(s: &str) -> (r: Option<String>)
    ensures
        match parsed_url(s@) {
            Some(t) => r matches Some(u) && u@ == t,
            None => r is None,
        },
{
    reqwest::Url::parse(s).ok().map(String::from)
}

/// Relies on form_urlencoded::byte_serialize, the encoding that
/// `Url::query_pairs_mut` applies to each name and value.
#[verifier::external_body]
fn form_encode(s: &str) -> (r: String)
    ensures
        r@ == form_encoded(s@),
{
    url::form_urlencoded::byte_serialize(s.as_bytes()).collect()
}

/// The scheme that stands before a URL given without one.
pub open spec fn scheme_prefix(default_scheme: Option<Seq<char>>) -> Seq<char> {
    match default_scheme {
        None => "https://"@,
        Some(d) => if d.len() >= 3 && d.subrange(d.len() - 3, d.len() as int) == "://"@ {
            d
        } else {
            d + "://"@
        },
    }
}

pub open spec fn is_alnum(c: char) -> bool {
    ('a' <= c && c <= 'z') || ('A' <= c && c <= 'Z') || ('0' <= c && c <= '9')
}

/// A scheme separator at `i`: a letter or digit before `://`, something after it.
pub open spec fn scheme_sep_at(s: Seq<char>, i: int) -> bool {
    1 <= i && i + 3 < s.len() && is_alnum(s[i - 1]) && s[i] == ':' && s[i + 1] == '/' && s[i + 2]
        == '/'
}

/// Whether the text already names a scheme and something after it.
pub open spec fn is_qualified(s: Seq<char>) -> bool {
    exists|i: int| scheme_sep_at(s, i)
}

/// The text handed to the URL parser: `:path` goes to localhost, text without a
/// scheme gets the default one.
pub open spec fn qualify(url: Seq<char>, default_scheme: Option<Seq<char>>) -> Seq<char> {
    if url.len() > 0 && url[0] == ':' {
        scheme_prefix(default_scheme) + "localhost"@ + url
    } else if !is_qualified(url) {
        scheme_prefix(default_scheme) + url
    } else {
        url
    }
}

/// The position of the first `c` at or after `i`, or -1.
pub open spec fn first_of(s: Seq<char>, c: char, i: int) -> int
    decreases s.len() - i,
{
    if i < 0 || i >= s.len() {
        -1
    } else if s[i] == c {
        i
    } else {
        first_of(s, c, i + 1)
    }
}

/// One encoded query pair.
pub open spec fn pair_text(p: (Seq<char>, Seq<char>)) -> Seq<char> {
    form_encoded(p.0) + "="@ + form_encoded(p.1)
}

/// The encoded pairs joined by `&`.
pub open spec fn query_text(ps: Seq<(Seq<char>, Seq<char>)>) -> Seq<char>
    decreases ps.len(),
{
    if ps.len() == 0 {
        Seq::empty()
    } else if ps.len() == 1 {
        pair_text(ps[0])
    } else {
        query_text(ps.drop_last()) + "&"@ + pair_text(ps.last())
    }
}

/// A URL's text with query pairs added after its own query and before its fragment.
pub open spec fn with_query(t: Seq<char>, ps: Seq<(Seq<char>, Seq<char>)>) -> Seq<char> {
    if ps.len() == 0 {
        t
    } else {
        let f = first_of(t, '#', 0);
        let base = if f < 0 { t } else { t.subrange(0, f) };
        let frag = if f < 0 { Seq::empty() } else { t.subrange(f, t.len() as int) };
        let q = first_of(base, '?', 0);
        let sep = if q < 0 { "?"@ } else if q == base.len() - 1 { Seq::empty() } else { "&"@ };
        base + sep + query_text(ps) + frag
    }
}

proof fn lemma_first_of_range(s: Seq<char>, c: char, i: int)
    requires
        0 <= i,
    ensures
        first_of(s, c, i) == -1 || (i <= first_of(s, c, i) < s.len() && s[first_of(s, c, i)] == c),
    decreases s.len() - i,
{
    if i < s.len() && s[i] != c {
        lemma_first_of_range(s, c, i + 1);
    }
}

/// The position of the first `c` in `s`.
fn find_char(s: &str, c: char) -> (r: Option<usize>)
    ensures
        match r {
            Some(i) => first_of(s@, c, 0) == i as int,
            None => first_of(s@, c, 0) == -1,
        },
{
    let n = s.unicode_len();
    let mut i: usize = 0;
    while i < n
        invariant
            n == s@.len(),
            i <= n,
            first_of(s@, c, i as int) == first_of(s@, c, 0),
        decreases n - i,
    {
        if s.get_char(i) == c {
            return Some(i);
        }
        i = i + 1;
    }
    None
}

fn char_is_alnum(c: char) -> (r: bool)
    ensures
        r == is_alnum(c),
{
    ('a' <= c && c <= 'z') || ('A' <= c && c <= 'Z') || ('0' <= c && c <= '9')
}

fn has_scheme(s: &str) -> (r: bool)
    ensures
        r == is_qualified(s@),
{
    let n = s.unicode_len();
    let mut i: usize = 1;
    while i < n && n - i > 3
        invariant
            n == s@.len(),
            1 <= i,
            forall|j: int| 1 <= j < i ==> !scheme_sep_at(s@, j),
        decreases n - i,
    {
        if char_is_alnum(s.get_char(i - 1)) && s.get_char(i) == ':' && s.get_char(i + 1) == '/'
            && s.get_char(i + 2) == '/' {
            assert(scheme_sep_at(s@, i as int));
            return true;
        }
        i = i + 1;
    }
    assert forall|j: int| !scheme_sep_at(s@, j) by {
        if j >= i {
            assert(!(j + 3 < n));
        }
    }
    false
}

fn ends_with_scheme_sep(d: &str) -> (r: bool)
    ensures
        r == (d@.len() >= 3 && d@.subrange(d@.len() - 3, d@.len() as int) == "://"@),
{
    proof {
        reveal_strlit("://");
    }
    let n = d.unicode_len();
    if n < 3 {
        return false;
    }
    let r = d.get_char(n - 3) == ':' && d.get_char(n - 2) == '/' && d.get_char(n - 1) == '/';
    assert(r ==> d@.subrange(n - 3, n as int) =~= "://"@);
    assert(d@.subrange(n - 3, n as int) == "://"@ ==> d@.subrange(n - 3, n as int)[0] == ':'
        && d@.subrange(n - 3, n as int)[1] == '/' && d@.subrange(n - 3, n as int)[2] == '/');
    r
}

/// The text that the URL parser is handed for the user's URL.
pub fn qualify_url(url: &str, default_scheme: Option<&str>) -> (r: String)
    ensures
        r@ == qualify(
            url@,
            match default_scheme {
                Some(d) => Some(d@),
                None => None,
            },
        ),
{
    let mut prefix = match default_scheme {
        None => String::from_str("https://"),
        Some(d) => {
            let mut p = String::from_str(d);
            if !ends_with_scheme_sep(d) {
                p.append("://");
            }
            p
        },
    };
    if url.unicode_len() > 0 && url.get_char(0) == ':' {
        prefix.append("localhost");
        prefix.append(url);
        prefix
    } else if !has_scheme(url) {
        prefix.append(url);
        prefix
    } else {
        String::from_str(url)
    }
}

/// The encoded query pairs joined by `&`.
pub fn query_string(query: &Vec<(String, String)>) -> (r: String)
    ensures
        r@ == query_text(pairs_view(query@)),
{
    let ghost ps = pairs_view(query@);
    let mut r = String::new();
    let mut i: usize = 0;
    while i < query.len()
        invariant
            i <= query@.len(),
            ps == pairs_view(query@),
            r@ == query_text(ps.take(i as int)),
        decreases query@.len() - i,
    {
        assert(ps.take(i + 1).drop_last() =~= ps.take(i as int));
        if i > 0 {
            r.append("&");
        }
        r.append(form_encode(query[i].0.as_str()).as_str());
        r.append("=");
        r.append(form_encode(query[i].1.as_str()).as_str());
        proof {
            if i == 0 {
                assert(r@ =~= pair_text(ps.take(1)[0]));
            } else {
                assert(r@ =~= query_text(ps.take(i + 1)));
            }
        }
        i = i + 1;
    }
    assert(ps.take(query@.len() as int) =~= ps);
    r
}

/// Adds query pairs to the text of a parsed URL, after its own query (even where
/// a name repeats) and before its fragment.
pub fn append_query(t: &str, query: &Vec<(String, String)>) -> (r: String)
    ensures
        r@ == with_query(t@, pairs_view(query@)),
{
    if query.len() == 0 {
        return String::from_str(t);
    }
    let n = t.unicode_len();
    proof {
        lemma_first_of_range(t@, '#', 0);
    }
    let f = find_char(t, '#');
    let (base, frag) = match f {
        Some(f) => (t.substring_char(0, f), t.substring_char(f, n)),
        None => (t, ""),
    };
    proof {
        lemma_first_of_range(base@, '?', 0);
        reveal_strlit("");
    }
    let ghost fs = first_of(t@, '#', 0);
    assert(base@ == (if fs < 0 { t@ } else { t@.subrange(0, fs) }));
    assert(frag@ =~= (if fs < 0 { Seq::<char>::empty() } else { t@.subrange(fs, t@.len() as int) }));
    let ghost qs = first_of(base@, '?', 0);
    let sep = match find_char(base, '?') {
        None => "?",
        Some(q) => if q + 1 < base.unicode_len() {
            "&"
        } else {
            ""
        },
    };
    assert(sep@ == (if qs < 0 { "?"@ } else if qs == base@.len() - 1 { Seq::empty() } else { "&"@ }));
    let mut r = String::from_str(base);
    r.append(sep);
    r.append(query_string(query).as_str());
    r.append(frag);
    r
}

/// Builds the request URL: qualifies the user's URL, parses it, and adds the
/// query pairs. Fails where the qualified text is no valid URL.
pub fn construct_url(url: &str, default_scheme: Option<&str>, query: &Vec<(String, String)>) -> (r:
    Result<String, Error>)
    ensures
        ({
            let q = qualify(
                url@,
                match default_scheme {
                    Some(d) => Some(d@),
                    None => None,
                },
            );
            match parsed_url(q) {
                Some(t) => r matches Ok(u) && u@ == with_query(t, pairs_view(query@)),
                None => r matches Err(Error::InvalidUrl(u)) && u@ == url@,
            }
        }),
{
    let q = qualify_url(url, default_scheme);
    match parse_url(q.as_str()) {
        Some(t) => Ok(append_query(t.as_str(), query)),
        None => Err(Error::InvalidUrl(String::from_str(url))),
    }
}

/// A URL that already names its scheme (and does not start with `:`) goes to the
/// parser unchanged, and with no query pairs the parsed URL is the result.
pub proof fn lemma_qualified_url_unchanged(
    url: Seq<char>,
    default_scheme: Option<Seq<char>>,
    t: Seq<char>,
)
    requires
        is_qualified(url),
        !(url.len() > 0 && url[0] == ':'),
    ensures
        qualify(url, default_scheme) == url,
        with_query(t, Seq::empty()) == t,
{
}

} // verus!
