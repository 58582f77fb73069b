use vstd::prelude::*;

use crate::entries::{has_key, insert_pair, keys_unique, map_insert, map_remove, pairs_view};
use crate::request_items::{set_headers, unset_names, Body, BodyView, RequestItems, lemma_set_headers_unique};

verus! {

/// The `Accept` value for a body: JSON and piped bodies ask for JSON first.
pub open spec fn accept_for(body: Option<BodyView>) -> Seq<char> {
    match body {
        Some(BodyView::Json(_)) => "application/json, */*"@,
        Some(BodyView::Raw(_)) => "application/json, */*"@,
        _ => "*/*"@,
    }
}

/// The headers that a request starts with, before the items apply theirs.
pub open spec fn default_headers_spec(body: Option<BodyView>, user_agent: Seq<char>) -> Seq<
    (Seq<char>, Seq<char>),
> {
    let base = seq![
        ("accept-encoding"@, "gzip, deflate"@),
        ("connection"@, "keep-alive"@),
        ("user-agent"@, user_agent),
        ("accept"@, accept_for(body)),
    ];
    match body {
        Some(BodyView::Raw(_)) => base.push(("content-type"@, "application/json"@)),
        _ => base,
    }
}

/// Inserts each entry in turn.
pub open spec fn insert_all(m: Seq<(Seq<char>, Seq<char>)>, sets: Seq<(Seq<char>, Seq<char>)>) -> Seq<
    (Seq<char>, Seq<char>),
>
    decreases sets.len(),
{
    if sets.len() == 0 {
        m
    } else {
        map_insert(insert_all(m, sets.drop_last()), sets.last().0, sets.last().1)
    }
}

/// Removes each name in turn.
pub open spec fn remove_all(m: Seq<(Seq<char>, Seq<char>)>, names: Seq<Seq<char>>) -> Seq<
    (Seq<char>, Seq<char>),
>
    decreases names.len(),
{
    if names.len() == 0 {
        m
    } else {
        map_remove(remove_all(m, names.drop_last()), names.last())
    }
}

/// Removing a name that no entry has leaves the headers as they were.
pub proof fn lemma_remove_absent(m: Seq<(Seq<char>, Seq<char>)>, k: Seq<char>)
    requires
        !has_key(m, k),
    ensures
        map_remove(m, k) == m,
    decreases m.len(),
{
    if m.len() > 0 {
        let p = m.drop_last();
        assert(!has_key(p, k)) by {
            if has_key(p, k) {
                let j = choose|j: int| 0 <= j < p.len() && p[j].0 == k;
                assert(m[j].0 == k);
            }
        }
        lemma_remove_absent(p, k);
        assert(m.last().0 != k) by {
            assert(m[m.len() - 1].0 == m.last().0);
        }
        assert(p.push(m.last()) =~= m);
    }
}

/// Removes the header of that name, keeping the order of the others.
pub fn remove_header(m: &mut Vec<(String, String)>, k: &String)
    ensures
        pairs_view(final(m)@) == map_remove(pairs_view(old(m)@), k@),
{
    let ghost src = pairs_view(m@);
    let mut kept: Vec<(String, String)> = Vec::new();
    let mut i: usize = 0;
    while i < m.len()
        invariant
            i <= m@.len(),
            src == pairs_view(m@),
            pairs_view(kept@) == map_remove(src.take(i as int), k@),
        decreases m@.len() - i,
    {
        assert(src.take(i + 1).drop_last() =~= src.take(i as int));
        if m[i].0 != *k {
            let ghost k0 = kept@;
            kept.push((m[i].0.clone(), m[i].1.clone()));
            assert(pairs_view(kept@) =~= pairs_view(k0).push(src[i as int]));
        }
        i = i + 1;
    }
    assert(src.take(m@.len() as int) =~= src);
    *m = kept;
}

/// The headers that a request starts with.
pub fn default_headers(body: &Option<Body>, user_agent: &str) -> (r: Vec<(String, String)>)
    ensures
        pairs_view(r@) == default_headers_spec(
            match body {
                Some(b) => Some(b@),
                None => None,
            },
            user_agent@,
        ),
{
    let accept = match body {
        Some(Body::Json(_)) | Some(Body::Raw(_)) => "application/json, */*",
        _ => "*/*",
    };
    let mut r: Vec<(String, String)> = Vec::new();
    r.push((String::from_str("accept-encoding"), String::from_str("gzip, deflate")));
    r.push((String::from_str("connection"), String::from_str("keep-alive")));
    r.push((String::from_str("user-agent"), String::from_str(user_agent)));
    r.push((String::from_str("accept"), String::from_str(accept)));
    if let Some(Body::Raw(_)) = body {
        r.push((String::from_str("content-type"), String::from_str("application/json")));
    }
    proof {
        let bv = match body {
            Some(b) => Some(b@),
            None => None,
        };
        assert(pairs_view(r@) =~= default_headers_spec(bv, user_agent@));
    }
    r
}

/// The headers sent with a request, under lowercase names: the defaults for its
/// body, then each header that the items set, and last the removal of each header
/// that they unset.
pub fn request_headers(items: &RequestItems, body: &Option<Body>, user_agent: &str) -> (r: Vec<
    (String, String),
>)
    ensures
        pairs_view(r@) == remove_all(
            insert_all(
                default_headers_spec(
                    match body {
                        Some(b) => Some(b@),
                        None => None,
                    },
                    user_agent@,
                ),
                set_headers(items@),
            ),
            unset_names(items@),
        ),
{
    let mut headers = default_headers(body, user_agent);
    let (set, unset) = items.headers();
    let ghost d = pairs_view(headers@);
    let ghost sv = pairs_view(set@);
    proof {
        reveal_strlit("accept-encoding");
        reveal_strlit("connection");
        reveal_strlit("user-agent");
        reveal_strlit("accept");
        reveal_strlit("content-type");
        assert(keys_unique(d)) by {
            assert forall|i: int, j: int| 0 <= i < j < d.len() implies d[i].0 != d[j].0 by {
                assert(d[i].0[0] != d[j].0[0] || d[i].0.len() != d[j].0.len());
            }
        }
    }
    let mut i: usize = 0;
    while i < set.len()
        invariant
            i <= set@.len(),
            sv == pairs_view(set@),
            pairs_view(headers@) == insert_all(d, sv.take(i as int)),
            keys_unique(pairs_view(headers@)),
        decreases set@.len() - i,
    {
        assert(sv.take(i + 1).drop_last() =~= sv.take(i as int));
        insert_pair(&mut headers, set[i].0.clone(), set[i].1.clone());
        i = i + 1;
    }
    assert(sv.take(set@.len() as int) =~= sv);
    let ghost ins = pairs_view(headers@);
    let ghost uv = unset@.map_values(|s: String| s@);
    let mut j: usize = 0;
    while j < unset.len()
        invariant
            j <= unset@.len(),
            uv == unset@.map_values(|s: String| s@),
            pairs_view(headers@) == remove_all(ins, uv.take(j as int)),
        decreases unset@.len() - j,
    {
        assert(uv.take(j + 1).drop_last() =~= uv.take(j as int));
        remove_header(&mut headers, &unset[j]);
        j = j + 1;
    }
    assert(uv.take(unset@.len() as int) =~= uv);
    headers
}

} // verus!
