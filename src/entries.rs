use vstd::prelude::*;

verus! {

/// No name occurs twice among the entries.
pub open spec fn keys_unique<V>(m: Seq<(Seq<char>, V)>) -> bool {
    forall|i: int, j: int| 0 <= i < j < m.len() ==> m[i].0 != m[j].0
}

/// Whether some entry has the name `k`.
pub open spec fn has_key<V>(m: Seq<(Seq<char>, V)>, k: Seq<char>) -> bool {
    exists|j: int| 0 <= j < m.len() && m[j].0 == k
}

/// Ordered-map insertion: an existing entry of that name keeps its place and takes
/// the new value; a new name goes to the end.
pub open spec fn map_insert<V>(m: Seq<(Seq<char>, V)>, k: Seq<char>, v: V) -> Seq<(Seq<char>, V)> {
    if has_key(m, k) {
        let j = choose|j: int| 0 <= j < m.len() && m[j].0 == k;
        m.update(j, (k, v))
    } else {
        m.push((k, v))
    }
}

/// Ordered-map removal: the entries of that name go, the others keep their order.
pub open spec fn map_remove<V>(m: Seq<(Seq<char>, V)>, k: Seq<char>) -> Seq<(Seq<char>, V)>
    decreases m.len(),
{
    if m.len() == 0 {
        m
    } else {
        let p = map_remove(m.drop_last(), k);
        if m.last().0 == k {
            p
        } else {
            p.push(m.last())
        }
    }
}

pub proof fn lemma_insert_at<V>(m: Seq<(Seq<char>, V)>, j: int, k: Seq<char>, v: V)
    requires
        keys_unique(m),
        0 <= j < m.len(),
        m[j].0 == k,
    ensures
        map_insert(m, k, v) == m.update(j, (k, v)),
        keys_unique(map_insert(m, k, v)),
{
}

pub proof fn lemma_insert_new<V>(m: Seq<(Seq<char>, V)>, k: Seq<char>, v: V)
    requires
        keys_unique(m),
        !has_key(m, k),
    ensures
        map_insert(m, k, v) == m.push((k, v)),
        keys_unique(map_insert(m, k, v)),
{
}

/// The view of a list of named values.
pub open spec fn pairs_view<V: View>(v: Seq<(String, V)>) -> Seq<(Seq<char>, V::V)> {
    v.map_values(|p: (String, V)| (p.0@, p.1@))
}

/// The position of the first entry named `k`, if any.
pub fn find_key<V>(m: &Vec<(String, V)>, k: &String) -> (r: Option<usize>)
    ensures
        match r {
            Some(j) => j < m@.len() && m@[j as int].0@ == k@,
            None => forall|j: int| 0 <= j < m@.len() ==> m@[j].0@ != k@,
        },
{
    let mut i: usize = 0;
    while i < m.len()
        invariant
            i <= m@.len(),
            forall|j: int| 0 <= j < i ==> m@[j].0@ != k@,
        decreases m@.len() - i,
    {
        if m[i].0 == *k {
            return Some(i);
        }
        i = i + 1;
    }
    None
}

/// Inserts into an ordered map held as a list of named values.
pub fn insert_pair<V: View>(m: &mut Vec<(String, V)>, k: String, v: V)
    requires
        keys_unique(pairs_view(old(m)@)),
    ensures
        pairs_view(final(m)@) == map_insert(pairs_view(old(m)@), k@, v@),
        keys_unique(pairs_view(final(m)@)),
{
    let ghost vk = pairs_view(m@);
    match find_key(m, &k) {
        Some(j) => {
            proof {
                lemma_insert_at(vk, j as int, k@, v@);
            }
            m.set(j, (k, v));
            assert(pairs_view(m@) =~= vk.update(j as int, (k@, v@)));
        },
        None => {
            proof {
                assert(!has_key(vk, k@)) by {
                    if has_key(vk, k@) {
                        let j = choose|j: int| 0 <= j < vk.len() && vk[j].0 == k@;
                        assert(m@[j].0@ == vk[j].0);
                    }
                }
                lemma_insert_new(vk, k@, v@);
            }
            m.push((k, v));
            assert(pairs_view(m@) =~= vk.push((k@, v@)));
        },
    }
}

/// ASCII lowercasing of one character; other characters stay.
pub open spec fn lower_char(c: char) -> char {
    if 'A' <= c && c <= 'Z' {
        "abcdefghijklmnopqrstuvwxyz"@[(c as u32 - 65) as int]
    } else {
        c
    }
}

/// ASCII lowercasing, the form in which header names are compared.
pub open spec fn ascii_lower(s: Seq<char>) -> Seq<char> {
    s.map_values(|c: char| lower_char(c))
}

/// The name in the lowercase form under which headers are kept.
pub fn to_ascii_lower(s: &str) -> (r: String)
    ensures
        r@ == ascii_lower(s@),
{
    let letters = "abcdefghijklmnopqrstuvwxyz";
    let n = s.unicode_len();
    let mut r = String::new();
    let mut i: usize = 0;
    while i < n
        invariant
            n == s@.len(),
            i <= n,
            letters@ == "abcdefghijklmnopqrstuvwxyz"@,
            r@ == ascii_lower(s@.take(i as int)),
        decreases n - i,
    {
        proof {
            reveal_strlit("abcdefghijklmnopqrstuvwxyz");
        }
        let c = s.get_char(i);
        let ghost r0 = r@;
        if 'A' <= c && c <= 'Z' {
            let k = (c as u32 - 65) as usize;
            r.append(letters.substring_ascii(k, k + 1));
        } else {
            r.append(s.substring_char(i, i + 1));
        }
        assert(r@ =~= ascii_lower(s@.take(i + 1)));
        i = i + 1;
    }
    assert(s@.take(n as int) =~= s@);
    r
}

} // verus!
