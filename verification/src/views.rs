//! Views of optional and repeated strings, and copies that keep them.
use vstd::prelude::*;
use crate::strmap::{Duplicate, StrMap};
use crate::text::str_eq;

verus! {

pub open spec fn opt_str_view(o: Option<String>) -> Option<Seq<char>> {
    match o {
        Some(s) => Some(s@),
        None => None,
    }
}

pub open spec fn str_vec_view(v: Vec<String>) -> Seq<Seq<char>> {
    v@.map_values(|s: String| s@)
}

pub open spec fn opt_str_vec_view(o: Option<Vec<String>>) -> Option<Seq<Seq<char>>> {
    match o {
        Some(v) => Some(str_vec_view(v)),
        None => None,
    }
}

pub open spec fn opt_map_view<V>(o: Option<StrMap<V>>) -> Option<Map<Seq<char>, V>> {
    match o {
        Some(m) => Some(m@),
        None => None,
    }
}

impl<T: Duplicate> Duplicate for Option<T> {
    fn duplicate(&self) -> (r: Option<T>) {
        match self {
            Some(x) => Some(x.duplicate()),
            None => None,
        }
    }
}

/// A copy of a list of strings.
pub fn dup_str_vec(v: &Vec<String>) -> (r: Vec<String>)
    ensures
        str_vec_view(r) == str_vec_view(*v),
        r@ == v@,
{
    let mut r: Vec<String> = Vec::new();
    let mut i: usize = 0;
    while i < v.len()
        invariant
            i <= v.len(),
            r.len() == i,
            forall|j: int| 0 <= j < i ==> #[trigger] r@[j] == v@[j],
        decreases v.len() - i,
    {
        r.push(v[i].clone());
        i = i + 1;
    }
    assert(r@ =~= v@);
    r
}

/// A copy of an optional list of strings.
pub fn dup_opt_str_vec(o: &Option<Vec<String>>) -> (r: Option<Vec<String>>)
    ensures
        opt_str_vec_view(r) == opt_str_vec_view(*o),
{
    match o {
        Some(v) => Some(dup_str_vec(v)),
        None => None,
    }
}

/// A copy of an optional map.
pub fn dup_opt_map<V: Duplicate>(o: &Option<StrMap<V>>) -> (r: Option<StrMap<V>>)
    ensures
        opt_map_view(r) == opt_map_view(*o),
{
    match o {
        Some(m) => Some(m.duplicate()),
        None => None,
    }
}

/// An owned copy of a string slice.
pub fn owned(s: &str) -> (r: String)
    ensures
        r@ == s@,
{
    String::from_str(s)
}

/// The text `t` is one of the strings of `v`.
pub open spec fn has_string(v: Seq<String>, t: Seq<char>) -> bool {
    exists|u: int| 0 <= u < v.len() && (#[trigger] v[u])@ == t
}

/// Whether `s` is one of the strings of `v`.
pub fn contains_string(v: &Vec<String>, s: &str) -> (b: bool)
    ensures
        b == has_string(v@, s@),
{
    let mut i: usize = 0;
    while i < v.len()
        invariant
            i <= v.len(),
            forall|u: int| 0 <= u < i ==> (#[trigger] v@[u])@ != s@,
        decreases v.len() - i,
    {
        if str_eq(v[i].as_str(), s) {
            return true;
        }
        i = i + 1;
    }
    false
}

/// The pieces joined into one text, `sep` between each two.
pub open spec fn join_with(sep: Seq<char>, parts: Seq<Seq<char>>) -> Seq<char>
    decreases parts.len(),
{
    if parts.len() == 0 {
        Seq::<char>::empty()
    } else if parts.len() == 1 {
        parts[0]
    } else {
        join_with(sep, parts.drop_last()) + sep + parts.last()
    }
}

/// Joins the strings of `parts`, `sep` between each two (`[String]::join`).
pub fn join_strings(parts: &Vec<String>, sep: &str) -> (s: String)
    ensures
        s@ == join_with(sep@, str_vec_view(*parts)),
{
    let mut out = String::new();
    let mut i: usize = 0;
    while i < parts.len()
        invariant
            i <= parts.len(),
            out@ == join_with(sep@, str_vec_view(*parts).take(i as int)),
        decreases parts.len() - i,
    {
        let ghost before = str_vec_view(*parts).take(i as int);
        assert(str_vec_view(*parts).take(i + 1).drop_last() =~= before);
        if i > 0 {
            out.append(sep);
        }
        out.append(parts[i].as_str());
        proof {
            if i == 0 {
                assert(out@ =~= str_vec_view(*parts).take(1)[0]);
            } else {
                assert(out@ =~= join_with(sep@, before) + sep@ + str_vec_view(*parts)[i as int]);
            }
        }
        i = i + 1;
    }
    assert(str_vec_view(*parts).take(parts.len() as int) =~= str_vec_view(*parts));
    out
}

} // verus!
