//! Character-level string helpers shared by the matching engine.

use vstd::prelude::*;
use vstd::string::StrSliceExecFns;

verus! {

/// Character-wise equality of two string slices.
pub fn str_eq(a: &str, b: &str) -> (r: bool)
    ensures
        r == (a@ == b@),
{
    let a_len = a.unicode_len();
    let b_len = b.unicode_len();
    if a_len != b_len {
        return false;
    }
    let mut i: usize = 0;
    while i < a_len
        invariant
            i <= a_len,
            a_len == a@.len(),
            b_len == b@.len(),
            a_len == b_len,
            forall|j: int| 0 <= j < i ==> a@[j] == b@[j],
        decreases a_len - i,
    {
        if a.get_char(i) != b.get_char(i) {
            return false;
        }
        i = i + 1;
    }
    proof {
        assert(a@ =~= b@);
    }
    true
}

/// An element-wise copy of a vector of strings.
pub fn clone_string_vec(v: &Vec<String>) -> (r: Vec<String>)
    ensures
        r@ == v@,
        r.deep_view() == v.deep_view(),
{
    let n = v.len();
    let mut r: Vec<String> = Vec::new();
    let mut i: usize = 0;
    while i < n
        invariant
            i <= n,
            n == v@.len(),
            r@ == v@.take(i as int),
        decreases n - i,
    {
        r.push(v[i].clone());
        proof {
            assert(r@ =~= v@.take(i + 1));
        }
        i = i + 1;
    }
    proof {
        assert(v@.take(n as int) =~= v@);
        assert(r.deep_view() =~= v.deep_view());
    }
    r
}

/// An element-wise copy of an exit table.
pub fn clone_exit_map(v: &Vec<(String, Vec<String>)>) -> (r: Vec<(String, Vec<String>)>)
    ensures
        r.deep_view() == v.deep_view(),
{
    let n = v.len();
    let mut r: Vec<(String, Vec<String>)> = Vec::new();
    let mut i: usize = 0;
    while i < n
        invariant
            i <= n,
            n == v@.len(),
            r.deep_view() == v.deep_view().take(i as int),
        decreases n - i,
    {
        let entry = &v[i];
        let key = entry.0.clone();
        let vals = clone_string_vec(&entry.1);
        proof {
            assert(key@ == v@[i as int].0@);
            assert(vals.deep_view() == v@[i as int].1.deep_view());
        }
        let ghost r0 = r@;
        proof {
            assert(v.deep_view().len() == v@.len());
            assert(r.deep_view().len() == r@.len());
            assert(r0.len() == i as int);
        }
        r.push((key, vals));
        proof {
            let ghost pushed = r@[i as int];
            assert(r@ == r0.push(pushed));
            assert(pushed.deep_view() == (pushed.0.deep_view(), pushed.1.deep_view()));
            assert(v.deep_view()[i as int] == (v@[i as int].0@, v@[i as int].1.deep_view()));
            assert forall|k: int| 0 <= k < i implies r.deep_view()[k] == v.deep_view()[k] by {
                assert(r@[k] == r0[k]);
                assert(r.deep_view()[k] == r0[k].deep_view());
                assert(v.deep_view().take(i as int)[k] == v.deep_view()[k]);
            }
            assert(r.deep_view() =~= v.deep_view().take(i + 1));
        }
        i = i + 1;
    }
    proof {
        assert(v.deep_view().take(n as int) =~= v.deep_view());
    }
    r
}

} // verus!
