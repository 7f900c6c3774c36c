//! Picking out the positions that carry a key, ordered by key.

use vstd::prelude::*;

verus! {

/// Position `x` comes before position `y`: a smaller key, or the same key
/// and an earlier position.
pub open spec fn key_precedes(keys: Seq<Option<i64>>, x: int, y: int) -> bool {
    let kx = keys[x]->0;
    let ky = keys[y]->0;
    kx < ky || (kx == ky && x < y)
}

/// `v` lists exactly the positions of `keys` that hold a key, each once,
/// ordered by key and, among equal keys, by position.
pub open spec fn sorted_selection(keys: Seq<Option<i64>>, v: Seq<usize>) -> bool {
    &&& forall|i: int| 0 <= i < v.len() ==> v[i] < keys.len() && (keys[#[trigger] v[i] as int] is Some)
    &&& forall|x: int| 0 <= x < keys.len() && (#[trigger] keys[x] is Some) ==> exists|i: int|
        0 <= i < v.len() && v[i] == x
    &&& forall|a: int, b: int| 0 <= a < b < v.len() ==> key_precedes(keys, #[trigger] v[a] as int, #[trigger] v[b] as int)
}

fn key_at(keys: &Vec<Option<i64>>, x: usize) -> (r: i64)
    requires
        x < keys@.len(),
        keys@[x as int] is Some,
    ensures
        r == keys@[x as int]->0,
{
    match keys[x] {
        Some(k) => k,
        None => 0,
    }
}

/// The positions of `keys` that hold a key, ordered by key; a stable order
/// among equal keys.
pub fn select_sorted(keys: &Vec<Option<i64>>) -> (r: Vec<usize>)
    ensures
        sorted_selection(keys@, r@),
{
    let n = keys.len();
    let mut out: Vec<usize> = Vec::new();
    let mut j: usize = 0;
    while j < n
        invariant
            n == keys@.len(),
            j <= n,
            forall|i: int| 0 <= i < out@.len() ==> out@[i] < j && (keys@[#[trigger] out@[i] as int] is Some),
            forall|x: int| 0 <= x < j && (#[trigger] keys@[x] is Some) ==> exists|i: int|
                0 <= i < out@.len() && out@[i] == x,
            forall|a: int, b: int| 0 <= a < b < out@.len() ==> key_precedes(keys@, #[trigger] out@[a] as int, #[trigger] out@[b] as int),
        decreases n - j,
    {
        if let Some(k) = keys[j] {
            let mut p: usize = 0;
            let mut found = false;
            while p < out.len() && !found
                invariant
                    n == keys@.len(),
                    j < n,
                    p <= out@.len(),
                    forall|i: int| 0 <= i < out@.len() ==> out@[i] < j && (keys@[#[trigger] out@[i] as int] is Some),
                    forall|q: int| 0 <= q < p ==> keys@[#[trigger] out@[q] as int]->0 <= k,
                    found ==> p < out@.len() && keys@[out@[p as int] as int]->0 > k,
                decreases out@.len() - p + (if found { 0int } else { 1int }),
            {
                let kq = key_at(keys, out[p]);
                if kq > k {
                    found = true;
                } else {
                    p = p + 1;
                }
            }
            let ghost old_out = out@;
            out.insert(p, j);
            proof {
                let new_out = out@;
                assert forall|i: int| 0 <= i < new_out.len() implies new_out[i] < j + 1 && (keys@[#[trigger] new_out[i] as int] is Some) by {
                    if i < p {
                        assert(new_out[i] == old_out[i]);
                    } else if i > p {
                        assert(new_out[i] == old_out[i - 1]);
                    }
                }
                assert forall|q: int| p <= q < old_out.len() implies keys@[#[trigger] old_out[q] as int]->0 > k by {
                    if q > p {
                        assert(key_precedes(keys@, old_out[p as int] as int, old_out[q] as int));
                    }
                }
                assert forall|a: int, b: int| 0 <= a < b < new_out.len() implies key_precedes(keys@, #[trigger] new_out[a] as int, #[trigger] new_out[b] as int) by {
                    if b < p {
                        assert(new_out[a] == old_out[a] && new_out[b] == old_out[b]);
                    } else if b == p {
                        assert(new_out[a] == old_out[a]);
                        assert(keys@[old_out[a] as int]->0 <= k);
                    } else if a < p {
                        assert(new_out[a] == old_out[a] && new_out[b] == old_out[b - 1]);
                    } else if a == p {
                        assert(new_out[b] == old_out[b - 1]);
                        assert(keys@[old_out[b - 1] as int]->0 > k);
                    } else {
                        assert(new_out[a] == old_out[a - 1] && new_out[b] == old_out[b - 1]);
                    }
                }
                assert forall|x: int| 0 <= x < j + 1 && (#[trigger] keys@[x] is Some) implies exists|i: int|
                    0 <= i < new_out.len() && new_out[i] == x by {
                    if x == j {
                        assert(new_out[p as int] == j);
                    } else {
                        let i = choose|i: int| 0 <= i < old_out.len() && old_out[i] == x;
                        if i < p {
                            assert(new_out[i] == x);
                        } else {
                            assert(new_out[i + 1] == x);
                        }
                    }
                }
            }
        }
        j = j + 1;
    }
    out
}

} // verus!
