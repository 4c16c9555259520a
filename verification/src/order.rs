//! Ordering records by a text key.
use vstd::prelude::*;
use crate::text::{lemma_text_le_transitive, lemma_text_lt_total, text_le, text_less, text_lt};

verus! {

/// `a` may come before `b`: keys in ascending order, or in descending
/// order when `desc` holds.
pub open spec fn in_order(a: Seq<char>, b: Seq<char>, desc: bool) -> bool {
    if desc {
        text_le(b, a)
    } else {
        text_le(a, b)
    }
}

pub proof fn lemma_in_order_transitive(a: Seq<char>, b: Seq<char>, c: Seq<char>, desc: bool)
    requires
        in_order(a, b, desc),
        in_order(b, c, desc),
    ensures
        in_order(a, c, desc),
{
    if desc {
        lemma_text_le_transitive(c, b, a);
    } else {
        lemma_text_le_transitive(a, b, c);
    }
}

pub proof fn lemma_in_order_total(a: Seq<char>, b: Seq<char>, desc: bool)
    ensures
        !in_order(a, b, desc) ==> in_order(b, a, desc),
{
    lemma_text_lt_total(a, b);
    crate::text::lemma_text_lt_irreflexive(a);
}

/// `p` lists each of `0..n` exactly once.
pub open spec fn is_permutation(p: Seq<int>, n: nat) -> bool {
    &&& p.len() == n
    &&& forall|i: int| 0 <= i < p.len() ==> 0 <= #[trigger] p[i] < n
    &&& forall|i: int, j: int| 0 <= i < p.len() && 0 <= j < p.len() && i != j ==> p[i] != p[j]
}

/// `out` holds the elements of `src` in another order.
pub open spec fn reordering<T>(out: Seq<T>, src: Seq<T>) -> bool {
    exists|p: Seq<int>|
        is_permutation(p, src.len()) && out.len() == src.len() && forall|k: int|
            0 <= k < out.len() ==> #[trigger] out[k] == src[p[k]]
}

/// `s` is ordered by `key`.
pub open spec fn sorted_by<T>(s: Seq<T>, key: spec_fn(T) -> Seq<char>, desc: bool) -> bool {
    forall|a: int, b: int| 0 <= a < b < s.len() ==> in_order(key(s[a]), key(s[b]), desc)
}

pub open spec fn as_ints(v: Seq<usize>) -> Seq<int> {
    v.map_values(|x: usize| x as int)
}

fn in_order_exec(a: &str, b: &str, desc: bool) -> (r: bool)
    ensures
        r == in_order(a@, b@, desc),
{
    if desc {
        !text_less(a, b)
    } else {
        !text_less(b, a)
    }
}

/// An ordering of `0..keys.len()` that sorts the keys.
pub fn sort_order(keys: &Vec<String>, desc: bool) -> (r: Vec<usize>)
    ensures
        is_permutation(as_ints(r@), keys@.len()),
        forall|a: int, b: int|
            0 <= a < b < r@.len() ==> in_order(
                keys@[r@[a] as int]@,
                keys@[r@[b] as int]@,
                desc,
            ),
{
    let n = keys.len();
    let mut res: Vec<usize> = Vec::new();
    let mut i: usize = 0;
    while i < n
        invariant
            n == keys@.len(),
            i <= n,
            res@.len() == i,
            forall|a: int| 0 <= a < res@.len() ==> #[trigger] res@[a] < i,
            forall|a: int, b: int|
                0 <= a < res@.len() && 0 <= b < res@.len() && a != b ==> res@[a] != res@[b],
            forall|a: int, b: int|
                0 <= a < b < res@.len() ==> in_order(
                    keys@[res@[a] as int]@,
                    keys@[res@[b] as int]@,
                    desc,
                ),
        decreases n - i,
    {
        let mut pos: usize = 0;
        while pos < res.len() && in_order_exec(keys[res[pos]].as_str(), keys[i].as_str(), desc)
            invariant
                n == keys@.len(),
                i < n,
                pos <= res@.len(),
                forall|a: int| 0 <= a < res@.len() ==> #[trigger] res@[a] < i,
                forall|a: int|
                    0 <= a < pos ==> in_order(
                        keys@[#[trigger] res@[a] as int]@,
                        keys@[i as int]@,
                        desc,
                    ),
            decreases res@.len() - pos,
        {
            pos = pos + 1;
        }
        let ghost old_res = res@;
        proof {
            if pos < old_res.len() {
                lemma_in_order_total(keys@[old_res[pos as int] as int]@, keys@[i as int]@, desc);
            }
        }
        res.insert(pos, i);
        proof {
            assert forall|a: int, b: int| 0 <= a < b < res@.len() implies in_order(
                keys@[res@[a] as int]@,
                keys@[res@[b] as int]@,
                desc,
            ) by {
                if a < pos && b == pos {
                } else if a < pos && b > pos {
                    assert(res@[b] == old_res[b - 1]);
                    assert(in_order(keys@[old_res[a] as int]@, keys@[old_res[b - 1] as int]@, desc));
                } else if a == pos && b > pos {
                    assert(res@[b] == old_res[b - 1]);
                    if b - 1 > pos {
                        assert(in_order(
                            keys@[old_res[pos as int] as int]@,
                            keys@[old_res[b - 1] as int]@,
                            desc,
                        ));
                        lemma_in_order_transitive(
                            keys@[i as int]@,
                            keys@[old_res[pos as int] as int]@,
                            keys@[old_res[b - 1] as int]@,
                            desc,
                        );
                    }
                } else if a > pos {
                    assert(res@[a] == old_res[a - 1]);
                    assert(res@[b] == old_res[b - 1]);
                } else {
                    assert(res@[a] == old_res[a]);
                    assert(res@[b] == old_res[b]);
                }
            }
        }
        i = i + 1;
    }
    proof {
        assert(as_ints(res@).len() == n);
        assert forall|a: int| 0 <= a < as_ints(res@).len() implies 0 <= #[trigger] as_ints(res@)[a] < n by {}
        assert forall|a: int, b: int|
            0 <= a < as_ints(res@).len() && 0 <= b < as_ints(res@).len() && a != b implies as_ints(res@)[a] != as_ints(res@)[b] by {}
    }
    res
}

/// Items built, in a sorted order of their keys, from the elements of `s`
/// that `idx` picks out (the elements of `filtered`, in order) are a
/// reordering of `filtered` mapped by `g`, sorted by `okey`.
pub proof fn lemma_arranged<A, B>(
    s: Seq<A>,
    filtered: Seq<A>,
    idx: Seq<usize>,
    keys: Seq<Seq<char>>,
    order: Seq<usize>,
    out: Seq<B>,
    g: spec_fn(A) -> B,
    key: spec_fn(A) -> Seq<char>,
    okey: spec_fn(B) -> Seq<char>,
    desc: bool,
)
    requires
        idx.len() == filtered.len(),
        keys.len() == filtered.len(),
        forall|j: int|
            0 <= j < idx.len() ==> #[trigger] idx[j] < s.len() && s[idx[j] as int] == filtered[j]
                && keys[j] == key(filtered[j]),
        is_permutation(as_ints(order), keys.len()),
        forall|a: int, b: int|
            0 <= a < b < order.len() ==> in_order(
                keys[order[a] as int],
                keys[order[b] as int],
                desc,
            ),
        out.len() == order.len(),
        forall|y: int| 0 <= y < out.len() ==> #[trigger] out[y] == g(s[idx[order[y] as int] as int]),
        forall|a: A| #[trigger] okey(g(a)) == key(a),
    ensures
        reordering(out, filtered.map_values(g)),
        sorted_by(out, okey, desc),
{
    let src = filtered.map_values(g);
    let p = as_ints(order);
    assert forall|y: int| 0 <= y < out.len() implies #[trigger] out[y] == src[p[y]] by {
        assert(p[y] == order[y] as int);
        assert(0 <= p[y] < keys.len());
        assert(s[idx[p[y]] as int] == filtered[p[y]]);
    }
    assert(is_permutation(p, src.len()));
    assert(reordering(out, src));
    assert forall|a: int, b: int| 0 <= a < b < out.len() implies in_order(
        okey(out[a]),
        okey(out[b]),
        desc,
    ) by {
        assert(p[a] == order[a] as int);
        assert(p[b] == order[b] as int);
        assert(0 <= p[a] < keys.len());
        assert(0 <= p[b] < keys.len());
        assert(s[idx[p[a]] as int] == filtered[p[a]]);
        assert(s[idx[p[b]] as int] == filtered[p[b]]);
        assert(okey(out[a]) == okey(g(filtered[p[a]])));
        assert(okey(out[b]) == okey(g(filtered[p[b]])));
    }
}

} // verus!
