use vstd::prelude::*;

verus! {

/// The sort key of an active auction in pair-ordered listings: the sell
/// symbol, then the bid symbol, then — since a pair is not unique — the
/// auction index as the mandatory stable tie breaker.
pub open spec fn key_le(a: (u16, u16, u32), b: (u16, u16, u32)) -> bool {
    ||| a.0 < b.0
    ||| (a.0 == b.0 && a.1 < b.1)
    ||| (a.0 == b.0 && a.1 == b.1 && a.2 <= b.2)
}

/// Whether a key sequence is ordered by pair, ties broken by index.
pub open spec fn key_sorted(s: Seq<(u16, u16, u32)>) -> bool {
    forall|i: int, j: int| 0 <= i < j < s.len() ==> key_le(s[i], s[j])
}

/// `x` placed before the first element of `s` that is not below it.
pub open spec fn insert_sorted(s: Seq<(u16, u16, u32)>, x: (u16, u16, u32)) -> Seq<(u16, u16, u32)>
    decreases s.len(),
{
    if s.len() == 0 {
        seq![x]
    } else if key_le(x, s[0]) {
        seq![x] + s
    } else {
        seq![s[0]] + insert_sorted(s.drop_first(), x)
    }
}

/// The key sequence sorted by repeated insertion, left to right.
pub open spec fn sort_keys(s: Seq<(u16, u16, u32)>) -> Seq<(u16, u16, u32)>
    decreases s.len(),
{
    if s.len() == 0 {
        Seq::empty()
    } else {
        insert_sorted(sort_keys(s.drop_last()), s.last())
    }
}

/// Inserting into a sorted sequence keeps it sorted, adds exactly the new
/// key, and draws every element from the old sequence or the new key.
pub proof fn lemma_insert_sorted_props(s: Seq<(u16, u16, u32)>, x: (u16, u16, u32))
    requires
        key_sorted(s),
    ensures
        key_sorted(insert_sorted(s, x)),
        insert_sorted(s, x).len() == s.len() + 1,
        forall|i: int|
            0 <= i < insert_sorted(s, x).len() ==> (#[trigger] insert_sorted(s, x)[i] == x
                || s.contains(insert_sorted(s, x)[i])),
    decreases s.len(),
{
    let r = insert_sorted(s, x);
    if s.len() == 0 {
    } else if key_le(x, s[0]) {
        assert forall|i: int, j: int| 0 <= i < j < r.len() implies key_le(r[i], r[j]) by {
            if i > 0 {
                assert(r[i] == s[i - 1]);
                assert(r[j] == s[j - 1]);
            } else {
                assert(r[j] == s[j - 1]);
                if j > 1 {
                    assert(key_le(s[0], s[j - 1]));
                }
            }
        }
        assert forall|i: int| 0 <= i < r.len() implies (r[i] == x || s.contains(r[i])) by {
            if i > 0 {
                assert(r[i] == s[i - 1]);
            }
        }
    } else {
        let d = s.drop_first();
        assert forall|i: int, j: int| 0 <= i < j < d.len() implies key_le(d[i], d[j]) by {
            assert(d[i] == s[i + 1]);
            assert(d[j] == s[j + 1]);
        }
        lemma_insert_sorted_props(d, x);
        let rd = insert_sorted(d, x);
        assert forall|i: int| 0 <= i < r.len() implies (r[i] == x || s.contains(r[i])) by {
            if i > 0 {
                assert(r[i] == rd[i - 1]);
                if rd[i - 1] != x {
                    assert(d.contains(rd[i - 1]));
                    let l = choose|l: int| 0 <= l < d.len() && d[l] == rd[i - 1];
                    assert(s[l + 1] == rd[i - 1]);
                }
            } else {
                assert(r[0] == s[0]);
                assert(s.contains(s[0]));
            }
        }
        assert forall|i: int, j: int| 0 <= i < j < r.len() implies key_le(r[i], r[j]) by {
            if i > 0 {
                assert(r[i] == rd[i - 1]);
                assert(r[j] == rd[j - 1]);
            } else {
                assert(r[j] == rd[j - 1]);
                if rd[j - 1] == x {
                    assert(key_le(s[0], x));
                } else {
                    assert(d.contains(rd[j - 1]));
                    let l = choose|l: int| 0 <= l < d.len() && d[l] == rd[j - 1];
                    assert(d[l] == s[l + 1]);
                    assert(key_le(s[0], s[l + 1]));
                }
            }
        }
    }
}

/// Sorting keeps the length and draws every element from the input.
pub proof fn lemma_sort_keys_props(s: Seq<(u16, u16, u32)>)
    ensures
        key_sorted(sort_keys(s)),
        sort_keys(s).len() == s.len(),
        forall|i: int|
            0 <= i < sort_keys(s).len() ==> s.contains(#[trigger] sort_keys(s)[i]),
    decreases s.len(),
{
    if s.len() > 0 {
        let d = s.drop_last();
        lemma_sort_keys_props(d);
        lemma_insert_sorted_props(sort_keys(d), s.last());
        assert forall|i: int| 0 <= i < sort_keys(s).len() implies s.contains(
            #[trigger] sort_keys(s)[i],
        ) by {
            let y = sort_keys(s)[i];
            if y == s.last() {
                assert(s[s.len() - 1] == y);
            } else {
                assert(sort_keys(d).contains(y));
                let l = choose|l: int| 0 <= l < sort_keys(d).len() && sort_keys(d)[l] == y;
                assert(d.contains(y));
                let k = choose|k: int| 0 <= k < d.len() && d[k] == y;
                assert(s[k] == y);
            }
        }
    }
}

/// Places `x` at the first position whose key is not below it.
fn insert_key(v: &mut Vec<(u16, u16, u32)>, x: (u16, u16, u32))
    ensures
        final(v)@ =~= insert_sorted(old(v)@, x),
{
    let n = v.len();
    let mut p: usize = 0;
    while p < n && !key_le_exec(x, v[p])
        invariant
            *v == *old(v),
            n == v@.len(),
            0 <= p <= n,
            forall|j: int| 0 <= j < p ==> !key_le(x, v@[j]),
        decreases n - p,
    {
        p += 1;
    }
    let ghost s = v@;
    v.insert(p, x);
    proof {
        lemma_insert_at(s, x, p as int);
    }
}

proof fn lemma_insert_at(s: Seq<(u16, u16, u32)>, x: (u16, u16, u32), p: int)
    requires
        0 <= p <= s.len(),
        forall|j: int| 0 <= j < p ==> !key_le(x, s[j]),
        p < s.len() ==> key_le(x, s[p]),
    ensures
        insert_sorted(s, x) =~= s.insert(p, x),
    decreases s.len(),
{
    if s.len() == 0 {
        assert(insert_sorted(s, x) =~= seq![x]);
        assert(s.insert(0, x) =~= seq![x]);
    } else if p == 0 {
        assert(key_le(x, s[0]));
        assert(seq![x] + s =~= s.insert(0, x));
    } else {
        assert(!key_le(x, s[0]));
        let d = s.drop_first();
        assert forall|j: int| 0 <= j < p - 1 implies !key_le(x, d[j]) by {
            assert(d[j] == s[j + 1]);
        }
        if p - 1 < d.len() {
            assert(d[p - 1] == s[p]);
        }
        lemma_insert_at(d, x, p - 1);
        assert(seq![s[0]] + d.insert(p - 1, x) =~= s.insert(p, x));
    }
}

/// Compares two pair keys.
fn key_le_exec(a: (u16, u16, u32), b: (u16, u16, u32)) -> (r: bool)
    ensures
        r == key_le(a, b),
{
    a.0 < b.0 || (a.0 == b.0 && a.1 < b.1) || (a.0 == b.0 && a.1 == b.1 && a.2 <= b.2)
}

/// Sorts a key list by pair, ties broken by index.
pub fn sorted_keys(keys: &Vec<(u16, u16, u32)>) -> (r: Vec<(u16, u16, u32)>)
    ensures
        r@ =~= sort_keys(keys@),
        key_sorted(r@),
{
    let n = keys.len();
    let mut out: Vec<(u16, u16, u32)> = Vec::new();
    let mut i: usize = 0;
    proof {
        assert(keys@.take(0) =~= Seq::<(u16, u16, u32)>::empty());
    }
    while i < n
        invariant
            n == keys@.len(),
            0 <= i <= n,
            out@ =~= sort_keys(keys@.take(i as int)),
        decreases n - i,
    {
        proof {
            assert(keys@.take(i as int + 1).drop_last() =~= keys@.take(i as int));
            assert(keys@.take(i as int + 1).last() == keys@[i as int]);
        }
        insert_key(&mut out, keys[i]);
        i += 1;
    }
    proof {
        assert(keys@.take(n as int) =~= keys@);
        lemma_sort_keys_props(keys@);
    }
    out
}

} // verus!
