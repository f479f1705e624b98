use vstd::prelude::*;
use vstd::string::StrSliceExecFns;

verus! {

/// Lexicographic order on texts, character by character: the order of
/// std's `String`, since UTF-8 byte order follows code point order.
pub open spec fn text_lt(a: Seq<char>, b: Seq<char>) -> bool
    decreases a.len(),
{
    if a.len() == 0 {
        b.len() > 0
    } else if b.len() == 0 {
        false
    } else if a[0] != b[0] {
        (a[0] as int) < (b[0] as int)
    } else {
        text_lt(a.drop_first(), b.drop_first())
    }
}

pub proof fn lemma_text_lt_total(a: Seq<char>, b: Seq<char>)
    ensures
        a == b || text_lt(a, b) || text_lt(b, a),
    decreases a.len(),
{
    if a.len() > 0 && b.len() > 0 && a[0] == b[0] {
        lemma_text_lt_total(a.drop_first(), b.drop_first());
        if a.drop_first() == b.drop_first() {
            assert(a =~= seq![a[0]] + a.drop_first());
            assert(b =~= seq![b[0]] + b.drop_first());
        }
    } else if a.len() == 0 && b.len() == 0 {
        assert(a =~= b);
    }
}

pub proof fn lemma_text_lt_transitive(a: Seq<char>, b: Seq<char>, c: Seq<char>)
    requires
        text_lt(a, b),
        text_lt(b, c),
    ensures
        text_lt(a, c),
    decreases a.len(),
{
    if a.len() > 0 && b.len() > 0 && c.len() > 0 && a[0] == b[0] && b[0] == c[0] {
        lemma_text_lt_transitive(a.drop_first(), b.drop_first(), c.drop_first());
    }
}

/// Whether `a` comes before `b` in text order.
pub fn text_less(a: &str, b: &str) -> (r: bool)
    ensures
        r == text_lt(a@, b@),
{
    let n = a.unicode_len();
    let m = b.unicode_len();
    let mut i: usize = 0;
    assert(a@.skip(0) =~= a@ && b@.skip(0) =~= b@);
    while i < n && i < m && a.get_char(i) == b.get_char(i)
        invariant
            n == a@.len(),
            m == b@.len(),
            i <= n,
            i <= m,
            text_lt(a@, b@) == text_lt(a@.skip(i as int), b@.skip(i as int)),
        decreases n - i,
    {
        proof {
            let sa = a@.skip(i as int);
            let sb = b@.skip(i as int);
            assert(sa.drop_first() =~= a@.skip(i as int + 1));
            assert(sb.drop_first() =~= b@.skip(i as int + 1));
        }
        i += 1;
    }
    if i == n {
        i < m
    } else if i == m {
        false
    } else {
        let ca = a.get_char(i);
        let cb = b.get_char(i);
        (ca as u32) < (cb as u32)
    }
}

/// `idx` lists the positions of `keys` in increasing key order: it is a
/// permutation of the positions, and the keys it visits strictly increase.
pub open spec fn key_order(keys: Seq<Seq<char>>, idx: Seq<int>) -> bool {
    &&& idx.len() == keys.len()
    &&& forall|m: int| 0 <= m < idx.len() ==> 0 <= #[trigger] idx[m] < keys.len()
    &&& forall|a: int, b: int| 0 <= a < b < idx.len() ==> text_lt(keys[#[trigger] idx[a]], keys[#[trigger] idx[b]])
}

/// The texts of a list of strings.
pub open spec fn views_of(v: Seq<String>) -> Seq<Seq<char>> {
    Seq::new(v.len(), |i: int| v[i]@)
}

/// The positions of `keys` in increasing key order. The keys must differ.
pub fn sort_keys(keys: &Vec<String>) -> (r: Vec<usize>)
    requires
        forall|a: int, b: int| 0 <= a < keys@.len() && 0 <= b < keys@.len() && a != b ==> (#[trigger] keys@[a])@ != (#[trigger] keys@[b])@,
    ensures
        key_order(views_of(keys@), Seq::new(r@.len(), |m: int| r@[m] as int)),
{
    let ghost ks = views_of(keys@);
    let mut r: Vec<usize> = Vec::new();
    let mut k: usize = 0;
    while k < keys.len()
        invariant
            ks == views_of(keys@),
            k <= keys@.len(),
            r@.len() == k,
            forall|m: int| 0 <= m < r@.len() ==> (#[trigger] r@[m]) < k,
            forall|a: int, b: int| 0 <= a < b < r@.len() ==> text_lt(ks[#[trigger] r@[a] as int], ks[#[trigger] r@[b] as int]),
            forall|a: int, b: int| 0 <= a < keys@.len() && 0 <= b < keys@.len() && a != b ==> (#[trigger] keys@[a])@ != (#[trigger] keys@[b])@,
        decreases keys.len() - k,
    {
        let mut p: usize = 0;
        while p < r.len() && text_less(keys[r[p]].as_str(), keys[k].as_str())
            invariant
                p <= r@.len(),
                r@.len() == k,
                k < keys@.len(),
                ks == views_of(keys@),
                forall|m: int| 0 <= m < r@.len() ==> (#[trigger] r@[m]) < k,
                forall|m: int| 0 <= m < p ==> text_lt(ks[#[trigger] r@[m] as int], ks[k as int]),
            decreases r.len() - p,
        {
            p += 1;
        }
        let ghost before = r@;
        proof {
            if p < before.len() {
                let q = before[p as int] as int;
                assert(keys@[q]@ != keys@[k as int]@);
                assert(!text_lt(ks[q], ks[k as int]));
                lemma_text_lt_total(ks[q], ks[k as int]);
                assert(text_lt(ks[k as int], ks[q]));
            }
        }
        r.insert(p, k);
        assert forall|a: int, b: int| 0 <= a < b < r@.len() implies text_lt(ks[#[trigger] r@[a] as int], ks[#[trigger] r@[b] as int]) by {
            if b < p {
                assert(r@[a] == before[a] && r@[b] == before[b]);
            } else if b == p {
                assert(r@[a] == before[a]);
            } else if a == p {
                assert(r@[b] == before[b - 1]);
                if b - 1 > p {
                    lemma_text_lt_transitive(ks[k as int], ks[before[p as int] as int], ks[before[b - 1] as int]);
                }
            } else if a < p {
                assert(r@[a] == before[a] && r@[b] == before[b - 1]);
            } else {
                assert(r@[a] == before[a - 1] && r@[b] == before[b - 1]);
            }
        }
        assert forall|m: int| 0 <= m < r@.len() implies (#[trigger] r@[m]) < k + 1 by {
            if m < p {
                assert(r@[m] == before[m]);
            } else if m > p {
                assert(r@[m] == before[m - 1]);
            }
        }
        k += 1;
    }
    r
}


/// `s` visited in the order `idx` gives.
pub open spec fn permuted<T>(s: Seq<T>, idx: Seq<int>) -> Seq<T> {
    Seq::new(idx.len(), |m: int| s[idx[m]])
}

/// The positions a sort returned, as integers.
pub open spec fn positions(v: Seq<usize>) -> Seq<int> {
    Seq::new(v.len(), |m: int| v[m] as int)
}
} // verus!
