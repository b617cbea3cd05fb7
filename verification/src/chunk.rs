use vstd::prelude::*;
use vstd::arithmetic::div_mod::{
    lemma_basic_div, lemma_div_plus_one, lemma_fundamental_div_mod,
    lemma_mod_division_less_than_divisor,
};
use vstd::arithmetic::mul::lemma_mul_inequality;

verus! {

/// The partition of `s` into consecutive groups of at most `c` elements,
/// kept in order: the first group holds the first `c` elements, and so on;
/// the last group holds whatever remains.
pub open spec fn chunks_of<T>(s: Seq<T>, c: int) -> Seq<Seq<T>>
    decreases s.len()
    when c >= 1
{
    if s.len() == 0 {
        Seq::empty()
    } else if c < s.len() {
        seq![s.subrange(0, c)] + chunks_of(s.subrange(c, s.len() as int), c)
    } else {
        seq![s]
    }
}

/// The element sequences of a vector of vectors.
pub open spec fn seq_of_vecs<T>(v: Seq<Vec<T>>) -> Seq<Seq<T>> {
    v.map_values(|g: Vec<T>| g@)
}

/// Law: partitioning `N` elements into groups of at most `c` yields exactly
/// `ceil(N / c)` groups.
pub proof fn lemma_chunks_count<T>(s: Seq<T>, c: int)
    requires
        c >= 1,
    ensures
        chunks_of(s, c).len() == (s.len() + c - 1) / c,
    decreases s.len(),
{
    if s.len() == 0 {
        lemma_basic_div(c - 1, c);
    } else if c < s.len() {
        lemma_chunks_count(s.subrange(c, s.len() as int), c);
        lemma_div_plus_one(s.len() - 1, c);
    } else {
        lemma_div_plus_one(s.len() - 1, c);
        lemma_basic_div(s.len() - 1, c);
    }
}

/// Law: group `i` of the partition is exactly the slice
/// `s[i*c .. min((i+1)*c, N)]`. So every group but the last has `c` elements,
/// the last has between 1 and `c`, the groups keep the order of `s`, and
/// together they cover `s` exactly once.
pub proof fn lemma_chunks_shape<T>(s: Seq<T>, c: int, i: int)
    requires
        c >= 1,
        0 <= i < chunks_of(s, c).len(),
    ensures
        chunks_of(s, c)[i] == s.subrange(
            i * c,
            if (i + 1) * c < s.len() { (i + 1) * c } else { s.len() as int },
        ),
        1 <= chunks_of(s, c)[i].len() <= c,
        0 <= i * c < s.len(),
    decreases s.len(),
{
    let n = s.len() as int;
    if s.len() == 0 {
        // no groups at all
    } else if c < n {
        if i == 0 {
            assert(0 * c == 0);
            assert(1 * c == c);
        } else {
            let rest = s.subrange(c, n);
            assert(chunks_of(s, c) == seq![s.subrange(0, c)] + chunks_of(rest, c));
            assert(chunks_of(s, c).len() == 1 + chunks_of(rest, c).len());
            lemma_chunks_shape(rest, c, i - 1);
            assert((i - 1) * c == i * c - c) by (nonlinear_arith);
            assert((i + 1) * c == i * c + c) by (nonlinear_arith);
            assert((i - 1) * c >= 0) by (nonlinear_arith)
                requires
                    i >= 1 && c >= 1,
            ;
            let lo = (i - 1) * c;
            let hi = if i * c < rest.len() { i * c } else { rest.len() as int };
            assert(chunks_of(s, c)[i] == chunks_of(rest, c)[i - 1]);
            assert(chunks_of(rest, c)[i - 1] == rest.subrange(lo, hi));
            let m = rest.len() as int;
            let q = (m + c - 1) / c;
            lemma_chunks_count(rest, c);
            lemma_fundamental_div_mod(m + c - 1, c);
            lemma_mod_division_less_than_divisor(m + c - 1, c);
            lemma_mul_inequality(i - 1, q - 1, c);
            assert((q - 1) * c == q * c - c) by (nonlinear_arith);
            assert(q * c == c * q) by (nonlinear_arith);
            assert(lo < m);
            assert(lo < hi);
            assert(rest.subrange(lo, hi) =~= s.subrange(lo + c, hi + c));
        }
    } else {
        assert(i == 0);
        assert(0 * c == 0);
        assert(1 * c == c);
        assert(s.subrange(0, n) =~= s);
    }
}

/// Law: concatenating the groups of the partition gives back `s`: every
/// element appears exactly once, in its original position.
pub proof fn lemma_chunks_flatten<T>(s: Seq<T>, c: int)
    requires
        c >= 1,
    ensures
        chunks_of(s, c).flatten() == s,
    decreases s.len(),
{
    let n = s.len() as int;
    if s.len() == 0 {
        assert(chunks_of(s, c).flatten() =~= s);
    } else if c < n {
        let rest = s.subrange(c, n);
        lemma_chunks_flatten(rest, c);
        let groups = chunks_of(s, c);
        assert(groups.drop_first() =~= chunks_of(rest, c));
        assert(groups.first() == s.subrange(0, c));
        assert(groups.flatten() == s.subrange(0, c) + chunks_of(rest, c).flatten());
        assert(s.subrange(0, c) + rest =~= s);
    } else {
        let groups = chunks_of(s, c);
        assert(groups.drop_first() =~= Seq::<Seq<T>>::empty());
        assert(groups.drop_first().flatten() == Seq::<Seq<T>>::empty().flatten());
        assert(Seq::<Seq<T>>::empty().flatten() =~= Seq::<T>::empty());
        assert(groups.flatten() =~= s);
    }
}

/// Split a vector into consecutive groups of at most `chunk_size` elements.
pub fn chunk_vec<T>(items: Vec<T>, chunk_size: usize) -> (groups: Vec<Vec<T>>)
    requires
        chunk_size >= 1,
    ensures
        seq_of_vecs(groups@) == chunks_of(items@, chunk_size as int),
{
    let ghost c = chunk_size as int;
    let mut rest = items;
    let mut groups: Vec<Vec<T>> = Vec::new();
    let ghost orig = rest@;
    proof {
        assert(seq_of_vecs(groups@) =~= Seq::<Seq<T>>::empty());
    }
    while rest.len() > 0
        invariant
            chunk_size >= 1,
            c == chunk_size as int,
            chunks_of(orig, c) == seq_of_vecs(groups@) + chunks_of(rest@, c),
        decreases rest.len(),
    {
        let ghost before = rest@;
        let ghost gprev = groups@;
        let k = if chunk_size < rest.len() {
            chunk_size
        } else {
            rest.len()
        };
        let mut cur: Vec<T> = Vec::new();
        let mut j: usize = 0;
        while j < k
            invariant
                j <= k,
                k <= before.len(),
                cur@ == before.subrange(0, j as int),
                rest@ == before.subrange(j as int, before.len() as int),
            decreases k - j,
        {
            let x = rest.remove(0);
            cur.push(x);
            j += 1;
            proof {
                assert(cur@ =~= before.subrange(0, j as int));
                assert(rest@ =~= before.subrange(j as int, before.len() as int));
            }
        }
        proof {
            if chunk_size < before.len() {
                assert(cur@ == before.subrange(0, c));
                assert(chunks_of(before, c) == seq![cur@] + chunks_of(rest@, c));
            } else {
                assert(cur@ =~= before);
                assert(rest@ =~= Seq::<T>::empty());
                assert(chunks_of(rest@, c) =~= Seq::<Seq<T>>::empty());
                assert(chunks_of(before, c) =~= seq![cur@] + chunks_of(rest@, c));
            }
        }
        groups.push(cur);
        proof {
            assert(seq_of_vecs(groups@) =~= seq_of_vecs(gprev).push(groups@.last()@));
            assert(seq_of_vecs(gprev).push(groups@.last()@) + chunks_of(rest@, c) =~= seq_of_vecs(
                gprev,
            ) + (seq![groups@.last()@] + chunks_of(rest@, c)));
        }
    }
    proof {
        assert(chunks_of(rest@, c) =~= Seq::<Seq<T>>::empty());
        assert(seq_of_vecs(groups@) + Seq::<Seq<T>>::empty() =~= seq_of_vecs(groups@));
    }
    groups
}

} // verus!
