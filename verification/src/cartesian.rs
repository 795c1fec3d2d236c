use vstd::arithmetic::div_mod::{
    lemma_fundamental_div_mod, lemma_fundamental_div_mod_converse, lemma_mod_bound,
};
use vstd::prelude::*;

verus! {

/// Each tuple of `ts`, with `x` prepended.
pub open spec fn prepend_each<T>(x: T, ts: Seq<Seq<T>>) -> Seq<Seq<T>>
    decreases ts.len(),
{
    if ts.len() == 0 {
        Seq::empty()
    } else {
        seq![seq![x] + ts[0]] + prepend_each(x, ts.drop_first())
    }
}

/// All tuples of `ts` prepended with each element of `xs` in turn, grouped by
/// the element of `xs`: the lexicographic step of the cartesian product.
pub open spec fn prepend_all<T>(xs: Seq<T>, ts: Seq<Seq<T>>) -> Seq<Seq<T>>
    decreases xs.len(),
{
    if xs.len() == 0 {
        Seq::empty()
    } else {
        prepend_each(xs[0], ts) + prepend_all(xs.drop_first(), ts)
    }
}

/// The number of tuples in the cartesian product of `ls`.
pub open spec fn product_count<T>(ls: Seq<Seq<T>>) -> int
    decreases ls.len(),
{
    if ls.len() == 0 {
        1
    } else {
        ls[0].len() * product_count(ls.drop_first())
    }
}

/// The cartesian product of the lists `ls`, in lexicographic order with the
/// first list varying slowest.
pub open spec fn cartesian<T>(ls: Seq<Seq<T>>) -> Seq<Seq<T>>
    decreases ls.len(),
{
    if ls.len() == 0 {
        seq![Seq::empty()]
    } else {
        prepend_all(ls[0], cartesian(ls.drop_first()))
    }
}

pub proof fn lemma_prepend_each<T>(x: T, ts: Seq<Seq<T>>)
    ensures
        prepend_each(x, ts).len() == ts.len(),
        forall|k: int| 0 <= k < ts.len() ==> prepend_each(x, ts)[k] == seq![x] + ts[k],
    decreases ts.len(),
{
    if ts.len() > 0 {
        lemma_prepend_each(x, ts.drop_first());
    }
}

pub proof fn lemma_prepend_all<T>(xs: Seq<T>, ts: Seq<Seq<T>>)
    requires
        ts.len() > 0,
    ensures
        prepend_all(xs, ts).len() == xs.len() * ts.len(),
        forall|n: int|
            0 <= n < xs.len() * ts.len() ==> prepend_all(xs, ts)[n] == seq![xs[n / ts.len() as int]]
                + ts[n % ts.len() as int],
    decreases xs.len(),
{
    let l = ts.len() as int;
    if xs.len() == 0 {
    } else {
        lemma_prepend_each(xs[0], ts);
        lemma_prepend_all(xs.drop_first(), ts);
        assert(prepend_all(xs, ts).len() == xs.len() * l) by (nonlinear_arith)
            requires
                prepend_all(xs, ts).len() == l + (xs.len() - 1) * l,
        ;
        assert forall|n: int| 0 <= n < xs.len() * l implies prepend_all(xs, ts)[n] == seq![
            xs[n / l],
        ] + ts[n % l] by {
            if n < l {
                lemma_fundamental_div_mod_converse(n, l, 0, n);
            } else {
                let m = n - l;
                assert(0 <= m < (xs.len() - 1) * l) by (nonlinear_arith)
                    requires
                        l <= n < xs.len() * l && m == n - l,
                ;
                assert(prepend_all(xs, ts)[n] == prepend_all(xs.drop_first(), ts)[m]);
                assert(prepend_all(xs.drop_first(), ts)[m] == seq![xs.drop_first()[m / l]] + ts[m
                    % l]);
                lemma_fundamental_div_mod(m, l);
                lemma_mod_bound(m, l);
                let q = m / l;
                let r = m % l;
                assert(n == (q + 1) * l + r) by {
                    assert(m == l * q + r);
                    assert((q + 1) * l == l * q + l) by (nonlinear_arith);
                };
                lemma_fundamental_div_mod_converse(n, l, q + 1, r);
                assert(0 <= q < xs.len() - 1) by (nonlinear_arith)
                    requires
                        m == l * q + r && 0 <= r < l && 0 <= m < (xs.len() - 1) * l,
                ;
                assert(xs.drop_first()[m / l] == xs[n / l]);
            }
        }
    }
}

pub proof fn lemma_prepend_each_snoc<T>(x: T, ts: Seq<Seq<T>>, t: Seq<T>)
    ensures
        prepend_each(x, ts.push(t)) == prepend_each(x, ts) + seq![seq![x] + t],
    decreases ts.len(),
{
    if ts.len() == 0 {
        assert(ts.push(t)[0] == t);
        assert(ts.push(t).drop_first() =~= Seq::<Seq<T>>::empty());
        assert(prepend_each(x, Seq::<Seq<T>>::empty()) =~= Seq::<Seq<T>>::empty());
        assert(prepend_each(x, ts.push(t)) =~= prepend_each(x, ts) + seq![seq![x] + t]);
    } else {
        assert(ts.push(t).drop_first() =~= ts.drop_first().push(t));
        lemma_prepend_each_snoc(x, ts.drop_first(), t);
        assert(prepend_each(x, ts.push(t)) =~= prepend_each(x, ts) + seq![seq![x] + t]);
    }
}

pub proof fn lemma_prepend_all_snoc<T>(xs: Seq<T>, x: T, ts: Seq<Seq<T>>)
    ensures
        prepend_all(xs.push(x), ts) == prepend_all(xs, ts) + prepend_each(x, ts),
    decreases xs.len(),
{
    if xs.len() == 0 {
        assert(xs.push(x)[0] == x);
        assert(xs.push(x).drop_first() =~= Seq::<T>::empty());
        assert(prepend_all(Seq::<T>::empty(), ts) =~= Seq::<Seq<T>>::empty());
        assert(prepend_all(xs.push(x), ts) =~= prepend_all(xs, ts) + prepend_each(x, ts));
    } else {
        assert(xs.push(x).drop_first() =~= xs.drop_first().push(x));
        lemma_prepend_all_snoc(xs.drop_first(), x, ts);
        assert(prepend_all(xs.push(x), ts) =~= prepend_all(xs, ts) + prepend_each(x, ts));
    }
}

/// The cartesian product has exactly one tuple per combination.
pub proof fn lemma_cartesian_len<T>(ls: Seq<Seq<T>>)
    ensures
        cartesian(ls).len() == product_count(ls),
        product_count(ls) >= 0,
    decreases ls.len(),
{
    if ls.len() == 0 {
    } else {
        lemma_cartesian_len(ls.drop_first());
        let w = product_count(ls.drop_first());
        if w == 0 {
            lemma_prepend_all_empty(ls[0], cartesian(ls.drop_first()));
            assert(ls[0].len() * w == 0) by (nonlinear_arith)
                requires
                    w == 0,
            ;
        } else {
            lemma_prepend_all(ls[0], cartesian(ls.drop_first()));
            assert(ls[0].len() * w >= 0) by (nonlinear_arith)
                requires
                    ls[0].len() >= 0 && w > 0,
            ;
        }
    }
}

pub proof fn lemma_prepend_all_empty<T>(xs: Seq<T>, ts: Seq<Seq<T>>)
    requires
        ts.len() == 0,
    ensures
        prepend_all(xs, ts).len() == 0,
    decreases xs.len(),
{
    if xs.len() > 0 {
        lemma_prepend_all_empty(xs.drop_first(), ts);
    }
}

/// Tuple `n` of the product starts with element `n / w` of the first list,
/// where `w` counts the tuples of the remaining lists, and continues with
/// tuple `n % w` of the product of the remaining lists: lexicographic order,
/// first list slowest.
pub proof fn lemma_cartesian_index<T>(ls: Seq<Seq<T>>, n: int)
    requires
        ls.len() > 0,
        0 <= n < cartesian(ls).len(),
    ensures
        product_count(ls.drop_first()) > 0,
        cartesian(ls)[n] == seq![ls[0][n / product_count(ls.drop_first())]] + cartesian(
            ls.drop_first(),
        )[n % product_count(ls.drop_first())],
{
    lemma_cartesian_len(ls);
    lemma_cartesian_len(ls.drop_first());
    let w = product_count(ls.drop_first());
    if w == 0 {
        lemma_prepend_all_empty(ls[0], cartesian(ls.drop_first()));
    } else {
        lemma_prepend_all(ls[0], cartesian(ls.drop_first()));
        assert(n < ls[0].len() * cartesian(ls.drop_first()).len());
    }
}

} // verus!
