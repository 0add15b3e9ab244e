//! Text order, and how runs of decimal digits sort as text.
use vstd::prelude::*;
use crate::decimal::{all_digits, digits_value, is_digit};

verus! {

/// Text order: `a` sorts before `b` comparing character by character by code
/// point, a proper prefix first (the order of their UTF-8 bytes).
pub open spec fn lex_less(a: Seq<char>, b: Seq<char>) -> bool
    decreases a.len(),
{
    if b.len() == 0 {
        false
    } else if a.len() == 0 {
        true
    } else if a[0] != b[0] {
        a[0] < b[0]
    } else {
        lex_less(a.drop_first(), b.drop_first())
    }
}

/// No text sorts before itself.
pub proof fn lemma_lex_irreflexive(a: Seq<char>)
    ensures
        !lex_less(a, a),
    decreases a.len(),
{
    if a.len() > 0 {
        lemma_lex_irreflexive(a.drop_first());
    }
}

/// Texts that begin with pieces of equal length sort by those pieces first,
/// and by what follows only where the pieces agree.
pub proof fn lemma_lex_concat(p1: Seq<char>, q1: Seq<char>, p2: Seq<char>, q2: Seq<char>)
    requires
        p1.len() == p2.len(),
    ensures
        lex_less(p1 + q1, p2 + q2) == (lex_less(p1, p2) || (p1 == p2 && lex_less(q1, q2))),
    decreases p1.len(),
{
    if p1.len() == 0 {
        assert(p1 + q1 =~= q1);
        assert(p2 + q2 =~= q2);
        assert(p1 =~= p2);
    } else {
        let a = p1 + q1;
        let b = p2 + q2;
        assert(a[0] == p1[0]);
        assert(b[0] == p2[0]);
        assert(a.drop_first() =~= p1.drop_first() + q1);
        assert(b.drop_first() =~= p2.drop_first() + q2);
        lemma_lex_concat(p1.drop_first(), q1, p2.drop_first(), q2);
        if p1[0] == p2[0] {
            if p1.drop_first() =~= p2.drop_first() {
                assert forall|i: int| 0 <= i < p1.len() implies p1[i] == p2[i] by {
                    if i > 0 {
                        assert(p1[i] == p1.drop_first()[i - 1]);
                        assert(p2[i] == p2.drop_first()[i - 1]);
                    }
                }
                assert(p1 =~= p2);
            }
        }
    }
}

proof fn lemma_digits_value_nonneg(s: Seq<char>)
    requires
        all_digits(s),
    ensures
        0 <= digits_value(s),
    decreases s.len(),
{
    if s.len() > 0 {
        let s1 = s.drop_last();
        assert forall|i: int| 0 <= i < s1.len() implies is_digit(#[trigger] s1[i]) by {
            assert(s1[i] == s[i]);
        }
        lemma_digits_value_nonneg(s1);
        assert(is_digit(s[s.len() - 1]));
    }
}

/// Digit runs of one length sort as text exactly as their values sort, and
/// are equal exactly when their values are.
pub proof fn lemma_digits_order(s: Seq<char>, t: Seq<char>)
    requires
        s.len() == t.len(),
        all_digits(s),
        all_digits(t),
    ensures
        lex_less(s, t) <==> digits_value(s) < digits_value(t),
        s == t <==> digits_value(s) == digits_value(t),
    decreases s.len(),
{
    if s.len() == 0 {
        assert(s =~= t);
        lemma_lex_irreflexive(s);
    } else {
        let s1 = s.drop_last();
        let t1 = t.drop_last();
        let c = s.last();
        let d = t.last();
        assert forall|i: int| 0 <= i < s1.len() implies is_digit(#[trigger] s1[i]) by {
            assert(s1[i] == s[i]);
        }
        assert forall|i: int| 0 <= i < t1.len() implies is_digit(#[trigger] t1[i]) by {
            assert(t1[i] == t[i]);
        }
        assert(is_digit(s[s.len() - 1]));
        assert(is_digit(t[t.len() - 1]));
        lemma_digits_order(s1, t1);
        assert(s =~= s1 + seq![c]);
        assert(t =~= t1 + seq![d]);
        lemma_lex_concat(s1, seq![c], t1, seq![d]);
        assert(lex_less(seq![c], seq![d]) == (c < d)) by {
            reveal_with_fuel(lex_less, 2);
            assert(seq![c].drop_first() =~= Seq::<char>::empty());
            assert(seq![d].drop_first() =~= Seq::<char>::empty());
        }
        if s1 == t1 && c == d {
            assert(s =~= t);
        }
        if s == t {
            assert(s1 =~= t1);
        }
    }
}

/// Cutting two equal-length texts at the same place: from `lo` on they sort by
/// their pieces `lo..k` first, and by the rest only where those pieces agree.
pub proof fn lemma_lex_split(a: Seq<char>, b: Seq<char>, lo: int, k: int)
    requires
        a.len() == b.len(),
        0 <= lo <= k <= a.len(),
    ensures
        lex_less(a.subrange(lo, a.len() as int), b.subrange(lo, b.len() as int)) == (lex_less(
            a.subrange(lo, k),
            b.subrange(lo, k),
        ) || (a.subrange(lo, k) == b.subrange(lo, k) && lex_less(
            a.subrange(k, a.len() as int),
            b.subrange(k, b.len() as int),
        ))),
{
    assert(a.subrange(lo, a.len() as int) =~= a.subrange(lo, k) + a.subrange(k, a.len() as int));
    assert(b.subrange(lo, b.len() as int) =~= b.subrange(lo, k) + b.subrange(k, b.len() as int));
    lemma_lex_concat(
        a.subrange(lo, k),
        a.subrange(k, a.len() as int),
        b.subrange(lo, k),
        b.subrange(k, b.len() as int),
    );
}

} // verus!
