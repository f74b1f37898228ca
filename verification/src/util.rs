//! Small verified helpers: pushing onto vectors at the deep-view level, and
//! decimal rendering of numbers for response attributes.

use vstd::prelude::*;

verus! {

/// Pushes `x` onto `v`, tracked at the deep-view level.
pub fn push_dv<T: DeepView>(v: &mut Vec<T>, x: T)
    ensures
        final(v).deep_view() == old(v).deep_view().push(x.deep_view()),
        final(v)@.len() == old(v)@.len() + 1,
{
    let ghost v0 = v@;
    let ghost dv0 = v.deep_view();
    let ghost xg = x;
    v.push(x);
    proof {
        assert(v@ == v0.push(xg));
        assert forall|j: int| 0 <= j < v@.len() implies v.deep_view()[j] == dv0.push(
            xg.deep_view(),
        )[j] by {
            if j < v0.len() {
                assert(v@[j] == v0[j]);
                assert(dv0[j] == v0[j].deep_view());
            } else {
                assert(v@[j] == xg);
            }
        }
        assert(v.deep_view() =~= dv0.push(xg.deep_view()));
    }
}

/// The deep view of a sequence of viewable values.
pub open spec fn seq_dv<T: DeepView>(s: Seq<T>) -> Seq<T::V> {
    Seq::new(s.len(), |i: int| s[i].deep_view())
}

pub proof fn lemma_seq_dv_update<T: DeepView>(s: Seq<T>, i: int, x: T)
    requires
        0 <= i < s.len(),
    ensures
        seq_dv(s.update(i, x)) == seq_dv(s).update(i, x.deep_view()),
{
    assert(seq_dv(s.update(i, x)) =~= seq_dv(s).update(i, x.deep_view()));
}

pub proof fn lemma_seq_dv_insert<T: DeepView>(s: Seq<T>, i: int, x: T)
    requires
        0 <= i <= s.len(),
    ensures
        seq_dv(s.insert(i, x)) == seq_dv(s).insert(i, x.deep_view()),
{
    s.insert_ensures(i, x);
    seq_dv(s).insert_ensures(i, x.deep_view());
    assert forall|j: int| 0 <= j < s.len() + 1 implies seq_dv(s.insert(i, x))[j] == seq_dv(
        s,
    ).insert(i, x.deep_view())[j] by {
        if j < i {
        } else if j == i {
        } else {
            assert(s.insert(i, x)[j] == s[j - 1]);
            assert(seq_dv(s).insert(i, x.deep_view())[j] == seq_dv(s)[j - 1]);
        }
    }
    assert(seq_dv(s.insert(i, x)) =~= seq_dv(s).insert(i, x.deep_view()));
}

pub proof fn lemma_seq_dv_remove<T: DeepView>(s: Seq<T>, i: int)
    requires
        0 <= i < s.len(),
    ensures
        seq_dv(s.remove(i)) == seq_dv(s).remove(i),
{
    s.remove_ensures(i);
    seq_dv(s).remove_ensures(i);
    assert forall|j: int| 0 <= j < s.len() - 1 implies seq_dv(s.remove(i))[j] == seq_dv(s).remove(
        i,
    )[j] by {
        if j < i {
        } else {
            assert(s.remove(i)[j] == s[j + 1]);
            assert(seq_dv(s).remove(i)[j] == seq_dv(s)[j + 1]);
        }
    }
    assert(seq_dv(s.remove(i)) =~= seq_dv(s).remove(i));
}

/// The decimal digit character for a value below ten.
pub open spec fn dec_char_of(d: int) -> char {
    ((48 + d) as u8) as char
}

/// The decimal representation of a non-negative number, most significant
/// digit first.
pub open spec fn dec_chars(n: int) -> Seq<char>
    recommends
        n >= 0,
    decreases n,
{
    if n < 10 {
        seq![dec_char_of(n)]
    } else {
        dec_chars(n / 10).push(dec_char_of(n % 10))
    }
}

fn dec_digit_str(d: u64) -> (r: &'static str)
    requires
        d < 10,
    ensures
        r@ == seq![dec_char_of(d as int)],
{
    proof {
        reveal_strlit("0");
        reveal_strlit("1");
        reveal_strlit("2");
        reveal_strlit("3");
        reveal_strlit("4");
        reveal_strlit("5");
        reveal_strlit("6");
        reveal_strlit("7");
        reveal_strlit("8");
        reveal_strlit("9");
    }
    match d {
        0 => "0",
        1 => "1",
        2 => "2",
        3 => "3",
        4 => "4",
        5 => "5",
        6 => "6",
        7 => "7",
        8 => "8",
        _ => {
            proof {
                assert(d == 9);
            }
            "9"
        },
    }
}

fn push_dec(s: &mut String, n: u64)
    ensures
        final(s)@ == old(s)@ + dec_chars(n as int),
    decreases n,
{
    if n < 10 {
        s.append(dec_digit_str(n));
        proof {
            assert(s@ =~= old(s)@ + dec_chars(n as int));
        }
    } else {
        push_dec(s, n / 10);
        s.append(dec_digit_str(n % 10));
        proof {
            assert(s@ =~= old(s)@ + dec_chars(n as int));
        }
    }
}

/// Renders `n` in decimal.
pub fn u64_to_string(n: u64) -> (r: String)
    ensures
        r@ == dec_chars(n as int),
{
    let mut s = String::new();
    push_dec(&mut s, n);
    proof {
        assert(s@ =~= dec_chars(n as int));
    }
    s
}

} // verus!
