//! Verified decimal rendering of integers, used to build partition paths.

use vstd::prelude::*;

verus! {

/// The decimal digit character for `d` (meaningful for `d < 10`).
pub open spec fn dec_digit(d: nat) -> char {
    if d == 0 {
        '0'
    } else if d == 1 {
        '1'
    } else if d == 2 {
        '2'
    } else if d == 3 {
        '3'
    } else if d == 4 {
        '4'
    } else if d == 5 {
        '5'
    } else if d == 6 {
        '6'
    } else if d == 7 {
        '7'
    } else if d == 8 {
        '8'
    } else {
        '9'
    }
}

/// The decimal representation of `n`, most significant digit first, with no
/// leading zeros (a single `'0'` for zero itself).
pub open spec fn dec_rep(n: nat) -> Seq<char>
    decreases n,
{
    if n < 10 {
        seq![dec_digit(n)]
    } else {
        dec_rep(n / 10).push(dec_digit(n % 10))
    }
}

/// The decimal representation of a signed value: a leading `'-'` for
/// negative values.
pub open spec fn signed_dec_rep(v: int) -> Seq<char> {
    if v < 0 {
        seq!['-'] + dec_rep((-v) as nat)
    } else {
        dec_rep(v as nat)
    }
}

/// The digit characters of `ds` read back to front, so that digits collected
/// least significant first render most significant first.
spec fn digits_chars(ds: Seq<u64>) -> Seq<char> {
    Seq::new(ds.len(), |i: int| dec_digit(ds[ds.len() - 1 - i] as nat))
}

fn push_digit(s: &mut String, d: u64)
    requires
        d < 10,
    ensures
        final(s)@ == old(s)@.push(dec_digit(d as nat)),
{
    proof {
        reveal_strlit("0");
        reveal_strlit("1");
        reveal_strlit("2");
        reveal_strlit("3");
        reveal_strlit("4");
        reveal_strlit("5");
        reveal_strlit("6");
        reveal_strlit("7");
        reveal_strlit("8");
        reveal_strlit("9");
    }
    if d == 0 {
        s.append("0");
    } else if d == 1 {
        s.append("1");
    } else if d == 2 {
        s.append("2");
    } else if d == 3 {
        s.append("3");
    } else if d == 4 {
        s.append("4");
    } else if d == 5 {
        s.append("5");
    } else if d == 6 {
        s.append("6");
    } else if d == 7 {
        s.append("7");
    } else if d == 8 {
        s.append("8");
    } else {
        s.append("9");
    }
    assert(s@ =~= old(s)@.push(dec_digit(d as nat)));
}

/// Renders `n` in decimal, exactly as `dec_rep` describes.
pub fn format_u64(n: u64) -> (s: String)
    ensures
        s@ == dec_rep(n as nat),
{
    let mut digits: Vec<u64> = Vec::new();
    let mut cur: u64 = n;
    loop
        invariant_except_break
            dec_rep(n as nat) =~= dec_rep(cur as nat) + digits_chars(digits@),
        invariant
            forall|j: int| 0 <= j < digits@.len() ==> digits@[j] < 10,
        ensures
            dec_rep(n as nat) =~= digits_chars(digits@),
        decreases cur,
    {
        let d: u64 = cur % 10;
        let next: u64 = cur / 10;
        let ghost pre = digits@;
        digits.push(d);
        proof {
            assert(digits_chars(digits@) =~= seq![dec_digit(d as nat)] + digits_chars(pre));
            if cur >= 10 {
                assert(dec_rep(cur as nat) == dec_rep(next as nat).push(
                    dec_digit((cur % 10) as nat),
                ));
                assert(dec_rep(cur as nat) + digits_chars(pre) =~= dec_rep(next as nat)
                    + digits_chars(digits@));
            } else {
                assert(dec_rep(cur as nat) =~= seq![dec_digit(d as nat)]);
                assert(dec_rep(n as nat) =~= digits_chars(digits@));
            }
        }
        if next == 0 {
            break;
        }
        cur = next;
    }
    let mut s = String::new();
    let mut i: usize = digits.len();
    while i > 0
        invariant
            i <= digits@.len(),
            dec_rep(n as nat) =~= digits_chars(digits@),
            forall|j: int| 0 <= j < digits@.len() ==> digits@[j] < 10,
            s@ =~= digits_chars(digits@).take(digits@.len() - i),
        decreases i,
    {
        push_digit(&mut s, digits[i - 1]);
        i = i - 1;
        assert(s@ =~= digits_chars(digits@).take(digits@.len() - i));
    }
    assert(s@ =~= dec_rep(n as nat));
    s
}

/// Renders `v` in decimal with a sign, exactly as `signed_dec_rep` describes.
pub fn format_i32(v: i32) -> (s: String)
    ensures
        s@ == signed_dec_rep(v as int),
{
    if v >= 0 {
        format_u64(v as u64)
    } else {
        let mut s: String = "-".to_owned();
        let mag: i64 = -(v as i64);
        let rest = format_u64(mag as u64);
        s.append(rest.as_str());
        proof {
            reveal_strlit("-");
            assert(s@ =~= signed_dec_rep(v as int));
        }
        s
    }
}

} // verus!
