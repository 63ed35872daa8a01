use vstd::prelude::*;

verus! {

/// The ASCII digit for `d` (`0 <= d < 10`).
pub open spec fn digit_char(d: int) -> char {
    if d == 0 { '0' }
    else if d == 1 { '1' }
    else if d == 2 { '2' }
    else if d == 3 { '3' }
    else if d == 4 { '4' }
    else if d == 5 { '5' }
    else if d == 6 { '6' }
    else if d == 7 { '7' }
    else if d == 8 { '8' }
    else { '9' }
}

/// The decimal digits of `n`, most significant first, with no leading zeros
/// (`"0"` for zero).
pub open spec fn decimal(n: nat) -> Seq<char>
    decreases n,
{
    if n < 10 {
        seq![digit_char(n as int)]
    } else {
        decimal(n / 10) + seq![digit_char((n % 10) as int)]
    }
}

/// The number that a string of decimal digits stands for, most significant first.
pub open spec fn digits_value(s: Seq<char>) -> int
    decreases s.len(),
{
    if s.len() == 0 {
        0
    } else {
        digits_value(s.drop_last()) * 10 + (s.last() as u32 as int - '0' as u32 as int)
    }
}

/// Every character of `s` is one of `'0'` to `'9'`.
pub open spec fn all_digits(s: Seq<char>) -> bool {
    forall|i: int| 0 <= i < s.len() ==> '0' <= #[trigger] s[i] && s[i] <= '9'
}

/// `s` is the standard decimal form of `n`: digits only, at least one, no
/// leading zero unless `n` is zero itself, and standing for `n`.
pub open spec fn is_decimal_form(s: Seq<char>, n: int) -> bool {
    &&& s.len() >= 1
    &&& all_digits(s)
    &&& (s[0] == '0' ==> n == 0 && s.len() == 1)
    &&& digits_value(s) == n
}

/// `digit_char(d)` is the character whose code is that of `'0'` plus `d`.
pub proof fn lemma_digit_char(d: int)
    requires
        0 <= d < 10,
    ensures
        digit_char(d) as u32 as int == '0' as u32 as int + d,
{
}

/// `decimal(n)` is the standard base-10 form of `n`.
pub proof fn lemma_decimal_form(n: nat)
    ensures
        is_decimal_form(decimal(n), n as int),
    decreases n,
{
    if n < 10 {
        lemma_digit_char(n as int);
        assert(decimal(n).drop_last() =~= Seq::<char>::empty());
        assert(digits_value(decimal(n).drop_last()) == 0);
        assert(digits_value(decimal(n)) == n);
        assert(all_digits(decimal(n)));
    } else {
        lemma_decimal_form(n / 10);
        lemma_digit_char((n % 10) as int);
        let d = decimal(n / 10);
        let c = digit_char((n % 10) as int);
        assert(decimal(n) == d.push(c));
        assert(decimal(n).drop_last() =~= d);
        assert(decimal(n)[0] == d[0]);
        assert(digits_value(decimal(n)) == n);
        assert(all_digits(decimal(n)));
    }
}

/// The one-character string of the digit `d`.
fn digit_str(d: usize) -> (s: &'static str)
    requires
        d < 10,
    ensures
        s@ == seq![digit_char(d as int)],
{
    if d == 0 {
        proof { reveal_strlit("0"); }
        "0"
    } else if d == 1 {
        proof { reveal_strlit("1"); }
        "1"
    } else if d == 2 {
        proof { reveal_strlit("2"); }
        "2"
    } else if d == 3 {
        proof { reveal_strlit("3"); }
        "3"
    } else if d == 4 {
        proof { reveal_strlit("4"); }
        "4"
    } else if d == 5 {
        proof { reveal_strlit("5"); }
        "5"
    } else if d == 6 {
        proof { reveal_strlit("6"); }
        "6"
    } else if d == 7 {
        proof { reveal_strlit("7"); }
        "7"
    } else if d == 8 {
        proof { reveal_strlit("8"); }
        "8"
    } else {
        proof { reveal_strlit("9"); }
        "9"
    }
}

/// Appends the decimal digits of `n` to `s`.
pub fn push_decimal(s: &mut String, n: usize)
    ensures
        final(s)@ == old(s)@ + decimal(n as nat),
        final(s)@.len() > old(s)@.len(),
        final(s)@.subrange(0, old(s)@.len() as int) == old(s)@,
        is_decimal_form(final(s)@.skip(old(s)@.len() as int), n as int),
    decreases n,
{
    let ghost start = s@;
    if n >= 10 {
        push_decimal(s, n / 10);
    }
    let ghost mid = s@;
    s.append(digit_str(n % 10));
    assert(s@ =~= old(s)@ + decimal(n as nat)) by {
        if n >= 10 {
            assert(decimal(n as nat) == decimal((n / 10) as nat) + seq![digit_char((n % 10) as int)]);
        }
    }
    assert(s@.subrange(0, start.len() as int) =~= start);
    let ghost tail = s@.skip(start.len() as int);
    proof {
        lemma_digit_char((n % 10) as int);
        if n >= 10 {
            let prev = mid.skip(start.len() as int);
            assert(tail =~= prev.push(digit_char((n % 10) as int)));
            assert(tail.drop_last() =~= prev);
            assert(tail[0] == prev[0]);
            assert(digits_value(tail) == n);
        } else {
            assert(tail =~= seq![digit_char(n as int)]);
            assert(tail.drop_last() =~= Seq::<char>::empty());
            assert(digits_value(tail.drop_last()) == 0);
            assert(digits_value(tail) == n);
        }
    }
}

} // verus!
