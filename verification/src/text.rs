use vstd::prelude::*;
use vstd::string::*;

verus! {

/// The character that stands for the digit `d`.
pub open spec fn digit_char(d: nat) -> char {
    if d == 0 {
        '0'
    } else if d == 1 {
        '1'
    } else if d == 2 {
        '2'
    } else if d == 3 {
        '3'
    } else if d == 4 {
        '4'
    } else if d == 5 {
        '5'
    } else if d == 6 {
        '6'
    } else if d == 7 {
        '7'
    } else if d == 8 {
        '8'
    } else {
        '9'
    }
}

/// The decimal numeral of `n`, without leading zeros.
pub open spec fn decimal(n: nat) -> Seq<char>
    decreases n,
{
    if n < 10 {
        seq![digit_char(n)]
    } else {
        decimal(n / 10).push(digit_char(n % 10))
    }
}

/// A numeral has at least one digit.
pub proof fn lemma_decimal_nonempty(n: nat)
    ensures
        decimal(n).len() > 0,
    decreases n,
{
    if n >= 10 {
        lemma_decimal_nonempty(n / 10);
    }
}

fn digit_str(d: u8) -> (s: &'static str)
    requires
        d < 10,
    ensures
        s@ == seq![digit_char(d as nat)],
{
    proof {
        reveal_strlit("0");
        reveal_strlit("1");
        reveal_strlit("2");
        reveal_strlit("3");
        reveal_strlit("4");
        reveal_strlit("5");
        reveal_strlit("6");
        reveal_strlit("7");
        reveal_strlit("8");
        reveal_strlit("9");
    }
    let s = if d == 0 {
        "0"
    } else if d == 1 {
        "1"
    } else if d == 2 {
        "2"
    } else if d == 3 {
        "3"
    } else if d == 4 {
        "4"
    } else if d == 5 {
        "5"
    } else if d == 6 {
        "6"
    } else if d == 7 {
        "7"
    } else if d == 8 {
        "8"
    } else {
        "9"
    };
    assert(s@ =~= seq![digit_char(d as nat)]);
    s
}

/// Appends the decimal numeral of `n` to `out`.
pub fn push_decimal(out: &mut String, n: u128)
    ensures
        final(out)@ == old(out)@ + decimal(n as nat),
    decreases n,
{
    if n >= 10 {
        push_decimal(out, n / 10);
    }
    let d: u8 = (n % 10) as u8;
    out.append(digit_str(d));
    assert(out@ =~= old(out)@ + decimal(n as nat));
}

/// The text `prev` with one more entry, `count` and `label`, after it: nothing
/// is added for a count of zero, and a comma parts the entry from what is there.
pub open spec fn with_entry(prev: Seq<char>, count: nat, label: Seq<char>) -> Seq<char> {
    if count == 0 {
        prev
    } else if prev.len() == 0 {
        decimal(count) + " "@ + label
    } else {
        prev + ", "@ + decimal(count) + " "@ + label
    }
}

/// Appends the entry for `count` and `label` to `out`, if the count is not zero.
pub fn push_entry(out: &mut String, count: usize, label: &str)
    ensures
        final(out)@ == with_entry(old(out)@, count as nat, label@),
{
    if count > 0 {
        if !out.as_str().is_empty() {
            out.append(", ");
        }
        push_decimal(out, count as u128);
        out.append(" ");
        out.append(label);
        assert(out@ =~= with_entry(old(out)@, count as nat, label@));
    }
}

} // verus!
