use vstd::prelude::*;
use vstd::string::*;

verus! {

/// The decimal digit for `d` (below ten).
pub open spec fn digit(d: nat) -> char {
    if d == 0 {
        '0'
    } else if d == 1 {
        '1'
    } else if d == 2 {
        '2'
    } else if d == 3 {
        '3'
    } else if d == 4 {
        '4'
    } else if d == 5 {
        '5'
    } else if d == 6 {
        '6'
    } else if d == 7 {
        '7'
    } else if d == 8 {
        '8'
    } else {
        '9'
    }
}

/// The decimal digits of `n`, most significant first, without leading zeros.
pub open spec fn decimal(n: nat) -> Seq<char>
    decreases n,
{
    if n < 10 {
        seq![digit(n)]
    } else {
        decimal(n / 10) + seq![digit(n % 10)]
    }
}

/// The decimal digits of `n`, with a comma between each group of three
/// counted from the right.
pub open spec fn grouped(n: nat) -> Seq<char>
    decreases n,
{
    if n < 1000 {
        decimal(n)
    } else {
        grouped(n / 1000) + seq![
            ',',
            digit(n % 1000 / 100),
            digit(n % 100 / 10),
            digit(n % 10),
        ]
    }
}

/// An amount of hundredths as money text: a minus sign when negative, the
/// whole units grouped by thousands, a point and the two digits of the
/// hundredths.
pub open spec fn money_text(cents: int) -> Seq<char> {
    let m = if cents < 0 {
        -cents
    } else {
        cents
    };
    (if cents < 0 {
        seq!['-']
    } else {
        Seq::<char>::empty()
    }) + grouped((m / 100) as nat) + seq!['.', digit((m % 100 / 10) as nat), digit((m % 10) as nat)]
}

/// Appends the digit for `d` to `s`.
fn push_digit(s: &mut String, d: u64)
    requires
        d < 10,
    ensures
        final(s)@ == old(s)@.push(digit(d as nat)),
{
    let t = if d == 0 {
        "0"
    } else if d == 1 {
        "1"
    } else if d == 2 {
        "2"
    } else if d == 3 {
        "3"
    } else if d == 4 {
        "4"
    } else if d == 5 {
        "5"
    } else if d == 6 {
        "6"
    } else if d == 7 {
        "7"
    } else if d == 8 {
        "8"
    } else {
        "9"
    };
    proof {
        reveal_strlit("0");
        reveal_strlit("1");
        reveal_strlit("2");
        reveal_strlit("3");
        reveal_strlit("4");
        reveal_strlit("5");
        reveal_strlit("6");
        reveal_strlit("7");
        reveal_strlit("8");
        reveal_strlit("9");
        assert(t@ =~= seq![digit(d as nat)]);
    }
    s.append(t);
}

/// Appends the decimal digits of `n` to `s`.
fn push_decimal(s: &mut String, n: u64)
    ensures
        final(s)@ == old(s)@ + decimal(n as nat),
    decreases n,
{
    if n >= 10 {
        push_decimal(s, n / 10);
    }
    push_digit(s, n % 10);
    assert(final(s)@ =~= old(s)@ + decimal(n as nat));
}

/// Appends the digits of `n`, grouped by thousands, to `s`.
fn push_grouped(s: &mut String, n: u64)
    ensures
        final(s)@ == old(s)@ + grouped(n as nat),
    decreases n,
{
    if n < 1000 {
        push_decimal(s, n);
    } else {
        push_grouped(s, n / 1000);
        proof {
            reveal_strlit(",");
        }
        s.append(",");
        push_digit(s, n % 1000 / 100);
        push_digit(s, n % 100 / 10);
        push_digit(s, n % 10);
        assert(final(s)@ =~= old(s)@ + grouped(n as nat));
    }
}

/// Formats an amount given in hundredths of the currency unit, such as
/// `-1234567` as `-12,345.67`.
pub fn format_money(cents: i64) -> (r: String)
    ensures
        r@ == money_text(cents as int),
{
    let w = cents as i128;
    let m: u64 = if w < 0 {
        (-w) as u64
    } else {
        w as u64
    };
    let mut s = String::new();
    if cents < 0 {
        proof {
            reveal_strlit("-");
        }
        s.append("-");
    }
    push_grouped(&mut s, m / 100);
    proof {
        reveal_strlit(".");
    }
    s.append(".");
    push_digit(&mut s, m % 100 / 10);
    push_digit(&mut s, m % 10);
    assert(s@ =~= money_text(cents as int));
    s
}

} // verus!
