use vstd::prelude::*;
use vstd::string::*;

verus! {

/// The character of the decimal digit `d`.
pub open spec fn digit_char(d: int) -> char {
    if d == 0 {
        '0'
    } else if d == 1 {
        '1'
    } else if d == 2 {
        '2'
    } else if d == 3 {
        '3'
    } else if d == 4 {
        '4'
    } else if d == 5 {
        '5'
    } else if d == 6 {
        '6'
    } else if d == 7 {
        '7'
    } else if d == 8 {
        '8'
    } else {
        '9'
    }
}

/// The decimal digits of `n`, most significant first, without leading
/// zeros (zero is "0").
pub open spec fn decimal(n: nat) -> Seq<char>
    decreases n,
{
    if n < 10 {
        seq![digit_char(n as int)]
    } else {
        decimal(n / 10).push(digit_char((n % 10) as int))
    }
}

/// The decimal text of the signed integer `i`: a minus sign before the
/// digits of its magnitude when it is negative.
pub open spec fn signed_decimal(i: int) -> Seq<char> {
    if i < 0 {
        seq!['-'] + decimal((-i) as nat)
    } else {
        decimal(i as nat)
    }
}

/// `s` preceded by as many spaces as make it `width` characters long.
pub open spec fn pad_left(s: Seq<char>, width: nat) -> Seq<char> {
    if s.len() < width {
        Seq::new((width - s.len()) as nat, |i: int| ' ') + s
    } else {
        s
    }
}

/// `s` followed by as many spaces as make it `width` characters long.
pub open spec fn pad_right(s: Seq<char>, width: nat) -> Seq<char> {
    if s.len() < width {
        s + Seq::new((width - s.len()) as nat, |i: int| ' ')
    } else {
        s
    }
}

/// The text of a single decimal digit.
fn digit_str(d: u64) -> (r: &'static str)
    requires
        d < 10,
    ensures
        r@ == seq![digit_char(d as int)],
{
    if d == 0 {
        proof {
            reveal_strlit("0");
        }
        "0"
    } else if d == 1 {
        proof {
            reveal_strlit("1");
        }
        "1"
    } else if d == 2 {
        proof {
            reveal_strlit("2");
        }
        "2"
    } else if d == 3 {
        proof {
            reveal_strlit("3");
        }
        "3"
    } else if d == 4 {
        proof {
            reveal_strlit("4");
        }
        "4"
    } else if d == 5 {
        proof {
            reveal_strlit("5");
        }
        "5"
    } else if d == 6 {
        proof {
            reveal_strlit("6");
        }
        "6"
    } else if d == 7 {
        proof {
            reveal_strlit("7");
        }
        "7"
    } else if d == 8 {
        proof {
            reveal_strlit("8");
        }
        "8"
    } else {
        proof {
            reveal_strlit("9");
        }
        "9"
    }
}

/// Appends the decimal digits of `n` to `s`.
pub fn push_decimal(s: &mut String, n: u64)
    ensures
        final(s)@ == old(s)@ + decimal(n as nat),
{
    push_wide_decimal(s, n as u128);
}

/// Appends the decimal digits of the wide integer `n` to `s`.
pub fn push_wide_decimal(s: &mut String, n: u128)
    ensures
        final(s)@ == old(s)@ + decimal(n as nat),
    decreases n,
{
    if n >= 10 {
        push_wide_decimal(s, n / 10);
    }
    s.append(digit_str((n % 10) as u64));
    proof {
        if n >= 10 {
            assert(s@ =~= old(s)@ + decimal(n as nat));
        } else {
            assert(s@ =~= old(s)@ + decimal(n as nat));
        }
    }
}

/// Appends the decimal text of `i` to `s`.
pub fn push_signed_decimal(s: &mut String, i: i64)
    ensures
        final(s)@ == old(s)@ + signed_decimal(i as int),
{
    if i < 0 {
        proof {
            reveal_strlit("-");
        }
        s.append("-");
        let magnitude: u64 = (-(i as i128)) as u64;
        push_decimal(s, magnitude);
        assert(s@ =~= old(s)@ + signed_decimal(i as int));
    } else {
        push_decimal(s, i as u64);
    }
}

/// Appends `count` spaces to `s`.
pub fn push_spaces(s: &mut String, count: usize)
    ensures
        final(s)@ == old(s)@ + Seq::new(count as nat, |i: int| ' '),
{
    let mut k: usize = 0;
    proof {
        reveal_strlit(" ");
    }
    while k < count
        invariant
            k <= count,
            s@ == old(s)@ + Seq::new(k as nat, |i: int| ' '),
            " "@ == seq![' '],
        decreases count - k,
    {
        s.append(" ");
        k = k + 1;
        assert(s@ =~= old(s)@ + Seq::new(k as nat, |i: int| ' '));
    }
}

/// The three decimal digits of `r`, which is below a thousand, with
/// leading zeros.
pub open spec fn three_digits(r: int) -> Seq<char> {
    seq![digit_char(r / 100), digit_char((r / 10) % 10), digit_char(r % 10)]
}

/// A non-negative count of microseconds as milliseconds with three
/// decimals.
pub open spec fn unsigned_ms(m: nat) -> Seq<char> {
    decimal(m / 1000) + seq!['.'] + three_digits((m % 1000) as int)
}

/// A count of microseconds as milliseconds with three decimals, signed
/// when negative and right-aligned in eight characters.
pub open spec fn ms_text(m: int) -> Seq<char> {
    pad_left(
        if m < 0 {
            seq!['-'] + unsigned_ms((-m) as nat)
        } else {
            unsigned_ms(m as nat)
        },
        8,
    )
}

/// A labelled time measurement as the status line shows it: the value in
/// milliseconds, or blanks when there is none.
pub open spec fn time_field_text(name: Seq<char>, micros: Option<int>) -> Seq<char> {
    seq![' ', ' '] + name + seq![':', '['] + match micros {
        Some(m) => ms_text(m) + seq![' ', 'm', 's', ']'],
        None => Seq::new(8, |i: int| ' ') + seq!['m', 's', ']'],
    }
}

/// Appends the three decimal digits of `r`, which is below a thousand.
fn push_three_digits(s: &mut String, r: u128)
    requires
        r < 1000,
    ensures
        final(s)@ == old(s)@ + three_digits(r as int),
{
    s.append(digit_str((r / 100) as u64));
    s.append(digit_str(((r / 10) % 10) as u64));
    s.append(digit_str((r % 10) as u64));
    assert(s@ =~= old(s)@ + three_digits(r as int));
}

/// Appends `micros` as milliseconds with three decimals, right-aligned in
/// eight characters.
pub fn push_ms(s: &mut String, micros: i128)
    requires
        micros > i128::MIN,
    ensures
        final(s)@ == old(s)@ + ms_text(micros as int),
{
    let negative = micros < 0;
    let magnitude: u128 = if negative { (-micros) as u128 } else { micros as u128 };
    let mut body = String::new();
    if negative {
        proof {
            reveal_strlit("-");
        }
        body.append("-");
    }
    push_wide_decimal(&mut body, magnitude / 1000);
    proof {
        reveal_strlit(".");
    }
    body.append(".");
    push_three_digits(&mut body, magnitude % 1000);
    let ghost text = if micros < 0 {
        seq!['-'] + unsigned_ms((-micros) as nat)
    } else {
        unsigned_ms(micros as nat)
    };
    assert(body@ =~= text);
    let len = body.unicode_len();
    if len < 8 {
        push_spaces(s, 8 - len);
    }
    s.append(body.as_str());
    assert(s@ =~= old(s)@ + ms_text(micros as int));
}

/// Appends the labelled time measurement `micros` as the status line shows
/// it.
pub fn push_time_field(s: &mut String, name: &str, micros: Option<i128>)
    requires
        micros matches Some(m) ==> m > i128::MIN,
    ensures
        final(s)@ == old(s)@ + time_field_text(
            name@,
            match micros {
                Some(m) => Some(m as int),
                None => None,
            },
        ),
{
    proof {
        reveal_strlit("  ");
        reveal_strlit(":[");
        reveal_strlit(" ms]");
        reveal_strlit("ms]");
    }
    s.append("  ");
    s.append(name);
    s.append(":[");
    match micros {
        Some(m) => {
            push_ms(s, m);
            s.append(" ms]");
        },
        None => {
            push_spaces(s, 8);
            s.append("ms]");
        },
    }
    assert(s@ =~= old(s)@ + time_field_text(
        name@,
        match micros {
            Some(m) => Some(m as int),
            None => None,
        },
    ));
}

} // verus!
