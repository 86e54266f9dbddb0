//! Writing integers in decimal.

use vstd::prelude::*;
use vstd::string::*;

verus! {

/// The character of a decimal digit.
pub open spec fn digit_char(d: int) -> char {
    (48 + d) as char
}

/// The decimal digits of a number, without leading zeros.
pub open spec fn decimal(n: nat) -> Seq<char>
    decreases n,
{
    if n < 10 {
        seq![digit_char(n as int)]
    } else {
        decimal(n / 10).push(digit_char((n % 10) as int))
    }
}

/// The decimal digits of a number with a minus sign in front of a negative one.
pub open spec fn signed_decimal(n: int) -> Seq<char> {
    if n < 0 {
        seq!['-'] + decimal((-n) as nat)
    } else {
        decimal(n as nat)
    }
}

/// The last `width` decimal digits of a number, leading zeros kept.
pub open spec fn fixed_decimal(n: nat, width: nat) -> Seq<char>
    decreases width,
{
    if width == 0 {
        Seq::empty()
    } else {
        fixed_decimal(n / 10, (width - 1) as nat).push(digit_char((n % 10) as int))
    }
}

/// The literal that holds one digit.
fn digit_str(d: u8) -> (s: &'static str)
    requires
        d < 10,
    ensures
        s@ == seq![digit_char(d as int)],
{
    proof {
        reveal_strlit("0");
        reveal_strlit("1");
        reveal_strlit("2");
        reveal_strlit("3");
        reveal_strlit("4");
        reveal_strlit("5");
        reveal_strlit("6");
        reveal_strlit("7");
        reveal_strlit("8");
        reveal_strlit("9");
    }
    let s: &'static str = match d {
        0 => "0",
        1 => "1",
        2 => "2",
        3 => "3",
        4 => "4",
        5 => "5",
        6 => "6",
        7 => "7",
        8 => "8",
        _ => "9",
    };
    assert(s@ =~= seq![digit_char(d as int)]);
    s
}

/// Appends the decimal digits of a number.
pub fn push_decimal(out: &mut String, n: u128)
    ensures
        final(out)@ == old(out)@ + decimal(n as nat),
    decreases n,
{
    let ghost before = out@;
    if n >= 10 {
        push_decimal(out, n / 10);
    }
    out.append(digit_str((n % 10) as u8));
    assert(out@ =~= before + decimal(n as nat));
}

/// Appends a number in decimal, with a minus sign where it is negative.
pub fn push_signed(out: &mut String, n: i128)
    ensures
        final(out)@ == old(out)@ + signed_decimal(n as int),
{
    let ghost before = out@;
    if n < 0 {
        proof {
            reveal_strlit("-");
        }
        out.append("-");
        push_decimal(out, magnitude(n));
        assert(out@ =~= before + signed_decimal(n as int));
    } else {
        push_decimal(out, n as u128);
    }
}

/// The distance of a number from zero.
pub fn magnitude(n: i128) -> (m: u128)
    ensures
        m == (if n < 0 {
            -n
        } else {
            n as int
        }),
{
    if n >= 0 {
        n as u128
    } else {
        (-(n + 1)) as u128 + 1
    }
}

/// Appends the last `width` decimal digits of a number.
pub fn push_fixed(out: &mut String, n: u64, width: u8)
    ensures
        final(out)@ == old(out)@ + fixed_decimal(n as nat, width as nat),
    decreases width,
{
    let ghost before = out@;
    if width > 0 {
        push_fixed(out, n / 10, width - 1);
        out.append(digit_str((n % 10) as u8));
    }
    assert(out@ =~= before + fixed_decimal(n as nat, width as nat));
}

/// A number has at least one digit, and padding to a width gives exactly that many.
pub proof fn decimal_lengths(n: nat, width: nat)
    ensures
        decimal(n).len() >= 1,
        fixed_decimal(n, width).len() == width,
    decreases n + width,
{
    if width > 0 {
        decimal_lengths(n / 10, (width - 1) as nat);
    }
}

/// The digits of a fixed width are those of the number itself with zeros in front, as long as it
/// has no more digits than that.
pub proof fn fixed_digits_have_zeros_in_front(n: nat, width: nat)
    requires
        decimal(n).len() <= width,
    ensures
        fixed_decimal(n, width).subrange(width - decimal(n).len(), width as int) == decimal(n),
        forall|i: int|
            0 <= i < width - decimal(n).len() ==> #[trigger] fixed_decimal(n, width)[i] == '0',
    decreases width,
{
    decimal_lengths(n, width);
    let less = (width - 1) as nat;
    let f = fixed_decimal(n, width);
    let k = width - decimal(n).len();
    decimal_lengths(n / 10, less);
    if n >= 10 {
        fixed_digits_have_zeros_in_front(n / 10, less);
        let g = fixed_decimal(n / 10, less);
        assert(less - decimal(n / 10).len() == k);
        assert forall|i: int| k <= i < width implies f[i] == decimal(n)[i - k] by {
            if i < less {
                assert(g[i] == g.subrange(k, less as int)[i - k]);
            }
        }
        assert(f.subrange(k, width as int) =~= decimal(n));
        assert forall|i: int| 0 <= i < k implies #[trigger] f[i] == '0' by {
            assert(f[i] == g[i]);
        }
    } else {
        lemma_fixed_zero(less);
        assert(n / 10 == 0);
        assert(f.subrange(k, width as int) =~= decimal(n));
    }
}

proof fn lemma_fixed_zero(width: nat)
    ensures
        fixed_decimal(0, width).len() == width,
        forall|i: int| 0 <= i < width ==> #[trigger] fixed_decimal(0, width)[i] == '0',
    decreases width,
{
    if width > 0 {
        lemma_fixed_zero((width - 1) as nat);
    }
}

/// A number and its negative are written alike but for the minus sign, and only a negative one
/// has it.
pub proof fn the_sign_is_written_in_front(n: nat)
    requires
        n > 0,
    ensures
        signed_decimal(-(n as int)) == seq!['-'] + decimal(n),
        signed_decimal(n as int) == decimal(n),
{
}

/// A digit is the character that stands so far behind zero.
pub proof fn digits_follow_zero(d: int)
    requires
        0 <= d < 10,
    ensures
        digit_char(d) as int == '0' as int + d,
        '0' <= digit_char(d) && digit_char(d) <= '9',
{
}

} // verus!
