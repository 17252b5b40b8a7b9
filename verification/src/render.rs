use vstd::prelude::*;
use vstd::string::StringExecFns;

verus! {

// Decimal rendering of the record cells, verified down to the characters.

/// The character of one decimal digit.
pub open spec fn digit_char(d: nat) -> char {
    if d == 0 {
        '0'
    } else if d == 1 {
        '1'
    } else if d == 2 {
        '2'
    } else if d == 3 {
        '3'
    } else if d == 4 {
        '4'
    } else if d == 5 {
        '5'
    } else if d == 6 {
        '6'
    } else if d == 7 {
        '7'
    } else if d == 8 {
        '8'
    } else {
        '9'
    }
}

/// The decimal digits of `v`, most significant first; a single zero for
/// zero, no leading zeros otherwise.
pub open spec fn dec_str(v: nat) -> Seq<char>
    decreases v,
{
    if v < 10 {
        seq![digit_char(v)]
    } else {
        dec_str(v / 10).push(digit_char(v % 10))
    }
}

/// One digit as a string slice.
fn digit_str(d: u64) -> (r: &'static str)
    requires
        d < 10,
    ensures
        r@ == seq![digit_char(d as nat)],
{
    proof {
        reveal_strlit("0");
        reveal_strlit("1");
        reveal_strlit("2");
        reveal_strlit("3");
        reveal_strlit("4");
        reveal_strlit("5");
        reveal_strlit("6");
        reveal_strlit("7");
        reveal_strlit("8");
        reveal_strlit("9");
    }
    let r = match d {
        0 => "0",
        1 => "1",
        2 => "2",
        3 => "3",
        4 => "4",
        5 => "5",
        6 => "6",
        7 => "7",
        8 => "8",
        _ => "9",
    };
    proof {
        assert(r@ =~= seq![digit_char(d as nat)]);
    }
    r
}

/// Appends the decimal digits of `v`.
pub fn push_dec(out: &mut String, v: u64)
    ensures
        final(out)@ == old(out)@ + dec_str(v as nat),
    decreases v,
{
    if v >= 10 {
        push_dec(out, v / 10);
        out.append(digit_str(v % 10));
        proof {
            assert(out@ =~= old(out)@ + dec_str(v as nat));
        }
    } else {
        out.append(digit_str(v));
        proof {
            assert(out@ =~= old(out)@ + dec_str(v as nat));
        }
    }
}

/// The decimal rendering of `v`.
pub fn u64_to_string(v: u64) -> (r: String)
    ensures
        r@ == dec_str(v as nat),
{
    let mut s = String::new();
    push_dec(&mut s, v);
    proof {
        assert(s@ =~= dec_str(v as nat));
    }
    s
}

/// Four zero-padded decimal digits of `v % 10000`.
pub open spec fn frac4(v: nat) -> Seq<char> {
    seq![
        digit_char(v / 1000 % 10),
        digit_char(v / 100 % 10),
        digit_char(v / 10 % 10),
        digit_char(v % 10),
    ]
}

/// A per-operation time held in ten-thousandths of a nanosecond, rendered
/// with four decimal digits: whole part, a dot, four fraction digits.
pub open spec fn e4_str(e4: nat) -> Seq<char> {
    dec_str(e4 / 10000) + seq!['.'] + frac4(e4 % 10000)
}

/// Renders `e4` ten-thousandths as a four-decimal figure.
pub fn e4_to_string(e4: u64) -> (r: String)
    ensures
        r@ == e4_str(e4 as nat),
{
    let mut s = String::new();
    push_dec(&mut s, e4 / 10000);
    s.append(".");
    let f = e4 % 10000;
    s.append(digit_str(f / 1000 % 10));
    s.append(digit_str(f / 100 % 10));
    s.append(digit_str(f / 10 % 10));
    s.append(digit_str(f % 10));
    proof {
        reveal_strlit(".");
        assert(s@ =~= e4_str(e4 as nat));
    }
    s
}

} // verus!
