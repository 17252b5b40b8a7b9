use vstd::prelude::*;
use vstd::string::StrSliceExecFns;
use vstd::string::StringSliceAdditionalSpecFns;

verus! {

// Size-list parsing: a comma-separated list of decimal numbers, each with an
// optional one-letter multiplier suffix (k/K for thousands, m/M for
// millions, g/G for billions). Entries that do not parse are silently
// dropped; values too large to represent are clamped to the largest size.

/// A decimal digit byte.
pub open spec fn is_digit(b: u8) -> bool {
    48 <= b <= 57
}

/// The value of a digit byte; zero for anything else.
pub open spec fn digit_val(b: u8) -> nat {
    if is_digit(b) {
        (b - 48) as nat
    } else {
        0
    }
}

/// The number a string of digit bytes denotes, most significant first.
pub open spec fn digits_val(s: Seq<u8>) -> nat
    decreases s.len(),
{
    if s.len() == 0 {
        0
    } else {
        digits_val(s.drop_last()) * 10 + digit_val(s.last())
    }
}

/// Powers of ten.
pub open spec fn pow10(k: nat) -> nat
    decreases k,
{
    if k == 0 {
        1
    } else {
        10 * pow10((k - 1) as nat)
    }
}

pub proof fn lemma_pow10_pos(k: nat)
    ensures
        pow10(k) >= 1,
    decreases k,
{
    if k > 0 {
        lemma_pow10_pos((k - 1) as nat);
    }
}

pub proof fn lemma_pow10_mono(a: nat, b: nat)
    requires
        a <= b,
    ensures
        pow10(a) <= pow10(b),
    decreases b,
{
    if a < b {
        lemma_pow10_mono(a, (b - 1) as nat);
        lemma_pow10_pos((b - 1) as nat);
    }
}

proof fn lemma_pow10_vals()
    ensures
        pow10(0) == 1,
        pow10(1) == 10,
        pow10(2) == 100,
        pow10(3) == 1000,
        pow10(4) == 10000,
        pow10(5) == 100000,
        pow10(6) == 1000000,
        pow10(7) == 10000000,
        pow10(8) == 100000000,
        pow10(9) == 1000000000,
{
    assert(pow10(0) == 1);
    assert(pow10(1) == 10);
    assert(pow10(2) == 100);
    assert(pow10(3) == 1000);
    assert(pow10(4) == 10000);
    assert(pow10(5) == 100000);
    assert(pow10(6) == 1000000);
    assert(pow10(7) == 10000000);
    assert(pow10(8) == 100000000);
    assert(pow10(9) == 1000000000);
}

/// The position of the first `x` in `s`, or `s.len()` if there is none.
pub open spec fn find_byte(s: Seq<u8>, x: u8) -> int
    decreases s.len(),
{
    if s.len() == 0 {
        0
    } else if s[0] == x {
        0
    } else {
        1 + find_byte(s.drop_first(), x)
    }
}

pub proof fn lemma_find_byte(s: Seq<u8>, x: u8)
    ensures
        0 <= find_byte(s, x) <= s.len(),
        forall|i: int| 0 <= i < find_byte(s, x) ==> s[i] != x,
        find_byte(s, x) < s.len() ==> s[find_byte(s, x)] == x,
    decreases s.len(),
{
    if s.len() > 0 && s[0] != x {
        lemma_find_byte(s.drop_first(), x);
        let f = find_byte(s, x);
        assert forall|i: int| 0 <= i < f implies s[i] != x by {
            if i > 0 {
                assert(s.drop_first()[i - 1] == s[i]);
            }
        }
        if f < s.len() {
            assert(s.drop_first()[f - 1] == s[f]);
        }
    }
}

/// The three scan facts determine the position of the first `x`.
pub proof fn lemma_find_byte_at(s: Seq<u8>, x: u8, k: int)
    requires
        0 <= k <= s.len(),
        forall|i: int| 0 <= i < k ==> s[i] != x,
        k < s.len() ==> s[k] == x,
    ensures
        find_byte(s, x) == k,
    decreases s.len(),
{
    if s.len() == 0 {
    } else if s[0] == x {
        assert(k == 0);
    } else {
        assert(k >= 1);
        assert forall|i: int| 0 <= i < k - 1 implies s.drop_first()[i] != x by {
            assert(s.drop_first()[i] == s[i + 1]);
        }
        if k - 1 < s.drop_first().len() {
            assert(s.drop_first()[k - 1] == s[k]);
        }
        lemma_find_byte_at(s.drop_first(), x, k - 1);
    }
}

/// A multiplier suffix byte: one of k, K, m, M, g, G.
pub open spec fn is_suffix_byte(b: u8) -> bool {
    b == 107 || b == 75 || b == 109 || b == 77 || b == 103 || b == 71
}

/// The power of ten a suffix byte stands for.
pub open spec fn suffix_exp(b: u8) -> nat {
    if b == 107 || b == 75 {
        3
    } else if b == 109 || b == 77 {
        6
    } else {
        9
    }
}

/// The token with its suffix, if any, removed.
pub open spec fn core_of(t: Seq<u8>) -> Seq<u8> {
    if t.len() > 0 && is_suffix_byte(t.last()) {
        t.drop_last()
    } else {
        t
    }
}

/// The exponent of the token's suffix; zero without one.
pub open spec fn exp_of(t: Seq<u8>) -> nat {
    if t.len() > 0 && is_suffix_byte(t.last()) {
        suffix_exp(t.last())
    } else {
        0
    }
}

/// A well-formed numeric part: nonempty, digits with at most one dot among
/// them, and not a lone dot.
pub open spec fn mantissa_ok(c: Seq<u8>) -> bool {
    c.len() > 0 && (forall|i: int| 0 <= i < c.len() ==> is_digit(#[trigger] c[i]) || c[i] == 46)
        && (forall|i: int| find_byte(c, 46) < i < c.len() ==> c[i] != 46) && !(c.len() == 1 && c[0]
        == 46)
}

/// The numeric part scaled by `10^e` and floored: the integer digits and
/// the first `e` fraction digits read as one number, times the power of ten
/// that is left. Fraction digits beyond `e` cannot contribute.
pub open spec fn mantissa_scaled(c: Seq<u8>, e: nat) -> nat {
    let d = find_byte(c, 46);
    let ip = c.subrange(0, d);
    let fp = if d == c.len() {
        Seq::<u8>::empty()
    } else {
        c.subrange(d + 1, c.len() as int)
    };
    let used: nat = if fp.len() <= e {
        fp.len()
    } else {
        e
    };
    digits_val(ip + fp.take(used as int)) * pow10((e - used) as nat)
}

/// What one token denotes, if anything.
pub open spec fn token_value(t: Seq<u8>) -> Option<nat> {
    if mantissa_ok(core_of(t)) {
        Option::Some(mantissa_scaled(core_of(t), exp_of(t)))
    } else {
        Option::None
    }
}

/// A value clamped to the representable sizes.
pub open spec fn clamp_usize(v: nat) -> usize {
    if v > usize::MAX as nat {
        usize::MAX
    } else {
        v as usize
    }
}

/// The size one token contributes, if any.
pub open spec fn token_size(t: Seq<u8>) -> Option<usize> {
    match token_value(t) {
        Option::Some(v) => Option::Some(clamp_usize(v)),
        Option::None => Option::None,
    }
}

/// The sizes a whole comma-separated byte string denotes, in order,
/// unparseable tokens dropped.
pub open spec fn sizes_of(b: Seq<u8>) -> Seq<usize>
    decreases b.len(),
    via sizes_of_dec
{
    let d = find_byte(b, 44);
    let head = match token_size(b.subrange(0, d)) {
        Option::Some(v) => seq![v],
        Option::None => Seq::<usize>::empty(),
    };
    if d == b.len() {
        head
    } else {
        head + sizes_of(b.subrange(d + 1, b.len() as int))
    }
}

#[via_fn]
proof fn sizes_of_dec(b: Seq<u8>) {
    lemma_find_byte(b, 44);
}

fn pow10_exec(k: u64) -> (r: u64)
    requires
        k <= 9,
    ensures
        r as nat == pow10(k as nat),
{
    proof {
        lemma_pow10_vals();
    }
    match k {
        0 => 1,
        1 => 10,
        2 => 100,
        3 => 1000,
        4 => 10000,
        5 => 100000,
        6 => 1000000,
        7 => 10000000,
        8 => 100000000,
        _ => 1000000000,
    }
}

/// The first `j` fraction digits of `c`, whose dot sits at `dotp`; empty
/// when there is no dot.
pub open spec fn frac_pref(c: Seq<u8>, dotp: int, j: int) -> Seq<u8> {
    if dotp >= c.len() {
        Seq::<u8>::empty()
    } else {
        c.subrange(dotp + 1, dotp + 1 + j)
    }
}

/// Parses one size token.
#[verifier::rlimit(100)]
fn token_size_exec(t: &Vec<u8>) -> (r: Option<usize>)
    ensures
        r == token_size(t@),
{
    let len = t.len();
    let mut clen: usize = len;
    let mut e: u64 = 0;
    if len > 0 {
        let b = t[len - 1];
        if b == 107 || b == 75 {
            clen = len - 1;
            e = 3;
        } else if b == 109 || b == 77 {
            clen = len - 1;
            e = 6;
        } else if b == 103 || b == 71 {
            clen = len - 1;
            e = 9;
        }
    }
    let ghost c = t@.subrange(0, clen as int);
    proof {
        assert(core_of(t@) =~= c);
        assert(exp_of(t@) == e as nat);
    }
    if clen == 0 {
        return Option::None;
    }
    let mut dot: Option<usize> = Option::None;
    let mut ok: bool = true;
    let mut i: usize = 0;
    while i < clen
        invariant
            i <= clen,
            clen <= t@.len(),
            c == t@.subrange(0, clen as int),
            c.len() == clen,
            ok ==> forall|j: int| 0 <= j < i ==> is_digit(#[trigger] c[j]) || c[j] == 46,
            ok ==> match dot {
                Option::None => forall|j: int| 0 <= j < i ==> c[j] != 46,
                Option::Some(d) => d < i && c[d as int] == 46 && (forall|j: int|
                    0 <= j < d ==> c[j] != 46) && (forall|j: int| d < j < i ==> c[j] != 46),
            },
            !ok ==> !mantissa_ok(c),
        decreases clen - i,
    {
        let b = t[i];
        proof {
            assert(c[i as int] == t@[i as int]);
        }
        if ok {
            if b == 46 {
                match dot {
                    Option::None => {
                        dot = Option::Some(i);
                    },
                    Option::Some(d) => {
                        proof {
                            lemma_find_byte_at(c, 46, d as int);
                            assert(c[i as int] == 46 && d < i < c.len());
                            assert(!mantissa_ok(c));
                        }
                        ok = false;
                    },
                }
            } else if b >= 48 && b <= 57 {
            } else {
                proof {
                    assert(!(is_digit(c[i as int]) || c[i as int] == 46));
                    assert(!mantissa_ok(c));
                }
                ok = false;
            }
        }
        i = i + 1;
    }
    if !ok {
        return Option::None;
    }
    if clen == 1 && t[0] == 46 {
        proof {
            assert(!mantissa_ok(c));
        }
        return Option::None;
    }
    let dotp: usize = match dot {
        Option::None => clen,
        Option::Some(d) => d,
    };
    proof {
        match dot {
            Option::None => lemma_find_byte_at(c, 46, clen as int),
            Option::Some(d) => lemma_find_byte_at(c, 46, d as int),
        }
        assert(find_byte(c, 46) == dotp as int);
        assert(mantissa_ok(c));
    }
    let fplen: usize = if dotp == clen {
        0
    } else {
        clen - dotp - 1
    };
    let used: usize = if (fplen as u64) <= e {
        fplen
    } else {
        e as usize
    };
    let ghost ipseq = c.subrange(0, dotp as int);
    proof {
        assert forall|j: int| 0 <= j < dotp implies is_digit(#[trigger] c[j]) by {
            assert(c[j] != 46);
        }
        assert forall|j: int| dotp < j < clen implies is_digit(#[trigger] c[j]) by {
            assert(c[j] != 46);
        }
    }
    let sat: u128 = 100000000000000000000;
    let mut acc: u128 = 0;
    let mut i2: usize = 0;
    while i2 < dotp
        invariant
            i2 <= dotp,
            dotp <= clen,
            clen <= t@.len(),
            c == t@.subrange(0, clen as int),
            c.len() == clen,
            sat == 100000000000000000000,
            forall|j: int| 0 <= j < dotp ==> is_digit(#[trigger] c[j]),
            (acc as nat == digits_val(c.subrange(0, i2 as int)) && acc < sat) || (acc == sat
                && digits_val(c.subrange(0, i2 as int)) >= sat as nat),
        decreases dotp - i2,
    {
        let b = t[i2];
        proof {
            assert(c[i2 as int] == t@[i2 as int]);
            assert(is_digit(c[i2 as int]));
        }
        let d = (b - 48) as u128;
        proof {
            assert(c.subrange(0, i2 as int + 1).drop_last() =~= c.subrange(0, i2 as int));
            assert(digits_val(c.subrange(0, i2 as int + 1)) == digits_val(
                c.subrange(0, i2 as int),
            ) * 10 + digit_val(c[i2 as int]));
        }
        let na = acc * 10 + d;
        acc = if na > sat {
            sat
        } else {
            na
        };
        i2 = i2 + 1;
    }
    proof {
        assert(c.subrange(0, dotp as int) == ipseq);
        assert(ipseq + frac_pref(c, dotp as int, 0) =~= ipseq);
    }
    let mut j2: usize = 0;
    while j2 < used
        invariant
            j2 <= used,
            dotp < clen || used == 0,
            dotp + 1 + used <= clen || used == 0,
            clen <= t@.len(),
            c == t@.subrange(0, clen as int),
            c.len() == clen,
            ipseq == c.subrange(0, dotp as int),
            sat == 100000000000000000000,
            forall|j: int| dotp < j < clen ==> is_digit(#[trigger] c[j]),
            (acc as nat == digits_val(ipseq + frac_pref(c, dotp as int, j2 as int)) && acc < sat)
                || (acc == sat && digits_val(ipseq + frac_pref(c, dotp as int, j2 as int))
                >= sat as nat),
        decreases used - j2,
    {
        let b = t[dotp + 1 + j2];
        proof {
            assert(dotp < clen);
            assert(c[dotp + 1 + j2] == t@[dotp + 1 + j2]);
            assert(is_digit(c[dotp + 1 + j2]));
        }
        let d = (b - 48) as u128;
        proof {
            let s1 = ipseq + frac_pref(c, dotp as int, j2 as int + 1);
            assert(s1.drop_last() =~= ipseq + frac_pref(c, dotp as int, j2 as int));
            assert(s1.last() == c[dotp + 1 + j2]);
            assert(digits_val(s1) == digits_val(s1.drop_last()) * 10 + digit_val(
                c[dotp + 1 + j2],
            ));
        }
        let na = acc * 10 + d;
        acc = if na > sat {
            sat
        } else {
            na
        };
        j2 = j2 + 1;
    }
    let ghost kept = ipseq + frac_pref(c, dotp as int, used as int);
    proof {
        let dd = find_byte(c, 46);
        let fp = if dd == c.len() {
            Seq::<u8>::empty()
        } else {
            c.subrange(dd + 1, c.len() as int)
        };
        assert(fp.len() == fplen);
        assert(fp.take(used as int) =~= frac_pref(c, dotp as int, used as int));
        assert(mantissa_scaled(c, e as nat) == digits_val(kept) * pow10(
            (e as nat - used as nat) as nat,
        ));
    }
    let rem: u64 = e - used as u64;
    let mult = pow10_exec(rem);
    proof {
        lemma_pow10_vals();
        lemma_pow10_mono(rem as nat, 9);
        assert(mult <= 1000000000);
        assert(acc * (mult as u128) <= 100000000000000000000u128 * 1000000000u128) by (nonlinear_arith)
            requires
                acc <= 100000000000000000000u128,
                mult <= 1000000000u64,
        ;
    }
    let v128: u128 = acc * (mult as u128);
    if acc == sat {
        proof {
            let mval = digits_val(kept) * pow10((e as nat - used as nat) as nat);
            lemma_pow10_pos((e as nat - used as nat) as nat);
            assert(mval >= digits_val(kept)) by (nonlinear_arith)
                requires
                    mval == digits_val(kept) * pow10((e as nat - used as nat) as nat),
                    pow10((e as nat - used as nat) as nat) >= 1,
            ;
            let big: nat = 100000000000000000000u128 as nat;
            assert((usize::MAX as nat) < big);
            assert(clamp_usize(mantissa_scaled(c, e as nat)) == usize::MAX);
        }
        Option::Some(usize::MAX)
    } else {
        proof {
            assert(v128 as nat == mantissa_scaled(c, e as nat)) by (nonlinear_arith)
                requires
                    acc as nat == digits_val(kept),
                    mult as nat == pow10((e as nat - used as nat) as nat),
                    v128 == acc * (mult as u128),
                    acc <= 100000000000000000000u128,
                    mult <= 1000000000u64,
                    mantissa_scaled(c, e as nat) == digits_val(kept) * pow10(
                        (e as nat - used as nat) as nat,
                    ),
            ;
        }
        if v128 > usize::MAX as u128 {
            Option::Some(usize::MAX)
        } else {
            Option::Some(v128 as usize)
        }
    }
}

/// Parses a comma-separated list of sizes; entries that do not parse are
/// silently dropped.
pub fn parse_sizes(s: &str) -> (r: Vec<usize>)
    ensures
        r@ == sizes_of(s.spec_bytes()),
{
    let b = s.as_bytes_vec();
    let len = b.len();
    let ghost whole = b@;
    let mut out: Vec<usize> = Vec::new();
    let mut cur: Vec<u8> = Vec::new();
    let mut ts: usize = 0;
    let mut i: usize = 0;
    proof {
        assert(whole.subrange(0, len as int) =~= whole);
        assert(Seq::<usize>::empty() + sizes_of(whole) =~= sizes_of(whole));
    }
    while i < len
        invariant
            ts <= i <= len,
            len == whole.len(),
            b@ == whole,
            cur@ == whole.subrange(ts as int, i as int),
            forall|j: int| ts <= j < i ==> whole[j] != 44,
            sizes_of(whole) == out@ + sizes_of(whole.subrange(ts as int, len as int)),
        decreases len - i,
    {
        let by = b[i];
        if by == 44 {
            proof {
                let rest = whole.subrange(ts as int, len as int);
                assert forall|j: int| 0 <= j < i - ts implies rest[j] != 44 by {
                    assert(rest[j] == whole[ts + j]);
                }
                assert(rest[(i - ts) as int] == whole[i as int]);
                lemma_find_byte_at(rest, 44, (i - ts) as int);
                assert(rest.subrange(0, (i - ts) as int) =~= cur@);
                assert(rest.subrange((i - ts) as int + 1, rest.len() as int) =~= whole.subrange(
                    i as int + 1,
                    len as int,
                ));
            }
            let ghost out0 = out@;
            match token_size_exec(&cur) {
                Option::Some(v) => {
                    out.push(v);
                    proof {
                        assert(out@ =~= out0 + seq![v]);
                    }
                },
                Option::None => {},
            }
            proof {
                let rest = whole.subrange(ts as int, len as int);
                let next = sizes_of(whole.subrange(i as int + 1, len as int));
                match token_size(cur@) {
                    Option::Some(v) => {
                        assert(out@ =~= out0 + seq![v]);
                        assert(out0 + seq![v] + next =~= out0 + (seq![v] + next));
                    },
                    Option::None => {
                        assert(Seq::<usize>::empty() + next =~= next);
                    },
                }
                assert(sizes_of(whole) == out@ + next);
            }
            cur = Vec::new();
            ts = i + 1;
        } else {
            cur.push(by);
            proof {
                assert(cur@ =~= whole.subrange(ts as int, i as int + 1));
            }
        }
        i = i + 1;
    }
    proof {
        let rest = whole.subrange(ts as int, len as int);
        assert forall|j: int| 0 <= j < len - ts implies rest[j] != 44 by {
            assert(rest[j] == whole[ts + j]);
        }
        lemma_find_byte_at(rest, 44, (len - ts) as int);
        assert(rest.subrange(0, (len - ts) as int) =~= cur@);
    }
    let ghost out0 = out@;
    match token_size_exec(&cur) {
        Option::Some(v) => {
            out.push(v);
            proof {
                assert(out@ =~= out0 + seq![v]);
            }
        },
        Option::None => {
            proof {
                let rest = whole.subrange(ts as int, len as int);
                assert(out0 + Seq::<usize>::empty() =~= out0);
                assert(sizes_of(rest) =~= Seq::<usize>::empty());
            }
        },
    }
    proof {
        assert(out@ == sizes_of(whole));
    }
    out
}

/// The documented fallback list of sizes.
pub fn default_sizes() -> (r: Vec<usize>)
    ensures
        r@ =~= seq![10000usize, 100000usize, 1000000usize],
{
    let mut v: Vec<usize> = Vec::new();
    v.push(10000);
    v.push(100000);
    v.push(1000000);
    v
}

/// The sizes a configuration string stands for: the parsed list, or the
/// documented default list when nothing in it parses.
pub fn effective_sizes(s: &str) -> (r: Vec<usize>)
    ensures
        sizes_of(s.spec_bytes()).len() > 0 ==> r@ == sizes_of(s.spec_bytes()),
        sizes_of(s.spec_bytes()).len() == 0 ==> r@ =~= seq![10000usize, 100000usize, 1000000usize],
{
    let v = parse_sizes(s);
    if v.len() == 0 {
        default_sizes()
    } else {
        v
    }
}

} // verus!
