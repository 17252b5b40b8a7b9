use vstd::prelude::*;
use crate::array::ArrayStore;
use crate::rng::{
    SeedStream, after_draws, mk_idx, mk_kinds, rand_val, run_draw, std_rng_draw, val_of,
};
use crate::timing::{TOTAL_NS_CAP, elapsed_ns_capped, instant_now};
use crate::render::{dec_str, push_dec};
use vstd::string::StringExecFns;

verus! {

// The scenario engine: a catalogue of deterministic access patterns, the
// timing protocol around them, and the derived metrics. Every generated
// index, operation kind and value is pinned by the contracts to a spec-level
// function of (array size, scenario, seed): re-running a scenario with the
// same triple replays exactly the same operations, and only the wall-clock
// readings differ.

/// The cap on the number of operations in any random-access scenario run.
pub const OP_CAP: u64 = 1000000;

/// One access pattern of the closed catalogue. The mixed family carries its
/// read percentage.
#[derive(Clone, Copy, PartialEq, Eq, Structural, Debug)]
pub enum Scenario {
    InitOnly,
    ReadUnwritten,
    WriteSequential,
    WriteRandom,
    Mixed { read_pct: u8 },
    AdversarialHotspot,
}

/// A scenario descriptor is well formed when its read percentage, if any,
/// is an actual percentage.
pub open spec fn scenario_wf(sc: Scenario) -> bool {
    match sc {
        Scenario::Mixed { read_pct } => read_pct <= 100,
        _ => true,
    }
}

/// Operation count of a capped random-access scenario: `min(OP_CAP, n)`.
pub open spec fn capped(n: usize) -> int {
    if (n as int) < OP_CAP as int {
        n as int
    } else {
        OP_CAP as int
    }
}

/// Executable `min(OP_CAP, n)`.
pub fn capped_ops_exec(n: usize) -> (r: usize)
    requires
        1 <= n,
    ensures
        r as int == capped(n),
        1 <= r <= OP_CAP,
        r <= n,
{
    if n < 1000000 {
        n
    } else {
        1000000
    }
}

/// How many operations one run of `sc` on an array of `n` slots performs.
pub open spec fn ops_spec(sc: Scenario, n: usize) -> int {
    match sc {
        Scenario::InitOnly => 1,
        Scenario::ReadUnwritten => if 10 * (n as int) < OP_CAP as int {
            10 * (n as int)
        } else {
            OP_CAP as int
        },
        Scenario::WriteSequential => n as int,
        Scenario::WriteRandom => capped(n),
        Scenario::Mixed { .. } => capped(n),
        Scenario::AdversarialHotspot => capped(n),
    }
}

/// Size of the adversarial hot range: `max(1, n / 10)`.
pub open spec fn hot_spec(n: usize) -> u64 {
    if n / 10 < 1 {
        1
    } else {
        (n / 10) as u64
    }
}

/// Executable `max(1, n / 10)`.
pub fn hot_size(n: usize) -> (r: u64)
    ensures
        r == hot_spec(n),
{
    let h = n / 10;
    if h < 1 {
        1
    } else {
        h as u64
    }
}

/// A sequence of `n` copies of `v`.
pub open spec fn const_seq(n: nat, v: i64) -> Seq<i64> {
    Seq::new(n, |_i: int| v)
}

/// The slots `0, 1, 2, ...` written in order.
pub open spec fn seq_iota(n: nat) -> Seq<i64> {
    Seq::new(n, |i: int| i as i64)
}

/// An update that leaves the sequence alone when the index is out of range.
/// The engine never draws such an index; the guard only keeps the spec total.
pub open spec fn upd_in(s: Seq<i64>, i: u64, v: i64) -> Seq<i64> {
    if (i as int) < s.len() {
        s.update(i as int, v)
    } else {
        s
    }
}

// WRITE_RANDOM. Draw order: all `m` indices first (bound `n`), then one
// value (bound 2001) per write, during the measured loop.

/// The `t`-th pre-generated index of a run that starts from a fresh stream.
pub open spec fn wr_idx(seed: u64, n: usize, t: nat) -> u64 {
    run_draw(seed, Seq::<u64>::empty(), n as u64, t)
}

/// The draws made before the `t`-th written value: `m` indices, `t` values.
pub open spec fn wr_val_past(n: usize, m: nat, t: nat) -> Seq<u64> {
    after_draws(after_draws(Seq::<u64>::empty(), n as u64, m), 2001, t)
}

/// The `t`-th written value.
pub open spec fn wr_val(seed: u64, n: usize, m: nat, t: nat) -> i64 {
    val_of(std_rng_draw(seed, wr_val_past(n, m, t), 2001))
}

/// Array contents after the first `t` of `m` random writes.
pub open spec fn wr_state(seed: u64, n: usize, m: nat, t: nat) -> Seq<i64>
    decreases t,
{
    if t == 0 {
        const_seq(n as nat, 0)
    } else {
        upd_in(
            wr_state(seed, n, m, (t - 1) as nat),
            wr_idx(seed, n, (t - 1) as nat),
            wr_val(seed, n, m, (t - 1) as nat),
        )
    }
}

// MIXED_R{p}W{100-p}. Draw order: all `m` indices (bound `n`), then all `m`
// kind draws (bound 100), then, lazily during the measured loop, one value
// draw (bound 2001) per write operation only.

/// The `t`-th pre-generated index.
pub open spec fn mx_idx(seed: u64, n: usize, t: nat) -> u64 {
    run_draw(seed, Seq::<u64>::empty(), n as u64, t)
}

/// Whether the `t`-th operation is a read: its kind draw is under the read
/// percentage.
pub open spec fn mx_read(seed: u64, n: usize, m: nat, p: u8, t: nat) -> bool {
    run_draw(seed, after_draws(Seq::<u64>::empty(), n as u64, m), 100, t) < p as u64
}

/// The draws made once `t` operations of the measured loop are done.
pub open spec fn mx_past(seed: u64, n: usize, m: nat, p: u8, t: nat) -> Seq<u64>
    decreases t,
{
    if t == 0 {
        after_draws(after_draws(Seq::<u64>::empty(), n as u64, m), 100, m)
    } else {
        let h = mx_past(seed, n, m, p, (t - 1) as nat);
        if mx_read(seed, n, m, p, (t - 1) as nat) {
            h
        } else {
            h.push(2001)
        }
    }
}

/// Array contents after the first `t` mixed operations.
pub open spec fn mx_state(seed: u64, n: usize, m: nat, p: u8, t: nat) -> Seq<i64>
    decreases t,
{
    if t == 0 {
        const_seq(n as nat, 42)
    } else {
        let s0 = mx_state(seed, n, m, p, (t - 1) as nat);
        if mx_read(seed, n, m, p, (t - 1) as nat) {
            s0
        } else {
            upd_in(
                s0,
                mx_idx(seed, n, (t - 1) as nat),
                val_of(std_rng_draw(seed, mx_past(seed, n, m, p, (t - 1) as nat), 2001)),
            )
        }
    }
}

// ADVERSARIAL_HOTSPOT. Draw order, per operation and inside the measured
// loop: a coin (bound 2), then an index below the hot size or below `n`,
// then a value (bound 2001).

/// The bound the coin picks: the hot range with probability one half, the
/// whole range otherwise.
pub open spec fn pick_bound(seed: u64, past: Seq<u64>, hot: u64, n: usize) -> u64 {
    if std_rng_draw(seed, past, 2) == 0 {
        hot
    } else {
        n as u64
    }
}

/// The index drawn right after the coin.
pub open spec fn pick_idx(seed: u64, past: Seq<u64>, hot: u64, n: usize) -> u64 {
    std_rng_draw(seed, past.push(2), pick_bound(seed, past, hot, n))
}

/// The draws made once `t` hotspot writes are done.
pub open spec fn hs_past(seed: u64, n: usize, hot: u64, t: nat) -> Seq<u64>
    decreases t,
{
    if t == 0 {
        Seq::<u64>::empty()
    } else {
        let h = hs_past(seed, n, hot, (t - 1) as nat);
        h.push(2).push(pick_bound(seed, h, hot, n)).push(2001)
    }
}

/// The `t`-th hotspot target index.
pub open spec fn hs_idx(seed: u64, n: usize, hot: u64, t: nat) -> u64 {
    pick_idx(seed, hs_past(seed, n, hot, t), hot, n)
}

/// The `t`-th hotspot written value.
pub open spec fn hs_val(seed: u64, n: usize, hot: u64, t: nat) -> i64 {
    let h = hs_past(seed, n, hot, t);
    val_of(std_rng_draw(seed, h.push(2).push(pick_bound(seed, h, hot, n)), 2001))
}

/// Array contents after the first `t` hotspot writes.
pub open spec fn hs_state(seed: u64, n: usize, hot: u64, t: nat) -> Seq<i64>
    decreases t,
{
    if t == 0 {
        const_seq(n as nat, 0)
    } else {
        upd_in(
            hs_state(seed, n, hot, (t - 1) as nat),
            hs_idx(seed, n, hot, (t - 1) as nat),
            hs_val(seed, n, hot, (t - 1) as nat),
        )
    }
}

/// The array contents one full run of `sc` leaves behind: a function of the
/// size, the scenario and the seed alone.
pub open spec fn final_state(sc: Scenario, n: usize, seed: u64) -> Seq<i64> {
    match sc {
        Scenario::InitOnly => const_seq(n as nat, 42),
        Scenario::ReadUnwritten => const_seq(n as nat, 123),
        Scenario::WriteSequential => seq_iota(n as nat),
        Scenario::WriteRandom => wr_state(seed, n, capped(n) as nat, capped(n) as nat),
        Scenario::Mixed { read_pct } => mx_state(
            seed,
            n,
            capped(n) as nat,
            read_pct,
            capped(n) as nat,
        ),
        Scenario::AdversarialHotspot => hs_state(seed, n, hot_spec(n), capped(n) as nat),
    }
}

/// The timing metrics of one scenario run. The per-operation time is kept
/// exactly, in ten-thousandths of a nanosecond, so that rendering it with
/// four decimal digits loses nothing.
#[derive(Clone, Copy, PartialEq, Eq, Structural, Debug)]
pub struct RunResult {
    pub ops_in_run: u64,
    pub total_time_ns: u64,
    pub ns_per_op_e4: u64,
    pub init_time_ns: u64,
}

/// Packs the metrics of a run, deriving the per-operation time.
fn finish(ops: u64, total: u64, init: u64) -> (r: RunResult)
    requires
        1 <= ops,
        total <= TOTAL_NS_CAP,
    ensures
        r.ops_in_run == ops,
        r.total_time_ns == total,
        r.init_time_ns == init,
        r.ns_per_op_e4 == (total as int) * 10000 / (ops as int),
{
    let e4 = total * 10000 / ops;
    RunResult { ops_in_run: ops, total_time_ns: total, ns_per_op_e4: e4, init_time_ns: init }
}

/// One adversarial target index: with probability one half it falls in the
/// hot range `[0, hot)`, otherwise anywhere in `[0, n)`.
pub fn hotspot_index(s: &mut SeedStream, hot: u64, n: usize) -> (r: usize)
    requires
        1 <= hot,
        hot <= n as u64,
    ensures
        r < n,
        r as u64 == pick_idx(old(s).seed_of(), old(s).past_of(), hot, n),
        final(s).seed_of() == old(s).seed_of(),
        final(s).past_of() == old(s).past_of().push(2).push(
            pick_bound(old(s).seed_of(), old(s).past_of(), hot, n),
        ),
{
    let c = s.gen_below(2);
    let b = if c == 0 { hot } else { n as u64 };
    let j = s.gen_below(b);
    j as usize
}

fn run_init_only<A: ArrayStore>(arr: &mut A) -> (r: RunResult)
    ensures
        final(arr).contents() == const_seq(old(arr).contents().len(), 42),
        r.ops_in_run == 1,
        r.total_time_ns <= TOTAL_NS_CAP,
        r.ns_per_op_e4 == (r.total_time_ns as int) * 10000,
        r.init_time_ns == r.total_time_ns,
{
    let t0 = instant_now();
    let _pass_ns = arr.init(42);
    let el = elapsed_ns_capped(&t0);
    proof {
        assert(arr.contents() =~= const_seq(old(arr).contents().len(), 42));
    }
    finish(1, el, el)
}

fn run_read_unwritten<A: ArrayStore>(arr: &mut A, n: usize, seed: u64) -> (r: RunResult)
    requires
        old(arr).contents().len() == n,
        1 <= n,
    ensures
        final(arr).contents() == const_seq(n as nat, 123),
        r.ops_in_run == ops_spec(Scenario::ReadUnwritten, n),
        r.total_time_ns <= TOTAL_NS_CAP,
        r.ns_per_op_e4 == (r.total_time_ns as int) * 10000 / (r.ops_in_run as int),
        r.init_time_ns == 0,
{
    let mut s = SeedStream::new(seed);
    let _pass_ns = arr.init(123);
    let m: usize = if n >= 100000 {
        1000000
    } else {
        10 * n
    };
    let idx = mk_idx(&mut s, m, n);
    proof {
        assert(arr.contents() =~= const_seq(n as nat, 123));
    }
    let t0 = instant_now();
    let mut acc: i64 = 0;
    let mut t: usize = 0;
    while t < m
        invariant
            t <= m,
            idx@.len() == m,
            arr.contents() == const_seq(n as nat, 123),
            arr.contents().len() == n,
            forall|i: int| 0 <= i < m ==> (#[trigger] idx@[i]) < n,
        decreases m - t,
    {
        let j = std::hint::black_box(idx[t]);
        acc = acc.wrapping_add(arr.read(j));
        t = t + 1;
    }
    let el = elapsed_ns_capped(&t0);
    let _sink = std::hint::black_box(acc);
    finish(m as u64, el, 0)
}

fn run_write_sequential<A: ArrayStore>(arr: &mut A, n: usize) -> (r: RunResult)
    requires
        old(arr).contents().len() == n,
        1 <= n,
        n as int <= i64::MAX as int,
    ensures
        final(arr).contents() == seq_iota(n as nat),
        r.ops_in_run == n,
        r.total_time_ns <= TOTAL_NS_CAP,
        r.ns_per_op_e4 == (r.total_time_ns as int) * 10000 / (r.ops_in_run as int),
        r.init_time_ns == 0,
{
    let _pass_ns = arr.init(0);
    let t0 = instant_now();
    let mut i: usize = 0;
    while i < n
        invariant
            i <= n,
            arr.contents().len() == n,
            n as int <= i64::MAX as int,
            forall|j: int| 0 <= j < i ==> arr.contents()[j] == j as i64,
        decreases n - i,
    {
        arr.write(i, i as i64);
        i = i + 1;
    }
    let el = elapsed_ns_capped(&t0);
    proof {
        assert(arr.contents() =~= seq_iota(n as nat));
    }
    finish(n as u64, el, 0)
}

fn run_write_random<A: ArrayStore>(arr: &mut A, n: usize, seed: u64) -> (r: RunResult)
    requires
        old(arr).contents().len() == n,
        1 <= n,
    ensures
        final(arr).contents() == wr_state(seed, n, capped(n) as nat, capped(n) as nat),
        r.ops_in_run == capped(n),
        r.total_time_ns <= TOTAL_NS_CAP,
        r.ns_per_op_e4 == (r.total_time_ns as int) * 10000 / (r.ops_in_run as int),
        r.init_time_ns == 0,
{
    let mut s = SeedStream::new(seed);
    let _pass_ns = arr.init(0);
    let m = capped_ops_exec(n);
    let idx = mk_idx(&mut s, m, n);
    let ghost pre = after_draws(Seq::<u64>::empty(), n as u64, m as nat);
    proof {
        assert(arr.contents() =~= const_seq(n as nat, 0));
    }
    let t0 = instant_now();
    let mut t: usize = 0;
    while t < m
        invariant
            t <= m,
            m as int == capped(n),
            idx@.len() == m,
            forall|i: int|
                0 <= i < m ==> (#[trigger] idx@[i]) < n && idx@[i] as u64 == run_draw(
                    seed,
                    Seq::<u64>::empty(),
                    n as u64,
                    i as nat,
                ),
            pre == after_draws(Seq::<u64>::empty(), n as u64, m as nat),
            s.seed_of() == seed,
            s.past_of() == after_draws(pre, 2001, t as nat),
            arr.contents().len() == n,
            arr.contents() == wr_state(seed, n, m as nat, t as nat),
        decreases m - t,
    {
        let j = std::hint::black_box(idx[t]);
        let v = rand_val(&mut s);
        arr.write(j, v);
        t = t + 1;
        proof {
            let ghost tp = (t - 1) as nat;
            assert(s.past_of() =~= after_draws(pre, 2001, t as nat));
            assert(wr_val_past(n, m as nat, tp) =~= after_draws(pre, 2001, tp));
            assert(j as u64 == wr_idx(seed, n, tp));
            assert(v == wr_val(seed, n, m as nat, tp));
            assert(wr_state(seed, n, m as nat, t as nat) == upd_in(
                wr_state(seed, n, m as nat, tp),
                wr_idx(seed, n, tp),
                wr_val(seed, n, m as nat, tp),
            ));
            assert(arr.contents() == wr_state(seed, n, m as nat, t as nat));
        }
    }
    let el = elapsed_ns_capped(&t0);
    finish(m as u64, el, 0)
}

fn run_mixed<A: ArrayStore>(arr: &mut A, n: usize, seed: u64, read_pct: u8) -> (r: RunResult)
    requires
        old(arr).contents().len() == n,
        1 <= n,
        read_pct <= 100,
    ensures
        final(arr).contents() == mx_state(seed, n, capped(n) as nat, read_pct, capped(n) as nat),
        r.ops_in_run == capped(n),
        r.total_time_ns <= TOTAL_NS_CAP,
        r.ns_per_op_e4 == (r.total_time_ns as int) * 10000 / (r.ops_in_run as int),
        r.init_time_ns == 0,
{
    let mut s = SeedStream::new(seed);
    let _pass_ns = arr.init(42);
    let m = capped_ops_exec(n);
    let idx = mk_idx(&mut s, m, n);
    let kinds = mk_kinds(&mut s, m, read_pct);
    proof {
        assert(arr.contents() =~= const_seq(n as nat, 42));
        assert(s.past_of() =~= mx_past(seed, n, m as nat, read_pct, 0));
    }
    let t0 = instant_now();
    let mut acc: i64 = 0;
    let mut t: usize = 0;
    while t < m
        invariant
            t <= m,
            m as int == capped(n),
            idx@.len() == m,
            kinds@.len() == m,
            forall|i: int|
                0 <= i < m ==> (#[trigger] idx@[i]) < n && idx@[i] as u64 == mx_idx(
                    seed,
                    n,
                    i as nat,
                ),
            forall|i: int|
                0 <= i < m ==> (#[trigger] kinds@[i]) == mx_read(
                    seed,
                    n,
                    m as nat,
                    read_pct,
                    i as nat,
                ),
            s.seed_of() == seed,
            s.past_of() == mx_past(seed, n, m as nat, read_pct, t as nat),
            arr.contents().len() == n,
            arr.contents() == mx_state(seed, n, m as nat, read_pct, t as nat),
        decreases m - t,
    {
        let j = std::hint::black_box(idx[t]);
        if kinds[t] {
            acc = acc.wrapping_add(arr.read(j));
        } else {
            let v = rand_val(&mut s);
            arr.write(j, v);
        }
        t = t + 1;
        proof {
            assert(s.past_of() == mx_past(seed, n, m as nat, read_pct, t as nat));
            assert(arr.contents() == mx_state(seed, n, m as nat, read_pct, t as nat));
        }
    }
    let el = elapsed_ns_capped(&t0);
    let _sink = std::hint::black_box(acc);
    finish(m as u64, el, 0)
}

fn run_adversarial<A: ArrayStore>(arr: &mut A, n: usize, seed: u64) -> (r: RunResult)
    requires
        old(arr).contents().len() == n,
        1 <= n,
    ensures
        final(arr).contents() == hs_state(seed, n, hot_spec(n), capped(n) as nat),
        r.ops_in_run == capped(n),
        r.total_time_ns <= TOTAL_NS_CAP,
        r.ns_per_op_e4 == (r.total_time_ns as int) * 10000 / (r.ops_in_run as int),
        r.init_time_ns == 0,
{
    let mut s = SeedStream::new(seed);
    let _pass_ns = arr.init(0);
    let m = capped_ops_exec(n);
    let hot = hot_size(n);
    proof {
        assert(arr.contents() =~= const_seq(n as nat, 0));
    }
    let t0 = instant_now();
    let mut t: usize = 0;
    while t < m
        invariant
            t <= m,
            m as int == capped(n),
            1 <= hot,
            hot <= n as u64,
            hot == hot_spec(n),
            s.seed_of() == seed,
            s.past_of() == hs_past(seed, n, hot, t as nat),
            arr.contents().len() == n,
            arr.contents() == hs_state(seed, n, hot, t as nat),
        decreases m - t,
    {
        let j = hotspot_index(&mut s, hot, n);
        let v = rand_val(&mut s);
        arr.write(std::hint::black_box(j), v);
        t = t + 1;
        proof {
            assert(s.past_of() == hs_past(seed, n, hot, t as nat));
            assert(arr.contents() == hs_state(seed, n, hot, t as nat));
        }
    }
    let el = elapsed_ns_capped(&t0);
    finish(m as u64, el, 0)
}

/// Runs one scenario against a fresh array, with a stream freshly seeded
/// from `seed`, and returns the run's metrics.
///
/// The contract pins everything the run decides: the operation count is the
/// catalogue's formula, the per-operation time is exactly the measured total
/// scaled by ten thousand and divided by that count, the initialization
/// field is the measured total for the init-only scenario and zero for every
/// other, and the array is left holding a sequence that depends on the size,
/// the scenario and the seed alone.
pub fn run_scenario<A: ArrayStore>(arr: &mut A, sc: Scenario, n: usize, seed: u64) -> (r:
    RunResult)
    requires
        old(arr).contents().len() == n,
        1 <= n,
        n as int <= i64::MAX as int,
        scenario_wf(sc),
    ensures
        final(arr).contents() == final_state(sc, n, seed),
        r.ops_in_run == ops_spec(sc, n),
        r.total_time_ns <= TOTAL_NS_CAP,
        r.ns_per_op_e4 == (r.total_time_ns as int) * 10000 / (r.ops_in_run as int),
        r.init_time_ns == (if sc == Scenario::InitOnly {
            r.total_time_ns
        } else {
            0
        }),
{
    match sc {
        Scenario::InitOnly => run_init_only(arr),
        Scenario::ReadUnwritten => run_read_unwritten(arr, n, seed),
        Scenario::WriteSequential => run_write_sequential(arr, n),
        Scenario::WriteRandom => run_write_random(arr, n, seed),
        Scenario::Mixed { read_pct } => run_mixed(arr, n, seed, read_pct),
        Scenario::AdversarialHotspot => run_adversarial(arr, n, seed),
    }
}

/// Reproducibility: the operations a scenario run performs, and with them
/// the array contents it leaves behind, are a function of the size, the
/// scenario and the seed alone. Two runs of the same triple, each meeting
/// `run_scenario`'s contract, leave identical contents, however their
/// wall-clock readings differed.
pub proof fn lemma_runs_reproducible(
    sc: Scenario,
    n: usize,
    seed: u64,
    a1: Seq<i64>,
    a2: Seq<i64>,
)
    requires
        a1 == final_state(sc, n, seed),
        a2 == final_state(sc, n, seed),
    ensures
        a1 == a2,
{
}

/// The catalogue name of a scenario, as it appears in the output: the mixed
/// family spells out its read and write percentages.
pub open spec fn name_spec(sc: Scenario) -> Seq<char> {
    match sc {
        Scenario::InitOnly => "INIT_ONLY"@,
        Scenario::ReadUnwritten => "READ_UNWRITTEN"@,
        Scenario::WriteSequential => "WRITE_SEQUENTIAL"@,
        Scenario::WriteRandom => "WRITE_RANDOM"@,
        Scenario::Mixed { read_pct } => "MIXED_R"@ + dec_str(read_pct as nat) + "W"@ + dec_str(
            (100 - read_pct) as nat,
        ),
        Scenario::AdversarialHotspot => "ADVERSARIAL_HOTSPOT"@,
    }
}

/// Renders a scenario's catalogue name.
pub fn scenario_name(sc: Scenario) -> (r: String)
    requires
        scenario_wf(sc),
    ensures
        r@ == name_spec(sc),
{
    match sc {
        Scenario::InitOnly => String::from_str("INIT_ONLY"),
        Scenario::ReadUnwritten => String::from_str("READ_UNWRITTEN"),
        Scenario::WriteSequential => String::from_str("WRITE_SEQUENTIAL"),
        Scenario::WriteRandom => String::from_str("WRITE_RANDOM"),
        Scenario::Mixed { read_pct } => {
            let mut s = String::from_str("MIXED_R");
            push_dec(&mut s, read_pct as u64);
            s.append("W");
            push_dec(&mut s, (100 - read_pct) as u64);
            proof {
                assert(s@ =~= name_spec(sc));
            }
            s
        },
        Scenario::AdversarialHotspot => String::from_str("ADVERSARIAL_HOTSPOT"),
    }
}

/// The fixed, closed scenario catalogue, in its output order.
pub fn catalogue() -> (r: Vec<Scenario>)
    ensures
        r@ =~= seq![
            Scenario::InitOnly,
            Scenario::ReadUnwritten,
            Scenario::WriteSequential,
            Scenario::WriteRandom,
            Scenario::Mixed { read_pct: 90 },
            Scenario::Mixed { read_pct: 80 },
            Scenario::Mixed { read_pct: 70 },
            Scenario::Mixed { read_pct: 50 },
            Scenario::Mixed { read_pct: 30 },
            Scenario::Mixed { read_pct: 10 },
            Scenario::AdversarialHotspot,
        ],
        forall|i: int| 0 <= i < r@.len() ==> scenario_wf(#[trigger] r@[i]),
{
    let mut v: Vec<Scenario> = Vec::new();
    v.push(Scenario::InitOnly);
    v.push(Scenario::ReadUnwritten);
    v.push(Scenario::WriteSequential);
    v.push(Scenario::WriteRandom);
    v.push(Scenario::Mixed { read_pct: 90 });
    v.push(Scenario::Mixed { read_pct: 80 });
    v.push(Scenario::Mixed { read_pct: 70 });
    v.push(Scenario::Mixed { read_pct: 50 });
    v.push(Scenario::Mixed { read_pct: 30 });
    v.push(Scenario::Mixed { read_pct: 10 });
    v.push(Scenario::AdversarialHotspot);
    v
}

} // verus!
