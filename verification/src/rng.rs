use vstd::prelude::*;
use rand::Rng;
use rand::SeedableRng;

verus! {

// The deterministic random stream behind every scenario execution.
//
// `rand`'s `StdRng` is a seeded generator: for one seed, the values it hands
// out are fixed by the sequence of requests made of it, and by nothing else.
// The model below therefore names each draw as a function of the seed and of
// the bounds of the draws requested before it; this is exactly the
// reproducibility the engine's contracts rest on.

#[verifier::external_type_specification]
#[verifier::external_body]
pub struct ExStdRng(rand::rngs::StdRng);

/// The value `rand`'s `StdRng` yields for a uniform draw below `bound`,
/// when seeded with `seed`, after draws whose bounds are listed in `past`.
pub uninterp spec fn std_rng_draw(seed: u64, past: Seq<u64>, bound: u64) -> u64;

/// A seeded pseudo-random stream, owned by one scenario execution, together
/// with the ghost record of the draws requested of it so far.
pub struct SeedStream {
    rng: rand::rngs::StdRng,
    seed: Ghost<u64>,
    past: Ghost<Seq<u64>>,
}

impl SeedStream {
    /// The seed this stream was created from.
    pub closed spec fn seed_of(&self) -> u64 {
        self.seed@
    }

    /// The bounds of the draws made so far, oldest first.
    pub closed spec fn past_of(&self) -> Seq<u64> {
        self.past@
    }

    /// A fresh stream seeded with `seed`, with no draws made yet.
    pub fn new(seed: u64) -> (r: SeedStream)
        ensures
            r.seed_of() == seed,
            r.past_of() == Seq::<u64>::empty(),
    {
        SeedStream { rng: std_rng_from_seed(seed), seed: Ghost(seed), past: Ghost(Seq::empty()) }
    }

    /// Relies on rand::Rng::gen_range over `0..bound`: the draw is uniform in
    /// `[0, bound)` (it panics on an empty range, which the precondition
    /// rules out), and on a seeded StdRng it is a fixed function of the seed
    /// and of the bounds of the draws made before it.
    #[verifier::external_body]
    pub fn gen_below(&mut self, bound: u64) -> (r: u64)
        requires
            1 <= bound,
        ensures
            r < bound,
            r == std_rng_draw(old(self).seed_of(), old(self).past_of(), bound),
            final(self).seed_of() == old(self).seed_of(),
            final(self).past_of() == old(self).past_of().push(bound),
    {
        self.rng.gen_range(0..bound)
    }
}

/// Relies on rand::SeedableRng::seed_from_u64 for StdRng: one seed gives one
/// fixed generator state.
#[verifier::external_body]
fn std_rng_from_seed(seed: u64) -> rand::rngs::StdRng {
    rand::rngs::StdRng::seed_from_u64(seed)
}

/// The bounds of `k` draws below `bound` appended to `past`.
pub open spec fn after_draws(past: Seq<u64>, bound: u64, k: nat) -> Seq<u64> {
    past + Seq::new(k, |_i: int| bound)
}

/// The `i`-th value of a run of draws below `bound` that starts at `past`.
pub open spec fn run_draw(seed: u64, past: Seq<u64>, bound: u64, i: nat) -> u64 {
    std_rng_draw(seed, after_draws(past, bound, i), bound)
}

/// The signed value a raw draw below 2001 stands for: a number in
/// `[-1000, 1000]`.
pub open spec fn val_of(d: u64) -> i64 {
    (d as int - 1000) as i64
}

/// One random value in `[-1000, 1000]`.
pub fn rand_val(s: &mut SeedStream) -> (r: i64)
    ensures
        r == val_of(std_rng_draw(old(s).seed_of(), old(s).past_of(), 2001)),
        -1000 <= r <= 1000,
        final(s).seed_of() == old(s).seed_of(),
        final(s).past_of() == old(s).past_of().push(2001),
{
    let d = s.gen_below(2001);
    (d as i64) - 1000
}

/// Pre-generates `m` uniform indices below `n`, in draw order.
pub fn mk_idx(s: &mut SeedStream, m: usize, n: usize) -> (r: Vec<usize>)
    requires
        1 <= n,
    ensures
        r@.len() == m,
        forall|i: int|
            0 <= i < m ==> (#[trigger] r@[i]) < n && r@[i] as u64 == run_draw(
                old(s).seed_of(),
                old(s).past_of(),
                n as u64,
                i as nat,
            ),
        final(s).seed_of() == old(s).seed_of(),
        final(s).past_of() == after_draws(old(s).past_of(), n as u64, m as nat),
{
    let ghost seed0 = s.seed_of();
    let ghost past0 = s.past_of();
    let mut out: Vec<usize> = Vec::new();
    let mut k: usize = 0;
    while k < m
        invariant
            k <= m,
            n >= 1,
            out@.len() == k,
            s.seed_of() == seed0,
            s.past_of() == after_draws(past0, n as u64, k as nat),
            forall|i: int|
                0 <= i < k ==> (#[trigger] out@[i]) < n && out@[i] as u64 == run_draw(
                    seed0,
                    past0,
                    n as u64,
                    i as nat,
                ),
        decreases m - k,
    {
        let d = s.gen_below(n as u64);
        out.push(d as usize);
        k = k + 1;
        proof {
            assert(s.past_of() =~= after_draws(past0, n as u64, k as nat));
        }
    }
    out
}

/// Pre-decides `m` operation kinds for a mixed scenario: `true` is a read.
/// Kind `i` holds exactly when a fresh uniform draw below 100 is under the
/// read percentage.
pub fn mk_kinds(s: &mut SeedStream, m: usize, read_pct: u8) -> (r: Vec<bool>)
    ensures
        r@.len() == m,
        forall|i: int|
            0 <= i < m ==> (#[trigger] r@[i]) == (run_draw(
                old(s).seed_of(),
                old(s).past_of(),
                100,
                i as nat,
            ) < read_pct as u64),
        final(s).seed_of() == old(s).seed_of(),
        final(s).past_of() == after_draws(old(s).past_of(), 100, m as nat),
{
    let ghost seed0 = s.seed_of();
    let ghost past0 = s.past_of();
    let mut out: Vec<bool> = Vec::new();
    let mut k: usize = 0;
    while k < m
        invariant
            k <= m,
            out@.len() == k,
            s.seed_of() == seed0,
            s.past_of() == after_draws(past0, 100, k as nat),
            forall|i: int|
                0 <= i < k ==> (#[trigger] out@[i]) == (run_draw(
                    seed0,
                    past0,
                    100,
                    i as nat,
                ) < read_pct as u64),
        decreases m - k,
    {
        let d = s.gen_below(100);
        out.push(d < read_pct as u64);
        k = k + 1;
        proof {
            assert(s.past_of() =~= after_draws(past0, 100, k as nat));
        }
    }
    out
}

} // verus!
