//! The baud rate of a signal, from the lengths of its low phases.
use vstd::prelude::*;

verus! {

/// The rate that a host sets to have the true one found out.
pub const MAGIC_BAUD: u32 = 9728;

/// Lengths that are collected at most.
pub const SAMPLE_CAP: usize = 512;

/// How long lengths are collected, in milliseconds.
pub const COLLECT_MS: u64 = 400;

/// Two lengths are the same where they differ by no more than one in this many.
pub const TOL_DIV: u32 = 20;

/// How often a length has to come up to be that of one bit.
pub const MIN_REPEAT: usize = 3;

/// Fewer lengths than this tell nothing.
pub const MIN_SAMPLES: usize = 8;

/// A vector of `heapless` with room for `N` items.
#[verifier::external_type_specification]
#[verifier::external_body]
#[verifier::reject_recursive_types(T)]
pub struct ExHeaplessVec<T, const N: usize>(heapless::Vec<T, N>);

/// The lengths that were collected, in order.
pub uninterp spec fn lengths(samples: heapless::Vec<u32, 512>) -> Seq<u32>;

/// Calls `heapless::Vec::new`. Trusted: nothing was collected.
#[verifier::external_body]
fn samples_new() -> (r: heapless::Vec<u32, 512>)
    ensures
        lengths(r) == Seq::<u32>::empty(),
{
    heapless::Vec::new()
}

/// Calls `heapless::Vec::push`. Trusted: the item is appended where there is room for it,
/// and otherwise nothing changes.
#[verifier::external_body]
fn samples_push(samples: &mut heapless::Vec<u32, 512>, v: u32)
    ensures
        lengths(*final(samples)) == if lengths(*old(samples)).len() < SAMPLE_CAP {
            lengths(*old(samples)).push(v)
        } else {
            lengths(*old(samples))
        },
{
    let _ = samples.push(v);
}

/// Calls `heapless::Vec::is_full`. Trusted: it is full with 512 items.
#[verifier::external_body]
fn samples_full(samples: &heapless::Vec<u32, 512>) -> (r: bool)
    ensures
        r == (lengths(*samples).len() == SAMPLE_CAP),
{
    samples.is_full()
}

/// Calls `heapless::Vec::as_slice`. Trusted: it holds the items in order.
#[verifier::external_body]
fn samples_slice(samples: &heapless::Vec<u32, 512>) -> (r: &[u32])
    ensures
        r@ == lengths(*samples),
{
    samples.as_slice()
}

/// The length of a low phase in clocks: the counter went down from its highest value once
/// every two clocks.
pub open spec fn clocks_of(raw: u32) -> u32 {
    let n = 2 * (0xFFFF_FFFF - raw);
    if n > 0xFFFF_FFFF {
        0xFFFF_FFFF
    } else {
        n as u32
    }
}

/// The lengths after the counter value `raw` came in; those of no more than one clock are
/// left out.
pub open spec fn collecting(s: Seq<u32>, raw: u32) -> Seq<u32> {
    if clocks_of(raw) > 1 && s.len() < SAMPLE_CAP {
        s.push(clocks_of(raw))
    } else {
        s
    }
}

/// `x` is the same length as `s`.
pub open spec fn same_length(x: u32, s: u32) -> bool {
    -((s / TOL_DIV) as int) <= x - s <= s / TOL_DIV
}

/// How many of the first `n` lengths are the same as `s`.
pub open spec fn repeats(samples: Seq<u32>, s: u32, n: int) -> int
    decreases n,
{
    if n <= 0 {
        0
    } else {
        repeats(samples, s, n - 1) + if same_length(samples[n - 1], s) {
            1int
        } else {
            0
        }
    }
}

/// The length came up often enough to be that of one bit.
pub open spec fn repeated(samples: Seq<u32>, s: u32) -> bool {
    repeats(samples, s, samples.len() as int) >= MIN_REPEAT
}

/// `m` is the shortest of the first `n` lengths that came up often enough.
pub open spec fn shortest(samples: Seq<u32>, n: int, m: u32) -> bool {
    &&& exists|i: int| 0 <= i < n && #[trigger] samples[i] == m && repeated(samples, m)
    &&& forall|i: int| 0 <= i < n && repeated(samples, #[trigger] samples[i]) ==> m <= samples[i]
}

/// None of the first `n` lengths came up often enough.
pub open spec fn none_repeated(samples: Seq<u32>, n: int) -> bool {
    forall|i: int| 0 <= i < n ==> !repeated(samples, #[trigger] samples[i])
}

/// `r` is the baud rate that some lengths tell: the clock over the shortest that came up at
/// least three times. None with fewer than eight lengths, where none came up so often, or
/// where that length is 0.
pub open spec fn is_rate(samples: Seq<u32>, pio_clk: u32, r: Option<u32>) -> bool {
    let n = samples.len() as int;
    &&& r is None <==> n < MIN_SAMPLES || none_repeated(samples, n) || shortest(samples, n, 0)
    &&& r matches Some(baud) ==> exists|m: u32|
        m > 0 && #[trigger] shortest(samples, n, m) && baud == pio_clk / m
}

/// The baud rate that some lengths tell.
pub fn estimate(samples: &[u32], pio_clk: u32) -> (r: Option<u32>)
    ensures
        is_rate(samples@, pio_clk, r),
{
    if samples.len() < MIN_SAMPLES {
        return None;
    }
    let mut best: Option<u32> = None;
    let mut i: usize = 0;
    while i < samples.len()
        invariant
            i <= samples@.len(),
            match best {
                None => none_repeated(samples@, i as int),
                Some(m) => shortest(samples@, i as int, m),
            },
        decreases samples.len() - i,
    {
        let s: u32 = samples[i];
        let count: usize = count_same(samples, s);
        if count >= MIN_REPEAT {
            best = match best {
                None => {
                    assert(samples@[i as int] == s);
                    Some(s)
                },
                Some(b) => {
                    if s < b {
                        assert(samples@[i as int] == s);
                        Some(s)
                    } else {
                        proof {
                            let k = choose|k: int|
                                0 <= k < i && #[trigger] samples@[k] == b && repeated(samples@, b);
                            assert(samples@[k] == b);
                        }
                        Some(b)
                    }
                },
            };
        } else {
            proof {
                if let Some(b) = best {
                    let k = choose|k: int|
                        0 <= k < i && #[trigger] samples@[k] == b && repeated(samples@, b);
                    assert(samples@[k] == b);
                }
            }
        }
        i = i + 1;
    }
    match best {
        None => {
            assert(!shortest(samples@, samples@.len() as int, 0));
            None
        },
        Some(m) => {
            proof {
                let n = samples@.len() as int;
                let k = choose|k: int|
                    0 <= k < n && #[trigger] samples@[k] == m && repeated(samples@, m);
                assert(!none_repeated(samples@, n));
                if shortest(samples@, n, 0) {
                    let z = choose|z: int|
                        0 <= z < n && #[trigger] samples@[z] == 0 && repeated(samples@, 0);
                    assert(samples@[z] == 0 && m <= samples@[z]);
                }
            }
            if m == 0 {
                return None;
            }
            Some(pio_clk / m)
        },
    }
}

fn count_same(samples: &[u32], s: u32) -> (r: usize)
    ensures
        r == repeats(samples@, s, samples@.len() as int),
{
    let tol: i64 = (s / TOL_DIV) as i64;
    let mut n: usize = 0;
    let mut k: usize = 0;
    while k < samples.len()
        invariant
            k <= samples@.len(),
            n <= k,
            tol == s / TOL_DIV,
            n == repeats(samples@, s, k as int),
        decreases samples.len() - k,
    {
        let d: i64 = samples[k] as i64 - s as i64;
        if -tol <= d && d <= tol {
            n = n + 1;
        }
        k = k + 1;
    }
    n
}

/// A measurement of the baud rate.
pub struct AutoBaud {
    pub samples: heapless::Vec<u32, 512>,
    /// The clock by which lengths are counted, in hertz.
    pub pio_clk: u32,
}

impl AutoBaud {
    /// The lengths collected so far.
    pub open spec fn collected(self) -> Seq<u32> {
        lengths(self.samples)
    }

    /// A measurement by a clock of `pio_clk` hertz, with nothing collected.
    pub fn new(pio_clk: u32) -> (r: Self)
        ensures
            r.pio_clk == pio_clk,
            r.collected() == Seq::<u32>::empty(),
    {
        AutoBaud { samples: samples_new(), pio_clk }
    }

    /// Starts over with nothing collected.
    pub fn restart(&mut self)
        ensures
            final(self).pio_clk == old(self).pio_clk,
            final(self).collected() == Seq::<u32>::empty(),
    {
        self.samples = samples_new();
    }

    /// Takes a counter value; says whether no more can be collected.
    pub fn collect(&mut self, raw: u32) -> (full: bool)
        ensures
            final(self).pio_clk == old(self).pio_clk,
            final(self).collected() == collecting(old(self).collected(), raw),
            full == (final(self).collected().len() == SAMPLE_CAP),
    {
        let down: u32 = u32::MAX - raw;
        let cycles: u32 = if down > u32::MAX / 2 {
            u32::MAX
        } else {
            2 * down
        };
        if cycles > 1 {
            samples_push(&mut self.samples, cycles);
        }
        samples_full(&self.samples)
    }

    /// The baud rate of what was collected.
    pub fn detect(&self) -> (r: Option<u32>)
        ensures
            is_rate(self.collected(), self.pio_clk, r),
    {
        estimate(samples_slice(&self.samples), self.pio_clk)
    }
}

/// Some lengths tell only one rate.
pub proof fn the_rate_is_unique(samples: Seq<u32>, pio_clk: u32, a: Option<u32>, b: Option<u32>)
    requires
        is_rate(samples, pio_clk, a),
        is_rate(samples, pio_clk, b),
    ensures
        a == b,
{
    let n = samples.len() as int;
    if a is Some {
        let ma = choose|m: u32| m > 0 && #[trigger] shortest(samples, n, m) && a->0 == pio_clk / m;
        let mb = choose|m: u32| m > 0 && #[trigger] shortest(samples, n, m) && b->0 == pio_clk / m;
        let i = choose|i: int| 0 <= i < n && #[trigger] samples[i] == ma && repeated(samples, ma);
        let j = choose|j: int| 0 <= j < n && #[trigger] samples[j] == mb && repeated(samples, mb);
        assert(samples[i] == ma && samples[j] == mb);
    }
}

/// What was collected is never longer than a line of 512 lengths, and none of them is 0.
pub proof fn collected_lengths_are_positive(s: Seq<u32>, raw: u32)
    requires
        s.len() <= SAMPLE_CAP,
        forall|i: int| 0 <= i < s.len() ==> #[trigger] s[i] > 1,
    ensures
        collecting(s, raw).len() <= SAMPLE_CAP,
        forall|i: int| 0 <= i < collecting(s, raw).len() ==> #[trigger] collecting(s, raw)[i] > 1,
{
}

/// The counter goes down by one every two clocks: after `n` it shows `n` less than at first,
/// and the length is twice that, or the longest there is.
pub proof fn lengths_are_twice_the_count(n: u32)
    ensures
        clocks_of((0xFFFF_FFFF - n) as u32) == if n < 0x8000_0000 {
            2 * n
        } else {
            0xFFFF_FFFF
        },
{
}

/// Up to 512 lengths are kept, in the order in which they came; only one of nothing is left
/// out.
pub proof fn lengths_are_kept_in_order(s: Seq<u32>, n: u32)
    ensures
        ({
            let after = collecting(s, (0xFFFF_FFFF - n) as u32);
            &&& n == 0 || s.len() >= 512 ==> after == s
            &&& 1 <= n < 0x8000_0000 && s.len() < 512 ==> after == s.push((2 * n) as u32)
            &&& n >= 0x8000_0000 && s.len() < 512 ==> after == s.push(0xFFFF_FFFF)
        }),
{
}

/// Two lengths are the same where they differ by no more than a twentieth of the one that
/// the other is held against.
pub proof fn lengths_agree_within_five_percent(x: u32, s: u32)
    ensures
        same_length(x, s) <==> 20 * (x - s) <= s && 20 * (s - x) <= s,
        same_length(s, s),
{
}

/// A length comes up once for each length that is the same.
pub proof fn repeats_count_one_by_one(samples: Seq<u32>, s: u32, x: u32)
    ensures
        repeats(Seq::empty(), s, 0) == 0,
        ({
            let n = samples.len() as int;
            repeats(samples.push(x), s, n + 1) == repeats(samples, s, n) + if same_length(x, s) {
                1int
            } else {
                0
            }
        }),
{
    repeats_go_by_the_front(samples, samples.push(x), s, samples.len() as int);
}

proof fn repeats_go_by_the_front(a: Seq<u32>, b: Seq<u32>, s: u32, n: int)
    requires
        0 <= n <= a.len() && n <= b.len(),
        forall|i: int| 0 <= i < n ==> a[i] == b[i],
    ensures
        repeats(a, s, n) == repeats(b, s, n),
    decreases n,
{
    if n > 0 {
        repeats_go_by_the_front(a, b, s, n - 1);
    }
}

/// The rate is the clock over the shortest length that came up three times: with at least
/// eight lengths, one of which, `samples[i]`, did so while no shorter one did, there is a
/// rate, and it is that. With fewer, or where none came up so often, there is none.
pub proof fn rates_come_from_the_shortest_length(
    samples: Seq<u32>,
    pio_clk: u32,
    r: Option<u32>,
    i: int,
)
    requires
        is_rate(samples, pio_clk, r),
    ensures
        ({
            let n = samples.len() as int;
            &&& n < 8 ==> r is None
            &&& (forall|j: int| 0 <= j < n ==> repeats(samples, #[trigger] samples[j], n) <= 2)
                ==> r is None
            &&& n >= 8 && 0 <= i < n && samples[i] > 0 && repeats(samples, samples[i], n) >= 3 && (
            forall|j: int|
                0 <= j < n && #[trigger] samples[j] < samples[i] ==> repeats(
                    samples,
                    samples[j],
                    n,
                ) <= 2) ==> r == Some(pio_clk / samples[i])
        }),
{
    let n = samples.len() as int;
    if n >= 8 && 0 <= i < n && samples[i] > 0 && repeats(samples, samples[i], n) >= 3 && (forall|
        j: int,
    |
        0 <= j < n && #[trigger] samples[j] < samples[i] ==> repeats(samples, samples[j], n) <= 2) {
        assert(repeated(samples, samples[i]));
        assert(shortest(samples, n, samples[i]));
        if shortest(samples, n, 0) {
            let z = choose|z: int|
                0 <= z < n && #[trigger] samples[z] == 0 && repeated(samples, 0);
            assert(samples[z] < samples[i]);
        }
        let m = choose|m: u32| m > 0 && #[trigger] shortest(samples, n, m) && r->0 == pio_clk / m;
        let k = choose|k: int| 0 <= k < n && #[trigger] samples[k] == m && repeated(samples, m);
        assert(samples[k] == m);
    }
    if forall|j: int| 0 <= j < n ==> repeats(samples, #[trigger] samples[j], n) <= 2 {
        assert(none_repeated(samples, n));
    }
}

} // verus!
