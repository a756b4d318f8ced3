use vstd::prelude::*;
use crate::random::MinecraftRandom;
use crate::random::derived_halves;
use crate::random::md5_of;
use crate::random::be_bytes;

verus! {

/// Why a stack of octaves cannot be built.
#[derive(Debug, Clone, Copy, PartialEq, Eq, Structural)]
pub enum ConfigError {
    /// No amplitudes were given.
    NoAmplitudes,
    /// One amplitude: the lowest frequency's value factor would divide by zero.
    SingleAmplitude,
}

/// Two to the `n`.
pub open spec fn pow2(n: nat) -> nat
    decreases n,
{
    if n == 0 { 1 } else { 2 * pow2((n - 1) as nat) }
}

/// The lowest frequency's value factor for `n + 1` octaves: `2^n / (2^n - 1)`
/// in truncating integer division.
pub open spec fn value_factor(n: nat) -> int {
    pow2(n) as int / (pow2(n) - 1)
}

/// The ASCII decimal digits of `n`.
pub open spec fn digits(n: nat) -> Seq<u8>
    decreases n,
{
    if n < 10 {
        seq![(48 + n) as u8]
    } else {
        digits(n / 10) + seq![(48 + n % 10) as u8]
    }
}

/// The decimal text of `n`, with a leading `-` when negative.
pub open spec fn decimal(n: int) -> Seq<u8> {
    if n < 0 { seq![45u8] + digits((-n) as nat) } else { digits(n as nat) }
}

/// The label that keys the generator of the octave with exponent `octave`:
/// `octave_` followed by its decimal text.
pub open spec fn octave_label(octave: int) -> Seq<u8> {
    seq![111u8, 99, 116, 97, 118, 101, 95] + decimal(octave)
}

/// Two to the `n` exceeds `n`.
proof fn lemma_pow2_grows(n: nat)
    ensures
        pow2(n) >= n + 1,
    decreases n,
{
    if n > 0 {
        lemma_pow2_grows((n - 1) as nat);
    }
}

/// Two to the `n` grows with `n`.
proof fn lemma_pow2_monotone(a: nat, b: nat)
    requires
        a <= b,
    ensures
        pow2(a) <= pow2(b),
    decreases b,
{
    if b > a {
        lemma_pow2_monotone(a, (b - 1) as nat);
    }
}

/// Beyond a single octave, the value factor truncates to 1.
proof fn lemma_value_factor_large(n: nat)
    requires
        n >= 2,
    ensures
        value_factor(n) == 1,
{
    lemma_pow2_grows(n);
    let p = pow2(n) as int;
    assert(p / (p - 1) == 1) by (nonlinear_arith)
        requires
            p >= 3,
    ;
}

/// The value factor of the lowest frequency for `amplitude_count` octaves;
/// fewer than two octaves leave it undefined.
pub fn lowest_freq_value_factor(amplitude_count: usize) -> (r: Result<u32, ConfigError>)
    ensures
        amplitude_count == 0 <==> r == Err::<u32, ConfigError>(ConfigError::NoAmplitudes),
        amplitude_count == 1 <==> r == Err::<u32, ConfigError>(ConfigError::SingleAmplitude),
        amplitude_count >= 2 ==> r == Ok::<u32, ConfigError>(
            value_factor((amplitude_count - 1) as nat) as u32,
        ),
        amplitude_count >= 2 ==> 1 <= value_factor((amplitude_count - 1) as nat) <= 2,
{
    if amplitude_count == 0 {
        return Err(ConfigError::NoAmplitudes);
    }
    if amplitude_count == 1 {
        return Err(ConfigError::SingleAmplitude);
    }
    let n = amplitude_count - 1;
    if n >= 32 {
        proof {
            lemma_value_factor_large(n as nat);
        }
        return Ok(1);
    }
    let mut p: u64 = 1;
    let mut k: usize = 0;
    while k < n
        invariant
            k <= n < 32,
            p == pow2(k as nat),
            p <= 0x8000_0000,
        decreases n - k,
    {
        proof {
            lemma_pow2_monotone((k + 1) as nat, 31);
            reveal_with_fuel(pow2, 32);
        }
        p = p * 2;
        k = k + 1;
        assert(p == pow2(k as nat));
    }
    proof {
        lemma_pow2_grows(n as nat);
        if n == 1 {
            reveal_with_fuel(pow2, 2);
            assert(pow2(1) == 2);
            assert(value_factor(1) == 2int / 1int);
        } else {
            lemma_value_factor_large(n as nat);
        }
    }
    Ok((p / (p - 1)) as u32)
}

/// Appends the decimal digits of `n`.
fn push_digits(out: &mut Vec<u8>, n: u128)
    ensures
        final(out)@ == old(out)@ + digits(n as nat),
    decreases n,
{
    if n >= 10 {
        push_digits(out, n / 10);
    }
    out.push((48 + n % 10) as u8);
    proof {
        if n >= 10 {
            assert(final(out)@ =~= old(out)@ + digits(n as nat));
        } else {
            assert(final(out)@ =~= old(out)@ + digits(n as nat));
        }
    }
}

/// The label of the octave `first_octave + index`, as bytes.
pub fn label_for_octave(first_octave: i32, index: usize) -> (r: Vec<u8>)
    ensures
        r@ == octave_label(first_octave as int + index as int),
{
    let mut out: Vec<u8> = vec![111u8, 99, 116, 97, 118, 101, 95];
    let octave = first_octave as i128 + index as i128;
    if octave < 0 {
        out.push(45u8);
        push_digits(&mut out, (-octave) as u128);
    } else {
        push_digits(&mut out, octave as u128);
    }
    assert(out@ =~= octave_label(first_octave as int + index as int));
    out
}

/// `generators` holds, for each octave marked in `present`, the child of
/// `rng` keyed by that octave's label, and nothing for the others.
pub open spec fn keyed_generators<R: MinecraftRandom>(
    generators: Seq<Option<R>>,
    present: Seq<bool>,
    first_octave: int,
    rng: R,
) -> bool {
    &&& generators.len() == present.len()
    &&& forall|i: int| 0 <= i < present.len() ==> (#[trigger] generators[i] is Some <==> present[i])
    &&& forall|i: int|
        0 <= i < present.len() && present[i] ==> {
            let g = (#[trigger] generators[i])->Some_0;
            &&& g.seed_halves() == derived_halves(
                rng.seed_halves(),
                md5_of(octave_label(first_octave + i)),
            )
            &&& g.stream_seed() == be_bytes(g.seed_halves().0) + be_bytes(g.seed_halves().1)
        }
}

/// Plans built for the same octaves from generators with the same seed agree:
/// the same octaves get a generator, and each is seeded alike.
pub proof fn lemma_plan_is_deterministic<R: MinecraftRandom>(
    g1: Seq<Option<R>>,
    g2: Seq<Option<R>>,
    present: Seq<bool>,
    first_octave: int,
    rng1: R,
    rng2: R,
)
    requires
        keyed_generators(g1, present, first_octave, rng1),
        keyed_generators(g2, present, first_octave, rng2),
        rng1.seed_halves() == rng2.seed_halves(),
    ensures
        g1.len() == g2.len(),
        forall|i: int| 0 <= i < g1.len() ==> (#[trigger] g1[i] is Some <==> g2[i] is Some),
        forall|i: int|
            0 <= i < g1.len() && #[trigger] g1[i] is Some ==> g1[i]->Some_0.seed_halves()
                == g2[i]->Some_0.seed_halves() && g1[i]->Some_0.stream_seed()
                == g2[i]->Some_0.stream_seed(),
{
    assert forall|i: int| 0 <= i < g1.len() && #[trigger] g1[i] is Some implies g1[i]->Some_0.seed_halves()
        == g2[i]->Some_0.seed_halves() && g1[i]->Some_0.stream_seed()
        == g2[i]->Some_0.stream_seed() by {
        assert(present[i]);
        assert(g2[i] is Some);
    }
}

/// What a stack of octaves needs beyond its amplitudes: the lowest
/// frequency's value factor, and one generator for each octave whose
/// amplitude is not zero.
pub struct OctavePlan<R> {
    pub lowest_freq_value_factor: u32,
    pub generators: Vec<Option<R>>,
}

impl<R: MinecraftRandom> OctavePlan<R> {
    /// The plan for octaves `first_octave, first_octave + 1, ...`, one for each
    /// entry of `present`, which marks those with a nonzero amplitude.
    pub fn new(present: &Vec<bool>, first_octave: i32, rng: &R) -> (r: Result<Self, ConfigError>)
        ensures
            present@.len() == 0 <==> r matches Err(ConfigError::NoAmplitudes),
            present@.len() == 1 <==> r matches Err(ConfigError::SingleAmplitude),
            present@.len() >= 2 ==> (r matches Ok(plan) && plan.lowest_freq_value_factor
                == value_factor((present@.len() - 1) as nat) && keyed_generators(
                plan.generators@,
                present@,
                first_octave as int,
                *rng,
            )),
    {
        let factor = match lowest_freq_value_factor(present.len()) {
            Ok(f) => f,
            Err(e) => {
                return Err(e);
            },
        };
        let mut generators: Vec<Option<R>> = Vec::new();
        let mut i: usize = 0;
        while i < present.len()
            invariant
                i <= present@.len(),
                keyed_generators(generators@, present@.subrange(0, i as int), first_octave as int, *rng),
            decreases present@.len() - i,
        {
            if present[i] {
                let label = label_for_octave(first_octave, i);
                generators.push(Some(rng.new_from_hash(label.as_slice())));
            } else {
                generators.push(None);
            }
            i = i + 1;
            assert(present@.subrange(0, i as int) =~= present@.subrange(0, i - 1).push(present@[i - 1]));
        }
        assert(present@.subrange(0, present@.len() as int) =~= present@);
        Ok(OctavePlan { lowest_freq_value_factor: factor, generators })
    }
}

} // verus!
