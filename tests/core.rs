use mcnoise::noise::gradient_vector;
use mcnoise::noise::PermutationTable;
use mcnoise::octaves::label_for_octave;
use mcnoise::octaves::lowest_freq_value_factor;
use mcnoise::octaves::ConfigError;
use mcnoise::octaves::OctavePlan;
use mcnoise::random::MinecraftRandom;
use mcnoise::random::MinecraftXoroshiro128;

fn identity_table() -> PermutationTable {
    PermutationTable::from_draws(&vec![0usize; 256])
}

#[test]
fn seed_splits_into_halves() {
    let r = MinecraftXoroshiro128::new(3658);
    assert_eq!(r.seed_low, 3658);
    assert_eq!(r.seed_high, 0);
    let r = MinecraftXoroshiro128::new(-1);
    assert_eq!(r.seed_low, u64::MAX);
    assert_eq!(r.seed_high, u64::MAX);
    let r = MinecraftXoroshiro128::new((5i128 << 64) | 7);
    assert_eq!(r.seed_low, 7);
    assert_eq!(r.seed_high, 5);
}

#[test]
fn derive_xors_digest_into_halves() {
    let parent = MinecraftXoroshiro128::new(3658);
    let child = parent.new_from_hash(b"octave_-3");
    assert_eq!(child.seed_low, 6040343492819600914);
    assert_eq!(child.seed_high, 13605873274787879742);
    assert_eq!(parent.seed_low, 3658);
    assert_eq!(parent.seed_high, 0);
    let empty = MinecraftXoroshiro128::new(0).new_from_hash(b"");
    assert_eq!(empty.seed_low, 15284527576400310788);
    assert_eq!(empty.seed_high, 16825458760271544958);
}

#[test]
fn derive_is_repeatable_and_label_dependent() {
    let parent = MinecraftXoroshiro128::new(42);
    let a = parent.new_from_hash(b"octave_1");
    let b = parent.new_from_hash(b"octave_1");
    let c = parent.new_from_hash(b"octave_2");
    assert_eq!((a.seed_low, a.seed_high), (b.seed_low, b.seed_high));
    assert_ne!((a.seed_low, a.seed_high), (c.seed_low, c.seed_high));
    let mut a = a;
    let mut b = b;
    let mut c = c;
    let da: Vec<usize> = (0..16).map(|_| a.next_below(1 << 20)).collect();
    let db: Vec<usize> = (0..16).map(|_| b.next_below(1 << 20)).collect();
    let dc: Vec<usize> = (0..16).map(|_| c.next_below(1 << 20)).collect();
    assert_eq!(da, db);
    assert_ne!(da, dc);
}

#[test]
fn draws_stay_below_bound() {
    let mut r = MinecraftXoroshiro128::new(3658);
    for n in 1..300usize {
        assert!(r.next_below(n) < n);
    }
    assert_eq!(r.seed_low, 3658);
}

#[test]
fn zero_draws_give_identity_table() {
    let t = identity_table();
    for v in 0..256i64 {
        assert_eq!(t.map(v), v as i16);
    }
    assert_eq!(t.map(256), 0);
    assert_eq!(t.map(-1), 255);
    assert_eq!(t.map(513), 1);
}

#[test]
fn table_keeps_both_writes_of_each_step() {
    let mut draws = vec![0usize; 256];
    draws[0] = 5;
    draws[1] = 4;
    let t = PermutationTable::from_draws(&draws);
    assert_eq!(t.map(0), 5);
    assert_eq!(t.map(1), 5);
    assert_eq!(t.map(5), 5);
    assert_eq!(t.map(2), 2);
}

#[test]
fn seeded_table_entries_lie_at_or_above_index() {
    let mut r1 = MinecraftXoroshiro128::new(3658).new_from_hash(b"octave_-3");
    let mut r2 = MinecraftXoroshiro128::new(3658).new_from_hash(b"octave_-3");
    let t1 = PermutationTable::new(&mut r1);
    let t2 = PermutationTable::new(&mut r2);
    for v in 0..256i64 {
        let e = t1.map(v);
        assert!(e as i64 >= v && e < 256);
        assert_eq!(e, t2.map(v));
        assert_eq!(e, t1.map(v + 256));
    }
    assert_eq!(t1.map(255), 255);
}

#[test]
fn corner_hashes_chain_axes() {
    let t = identity_table();
    assert_eq!(t.corner_hashes(1, 2, 3), [6, 7, 7, 8, 7, 8, 8, 9]);
    assert_eq!(t.corner_hashes(-1, 0, 0), [255, 0, 0, 1, 0, 1, 1, 2]);
}

#[test]
fn gradient_set_lookup() {
    assert_eq!(gradient_vector(0), (1, 1, 0));
    assert_eq!(gradient_vector(7), (-1, 0, -1));
    assert_eq!(gradient_vector(13), (0, -1, 1));
    assert_eq!(gradient_vector(16), (1, 1, 0));
    assert_eq!(gradient_vector(-1), (0, -1, -1));
}

#[test]
fn octave_labels_are_decimal() {
    assert_eq!(label_for_octave(-3, 0), b"octave_-3".to_vec());
    assert_eq!(label_for_octave(-3, 3), b"octave_0".to_vec());
    assert_eq!(label_for_octave(-3, 15), b"octave_12".to_vec());
    assert_eq!(label_for_octave(i32::MAX, 10), b"octave_2147483657".to_vec());
    assert_eq!(label_for_octave(i32::MIN, 0), b"octave_-2147483648".to_vec());
}

#[test]
fn value_factor_needs_two_octaves() {
    assert_eq!(lowest_freq_value_factor(0), Err(ConfigError::NoAmplitudes));
    assert_eq!(lowest_freq_value_factor(1), Err(ConfigError::SingleAmplitude));
    assert_eq!(lowest_freq_value_factor(2), Ok(2));
    assert_eq!(lowest_freq_value_factor(3), Ok(1));
    assert_eq!(lowest_freq_value_factor(32), Ok(1));
    assert_eq!(lowest_freq_value_factor(100), Ok(1));
}

#[test]
fn single_amplitude_is_a_configuration_error() {
    let rng = MinecraftXoroshiro128::new(3658);
    assert!(matches!(OctavePlan::new(&vec![true], 0, &rng), Err(ConfigError::SingleAmplitude)));
    assert!(matches!(OctavePlan::new(&vec![], 0, &rng), Err(ConfigError::NoAmplitudes)));
}

#[test]
fn zero_amplitude_octave_gets_no_generator() {
    let rng = MinecraftXoroshiro128::new(3658);
    let plan = OctavePlan::new(&vec![true, true, true, false], -3, &rng).unwrap();
    assert_eq!(plan.lowest_freq_value_factor, 1);
    assert_eq!(plan.generators.len(), 4);
    assert!(plan.generators[3].is_none());
    let g0 = plan.generators[0].as_ref().unwrap();
    assert_eq!((g0.seed_low, g0.seed_high), (6040343492819600914, 13605873274787879742));
    let g1 = plan.generators[1].as_ref().unwrap();
    assert_eq!((g1.seed_low, g1.seed_high), (13016051061665261873, 162122330481997252));
    let g2 = plan.generators[2].as_ref().unwrap();
    assert_eq!((g2.seed_low, g2.seed_high), (16139250376305408066, 13382012087969406121));
}

#[test]
fn table_is_built_from_the_generators_own_draws() {
    let mut r1 = MinecraftXoroshiro128::new(3658).new_from_hash(b"octave_-3");
    let mut r2 = MinecraftXoroshiro128::new(3658).new_from_hash(b"octave_-3");
    let t = PermutationTable::new(&mut r1);
    let draws: Vec<usize> = (0..256usize).map(|i| r2.next_below(256 - i)).collect();
    assert!(draws.iter().any(|d| *d != 0));
    let expected = PermutationTable::from_draws(&draws);
    for v in 0..512i64 {
        assert_eq!(t.map(v), expected.map(v));
    }
    assert_eq!(r1.next_u64(), r2.next_u64());
}

#[test]
fn raw_stream_passes_through() {
    let mut a = MinecraftXoroshiro128::new(3658);
    let mut b = MinecraftXoroshiro128::new(3658);
    let mut c = MinecraftXoroshiro128::new(3659);
    let wa = a.next_u64();
    assert_eq!(wa, b.next_u64());
    assert_ne!(wa, c.next_u64());
    assert_eq!(a.next_u32(), b.next_u64() as u32);
    let mut buf = [0u8; 11];
    a.fill_bytes(&mut buf);
    assert_eq!(buf.len(), 11);
    assert!(buf.iter().any(|x| *x != 0));
    assert_eq!(a.seed_low, 3658);
}

#[test]
fn distinct_labels_give_distinct_children() {
    let p = MinecraftXoroshiro128::new(3658);
    let labels: [&[u8]; 4] = [b"octave_-3", b"octave_-2", b"octave_-1", b"octave_0"];
    let halves: Vec<(u64, u64)> = labels
        .iter()
        .map(|l| {
            let c = p.new_from_hash(l);
            (c.seed_low, c.seed_high)
        })
        .collect();
    for i in 0..halves.len() {
        for j in i + 1..halves.len() {
            assert_ne!(halves[i], halves[j]);
        }
    }
}
