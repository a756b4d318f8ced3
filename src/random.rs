use vstd::prelude::*;
use rand::Rng;
use rand::RngCore;
use rand::SeedableRng;
use rand_xoshiro::Xoroshiro128PlusPlus;

verus! {

#[verifier::external_type_specification]
#[verifier::external_body]
pub struct ExXoroshiro128PlusPlus(Xoroshiro128PlusPlus);

/// The sixteen bytes of the MD5 digest of `data`.
pub uninterp spec fn md5_of(data: Seq<u8>) -> Seq<u8>;

/// Relies on md5::compute: the digest of `data`, as its sixteen bytes.
#[verifier::external_body]
fn md5_digest(data: &[u8]) -> (r: [u8; 16])
    ensures
        r@ == md5_of(data@),
{
    md5::compute(data).0
}

/// Relies on Xoroshiro128PlusPlus::from_seed: a generator whose stream is
/// fixed by the sixteen seed bytes.
#[verifier::external_body]
fn xoroshiro_from_seed(seed: [u8; 16]) -> (r: Xoroshiro128PlusPlus) {
    Xoroshiro128PlusPlus::from_seed(seed)
}

/// Relies on rand's Rng::gen_range over `0..n`: one draw, below `n`; it
/// panics on an empty range, which `requires` leaves out.
#[verifier::external_body]
fn xoroshiro_below(rng: &mut Xoroshiro128PlusPlus, n: usize) -> (r: usize)
    requires
        n > 0,
    ensures
        r < n,
{
    rng.gen_range(0..n)
}

/// The eight big-endian bytes of `x`.
pub open spec fn be_bytes(x: u64) -> Seq<u8> {
    seq![
        (x >> 56u64) as u8,
        (x >> 48u64) as u8,
        (x >> 40u64) as u8,
        (x >> 32u64) as u8,
        (x >> 24u64) as u8,
        (x >> 16u64) as u8,
        (x >> 8u64) as u8,
        x as u8,
    ]
}

/// The integer whose big-endian bytes are `b[at..at + 8]`.
pub open spec fn from_be_bytes(b: Seq<u8>, at: int) -> u64 {
    ((b[at] as u64) << 56u64) | ((b[at + 1] as u64) << 48u64) | ((b[at + 2] as u64) << 40u64)
        | ((b[at + 3] as u64) << 32u64) | ((b[at + 4] as u64) << 24u64) | ((b[at + 5] as u64)
        << 16u64) | ((b[at + 6] as u64) << 8u64) | (b[at + 7] as u64)
}

/// The low 64 bits of a 128-bit seed.
pub open spec fn low_half(seed: i128) -> u64 {
    #[verifier::truncate] ((#[verifier::truncate] (seed as u128)) as u64)
}

/// The high 64 bits of a 128-bit seed.
pub open spec fn high_half(seed: i128) -> u64 {
    #[verifier::truncate] (((#[verifier::truncate] (seed as u128)) >> 64u128) as u64)
}

/// The halves of a child derived under a label with digest `digest`.
pub open spec fn derived_halves(halves: (u64, u64), digest: Seq<u8>) -> (u64, u64) {
    (from_be_bytes(digest, 0) ^ halves.0, from_be_bytes(digest, 8) ^ halves.1)
}

/// Derivation is a pure function of the parent's halves and the label's
/// digest: it can be undone by deriving again under the same digest, and two
/// children of one parent coincide only when the words of their digests do.
pub proof fn lemma_derivation_keyed_by_digest(halves: (u64, u64), d1: Seq<u8>, d2: Seq<u8>)
    ensures
        derived_halves(derived_halves(halves, d1), d1) == halves,
        derived_halves(halves, d1) == derived_halves(halves, d2) <==> (from_be_bytes(d1, 0)
            == from_be_bytes(d2, 0) && from_be_bytes(d1, 8) == from_be_bytes(d2, 8)),
{
    let (lo, hi) = halves;
    let (a0, a1) = (from_be_bytes(d1, 0), from_be_bytes(d1, 8));
    let (b0, b1) = (from_be_bytes(d2, 0), from_be_bytes(d2, 8));
    assert(a0 ^ (a0 ^ lo) == lo) by (bit_vector);
    assert(a1 ^ (a1 ^ hi) == hi) by (bit_vector);
    assert((a0 ^ lo) == (b0 ^ lo) <==> a0 == b0) by (bit_vector);
    assert((a1 ^ hi) == (b1 ^ hi) <==> a1 == b1) by (bit_vector);
}

/// The big-endian bytes of a word read from `b[at..at + 8]` are those bytes.
proof fn lemma_be_word_bytes(b: Seq<u8>, at: int)
    requires
        0 <= at,
        at + 8 <= b.len(),
    ensures
        be_bytes(from_be_bytes(b, at)) == b.subrange(at, at + 8),
{
    let (b0, b1, b2, b3) = (b[at], b[at + 1], b[at + 2], b[at + 3]);
    let (b4, b5, b6, b7) = (b[at + 4], b[at + 5], b[at + 6], b[at + 7]);
    let x = from_be_bytes(b, at);
    assert((x >> 56u64) as u8 == b0 && (x >> 48u64) as u8 == b1 && (x >> 40u64) as u8 == b2
        && (x >> 32u64) as u8 == b3 && (x >> 24u64) as u8 == b4 && (x >> 16u64) as u8 == b5
        && (x >> 8u64) as u8 == b6 && x as u8 == b7) by (bit_vector)
        requires
            x == ((b0 as u64) << 56u64) | ((b1 as u64) << 48u64) | ((b2 as u64) << 40u64) | ((
            b3 as u64) << 32u64) | ((b4 as u64) << 24u64) | ((b5 as u64) << 16u64) | ((b6 as u64)
                << 8u64) | (b7 as u64),
    ;
    assert(be_bytes(x) =~= b.subrange(at, at + 8));
}

/// Two children of one parent under sixteen-byte digests are seeded alike
/// exactly when the digests are equal: distinct labels whose digests differ
/// give distinct children.
pub proof fn lemma_distinct_digests_distinct_children(halves: (u64, u64), d1: Seq<u8>, d2: Seq<u8>)
    requires
        d1.len() == 16,
        d2.len() == 16,
    ensures
        derived_halves(halves, d1) == derived_halves(halves, d2) <==> d1 == d2,
{
    lemma_derivation_keyed_by_digest(halves, d1, d2);
    if derived_halves(halves, d1) == derived_halves(halves, d2) {
        lemma_be_word_bytes(d1, 0);
        lemma_be_word_bytes(d1, 8);
        lemma_be_word_bytes(d2, 0);
        lemma_be_word_bytes(d2, 8);
        assert(d1 =~= d1.subrange(0, 8) + d1.subrange(8, 16));
        assert(d2 =~= d2.subrange(0, 8) + d2.subrange(8, 16));
    }
}

/// A seeded generator with a label-keyed derivation of independent children.
pub trait MinecraftRandom: Sized {
    /// The low and high halves of the 128-bit seed.
    spec fn seed_halves(&self) -> (u64, u64);

    /// The sixteen bytes that the stream was initialised from.
    spec fn stream_seed(&self) -> Seq<u8>;

    /// The results of `next_below` so far, oldest first.
    spec fn drawn(&self) -> Seq<usize>;

    /// A generator seeded with `seed`; its stream starts from the seed's
    /// sixteen big-endian bytes.
    fn new(seed: i128) -> (r: Self)
        ensures
            r.seed_halves() == (low_half(seed), high_half(seed)),
            r.stream_seed() == be_bytes(high_half(seed)) + be_bytes(low_half(seed)),
            r.drawn() == Seq::<usize>::empty(),
    ;

    /// A fresh child generator keyed by `label`; `self` is not touched.
    fn new_from_hash(&self, label: &[u8]) -> (r: Self)
        ensures
            r.seed_halves() == derived_halves(self.seed_halves(), md5_of(label@)),
            r.stream_seed() == be_bytes(r.seed_halves().0) + be_bytes(r.seed_halves().1),
            r.drawn() == Seq::<usize>::empty(),
            md5_of(label@).len() == 16,
    ;

    /// One draw from `0..n`; the seed stays as it was.
    fn next_below(&mut self, n: usize) -> (r: usize)
        requires
            n > 0,
        ensures
            r < n,
            final(self).seed_halves() == old(self).seed_halves(),
            final(self).stream_seed() == old(self).stream_seed(),
            final(self).drawn() == old(self).drawn().push(r),
    ;
}

/// The 128-bit-state xoroshiro generator, keyed by a 128-bit seed.
pub struct MinecraftXoroshiro128 {
    pub seed_low: u64,
    pub seed_high: u64,
    pub rand: Xoroshiro128PlusPlus,
    pub seeded_with: Ghost<Seq<u8>>,
    pub drawn_log: Ghost<Seq<usize>>,
}

impl MinecraftXoroshiro128 {
    /// Relies on Xoroshiro128PlusPlus::next_u32: the next raw 32-bit output;
    /// the seed and the draw log stay as they were.
    #[verifier::external_body]
    pub fn next_u32(&mut self) -> (r: u32)
        ensures
            final(self).seed_halves() == old(self).seed_halves(),
            final(self).stream_seed() == old(self).stream_seed(),
            final(self).drawn() == old(self).drawn(),
    {
        self.rand.next_u32()
    }

    /// Relies on Xoroshiro128PlusPlus::next_u64: the next raw 64-bit output;
    /// the seed and the draw log stay as they were.
    #[verifier::external_body]
    pub fn next_u64(&mut self) -> (r: u64)
        ensures
            final(self).seed_halves() == old(self).seed_halves(),
            final(self).stream_seed() == old(self).stream_seed(),
            final(self).drawn() == old(self).drawn(),
    {
        self.rand.next_u64()
    }

    /// Relies on Xoroshiro128PlusPlus::fill_bytes: fills `dest` from the raw
    /// stream, keeping its length; the seed and the draw log stay as they were.
    #[verifier::external_body]
    pub fn fill_bytes(&mut self, dest: &mut [u8])
        ensures
            final(self).seed_halves() == old(self).seed_halves(),
            final(self).stream_seed() == old(self).stream_seed(),
            final(self).drawn() == old(self).drawn(),
            final(dest)@.len() == old(dest)@.len(),
    {
        self.rand.fill_bytes(dest)
    }
}

/// The sixteen bytes `be_bytes(a) + be_bytes(b)` as an array.
fn seed_array(a: u64, b: u64) -> (r: [u8; 16])
    ensures
        r@ == be_bytes(a) + be_bytes(b),
{
    let r = [
        (a >> 56u64) as u8,
        (a >> 48u64) as u8,
        (a >> 40u64) as u8,
        (a >> 32u64) as u8,
        (a >> 24u64) as u8,
        (a >> 16u64) as u8,
        (a >> 8u64) as u8,
        a as u8,
        (b >> 56u64) as u8,
        (b >> 48u64) as u8,
        (b >> 40u64) as u8,
        (b >> 32u64) as u8,
        (b >> 24u64) as u8,
        (b >> 16u64) as u8,
        (b >> 8u64) as u8,
        b as u8,
    ];
    assert(r@ =~= be_bytes(a) + be_bytes(b));
    r
}

/// The integer whose big-endian bytes are `b[at..at + 8]`.
fn read_be_u64(b: &[u8; 16], at: usize) -> (r: u64)
    requires
        at + 8 <= 16,
    ensures
        r == from_be_bytes(b@, at as int),
{
    ((b[at] as u64) << 56u64) | ((b[at + 1] as u64) << 48u64) | ((b[at + 2] as u64) << 40u64)
        | ((b[at + 3] as u64) << 32u64) | ((b[at + 4] as u64) << 24u64) | ((b[at + 5] as u64)
        << 16u64) | ((b[at + 6] as u64) << 8u64) | (b[at + 7] as u64)
}

impl MinecraftRandom for MinecraftXoroshiro128 {
    open spec fn seed_halves(&self) -> (u64, u64) {
        (self.seed_low, self.seed_high)
    }

    open spec fn stream_seed(&self) -> Seq<u8> {
        self.seeded_with@
    }

    open spec fn drawn(&self) -> Seq<usize> {
        self.drawn_log@
    }

    fn new(seed: i128) -> (r: Self) {
        let wide = #[verifier::truncate] (seed as u128);
        let low = #[verifier::truncate] (wide as u64);
        let high = #[verifier::truncate] ((wide >> 64u128) as u64);
        let bytes = seed_array(high, low);
        MinecraftXoroshiro128 {
            seed_low: low,
            seed_high: high,
            rand: xoroshiro_from_seed(bytes),
            seeded_with: Ghost(bytes@),
            drawn_log: Ghost(Seq::empty()),
        }
    }

    fn new_from_hash(&self, label: &[u8]) -> (r: Self) {
        let digest = md5_digest(label);
        let low = read_be_u64(&digest, 0) ^ self.seed_low;
        let high = read_be_u64(&digest, 8) ^ self.seed_high;
        let bytes = seed_array(low, high);
        MinecraftXoroshiro128 {
            seed_low: low,
            seed_high: high,
            rand: xoroshiro_from_seed(bytes),
            seeded_with: Ghost(bytes@),
            drawn_log: Ghost(Seq::empty()),
        }
    }

    fn next_below(&mut self, n: usize) -> (r: usize) {
        let r = xoroshiro_below(&mut self.rand, n);
        self.drawn_log = Ghost(self.drawn_log@.push(r));
        r
    }
}

} // verus!
