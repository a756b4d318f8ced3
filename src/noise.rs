use vstd::prelude::*;
use crate::random::MinecraftRandom;

verus! {

/// Draws fit for building a table: one per step, step `i` below `256 - i`.
pub open spec fn valid_draws(draws: Seq<usize>) -> bool {
    draws.len() == 256 && forall|i: int| 0 <= i < 256 ==> draws[i] < 256 - i
}

/// The first half of the table after `i` steps; step `s` with draw `j`
/// writes `s + j` at `s`, then `s` at `s + j`.
pub open spec fn table_after(draws: Seq<usize>, i: nat) -> Seq<int>
    decreases i,
{
    if i == 0 {
        Seq::new(256, |_k: int| 0)
    } else {
        let s = i - 1;
        let j = draws[s] as int;
        table_after(draws, s as nat).update(s, s + j).update(s + j, s)
    }
}

/// The whole table: the 256 entries built from `draws`, then the same again.
pub open spec fn table_of(draws: Seq<usize>) -> Seq<int> {
    table_after(draws, 256) + table_after(draws, 256)
}

/// `s` holds each of `0..256` exactly once.
pub open spec fn is_permutation(s: Seq<int>) -> bool {
    &&& s.len() == 256
    &&& forall|a: int| 0 <= a < 256 ==> 0 <= #[trigger] s[a] < 256
    &&& forall|a: int, b: int| 0 <= a < 256 && 0 <= b < 256 && a != b ==> s[a] != s[b]
}

/// The direction picked by a hash: its low four bits index the gradient set.
pub open spec fn gradient(hash: int) -> (int, int, int) {
    let g = hash % 16;
    if g == 0 { (1, 1, 0) }
    else if g == 1 { (-1, 1, 0) }
    else if g == 2 { (1, -1, 0) }
    else if g == 3 { (-1, -1, 0) }
    else if g == 4 { (1, 0, 1) }
    else if g == 5 { (-1, 0, 1) }
    else if g == 6 { (1, 0, -1) }
    else if g == 7 { (-1, 0, -1) }
    else if g == 8 { (0, 1, 1) }
    else if g == 9 { (0, -1, 1) }
    else if g == 10 { (0, 1, -1) }
    else if g == 11 { (0, -1, -1) }
    else if g == 12 { (1, 1, 0) }
    else if g == 13 { (0, -1, 1) }
    else if g == 14 { (-1, 1, 0) }
    else { (0, -1, -1) }
}

/// The direction of the gradient set that `hash` picks.
pub fn gradient_vector(hash: i16) -> (r: (i8, i8, i8))
    ensures
        (r.0 as int, r.1 as int, r.2 as int) == gradient(hash as int),
{
    let g = match hash.checked_rem_euclid(16) {
        Some(g) => g,
        None => 0,
    };
    if g == 0 { (1, 1, 0) }
    else if g == 1 { (-1, 1, 0) }
    else if g == 2 { (1, -1, 0) }
    else if g == 3 { (-1, -1, 0) }
    else if g == 4 { (1, 0, 1) }
    else if g == 5 { (-1, 0, 1) }
    else if g == 6 { (1, 0, -1) }
    else if g == 7 { (-1, 0, -1) }
    else if g == 8 { (0, 1, 1) }
    else if g == 9 { (0, -1, 1) }
    else if g == 10 { (0, 1, -1) }
    else if g == 11 { (0, -1, -1) }
    else if g == 12 { (1, 1, 0) }
    else if g == 13 { (0, -1, 1) }
    else if g == 14 { (-1, 1, 0) }
    else { (0, -1, -1) }
}

/// Each entry built so far is its index plus that step's draw, and every
/// entry stays in `0..256`.
proof fn lemma_table_after(draws: Seq<usize>, i: nat)
    requires
        valid_draws(draws),
        i <= 256,
    ensures
        table_after(draws, i).len() == 256,
        forall|m: int| 0 <= m < 256 ==> 0 <= #[trigger] table_after(draws, i)[m] < 256,
        forall|m: int| 0 <= m < i ==> #[trigger] table_after(draws, i)[m] == m + draws[m],
    decreases i,
{
    if i > 0 {
        lemma_table_after(draws, (i - 1) as nat);
    }
}

/// With no step moving an entry, each entry is its own index.
proof fn lemma_no_draw_is_identity(draws: Seq<usize>, k: int)
    requires
        valid_draws(draws),
        is_permutation(table_after(draws, 256)),
        0 <= k <= 256,
    ensures
        forall|m: int| k <= m < 256 ==> draws[m] == 0,
    decreases 256 - k,
{
    if k < 256 {
        lemma_no_draw_is_identity(draws, k + 1);
        lemma_table_after(draws, 256);
        let t = table_after(draws, 256);
        if draws[k] > 0 {
            let m = k + draws[k] as int;
            assert(t[m] == m);
            assert(t[k] == m);
        }
    }
}

/// The first half of a built table is a permutation of `0..256` exactly when
/// every draw was zero, and the second half always mirrors the first.
pub proof fn lemma_table_permutation(draws: Seq<usize>)
    requires
        valid_draws(draws),
    ensures
        is_permutation(table_of(draws).subrange(0, 256))
            <==> (forall|i: int| 0 <= i < 256 ==> draws[i] == 0),
        table_of(draws).len() == 512,
        forall|k: int| 0 <= k < 256 ==> #[trigger] table_of(draws)[256 + k] == table_of(draws)[k],
{
    lemma_table_after(draws, 256);
    let t = table_after(draws, 256);
    assert(table_of(draws).subrange(0, 256) =~= t);
    if is_permutation(t) {
        lemma_no_draw_is_identity(draws, 0);
    }
    if forall|i: int| 0 <= i < 256 ==> draws[i] == 0 {
        assert forall|a: int, b: int| 0 <= a < 256 && 0 <= b < 256 && a != b implies t[a] != t[b] by {
            assert(t[a] == a + draws[a]);
            assert(t[b] == b + draws[b]);
        }
    }
}

/// The permutation table of one octave: 512 entries, the second 256 a copy of
/// the first.
pub struct PermutationTable {
    permutation: Vec<i16>,
}

impl View for PermutationTable {
    type V = Seq<int>;

    closed spec fn view(&self) -> Seq<int> {
        self.permutation@.map_values(|v: i16| v as int)
    }
}

impl PermutationTable {
    /// 512 entries in `0..256`, the second half mirroring the first.
    pub open spec fn wf(&self) -> bool {
        &&& self@.len() == 512
        &&& forall|k: int| 0 <= k < 256 ==> 0 <= #[trigger] self@[k] < 256
        &&& forall|k: int| 0 <= k < 256 ==> #[trigger] self@[256 + k] == self@[k]
    }

    /// The entry that hashes `v`: the one at `v`'s low byte.
    pub open spec fn hash_index(&self, v: int) -> int {
        self@[v % 256]
    }

    /// The hash of a lattice corner: the hashes of x, then y, then z chained,
    /// each coordinate moved by the corner's bit on its axis.
    pub open spec fn corner_hash(&self, sx: int, sy: int, sz: int, bx: int, by: int, bz: int) -> int {
        self.hash_index(self.hash_index(self.hash_index(sx + bx) + sy + by) + sz + bz)
    }

    /// The table built from `draws`, step by step, then mirrored.
    pub fn from_draws(draws: &Vec<usize>) -> (r: Self)
        requires
            valid_draws(draws@),
        ensures
            r@ == table_of(draws@),
            r.wf(),
    {
        proof {
            lemma_table_after(draws@, 256);
        }
        let mut p: Vec<i16> = Vec::new();
        let mut k: usize = 0;
        while k < 512
            invariant
                k <= 512,
                p@.len() == k,
                forall|m: int| 0 <= m < k ==> p@[m] == 0,
            decreases 512 - k,
        {
            p.push(0);
            k = k + 1;
        }
        let mut i: usize = 0;
        while i < 256
            invariant
                i <= 256,
                valid_draws(draws@),
                p@.len() == 512,
                forall|m: int| 0 <= m < 256 ==> #[trigger] p@[m] as int == table_after(draws@, i as nat)[m],
            decreases 256 - i,
        {
            proof {
                lemma_table_after(draws@, i as nat);
            }
            let j = draws[i];
            p.set(i, (i + j) as i16);
            p.set(i + j, i as i16);
            i = i + 1;
        }
        let mut i: usize = 0;
        while i < 256
            invariant
                i <= 256,
                p@.len() == 512,
                forall|m: int| 0 <= m < 256 ==> #[trigger] p@[m] as int == table_after(draws@, 256)[m],
                forall|m: int| 0 <= m < i ==> #[trigger] p@[256 + m] == p@[m],
            decreases 256 - i,
        {
            let v = p[i];
            p.set(256 + i, v);
            i = i + 1;
        }
        let r = PermutationTable { permutation: p };
        assert forall|k: int| 0 <= k < 512 implies #[trigger] r@[k] == table_of(draws@)[k] by {
            if k >= 256 {
                assert(p@[256 + (k - 256)] == p@[k - 256]);
            }
        }
        assert(r@ =~= table_of(draws@));
        r
    }

    /// A table built from 256 draws of `rng`, step `i` drawing from `0..256 - i`.
    pub fn new<R: MinecraftRandom>(rng: &mut R) -> (r: Self)
        ensures
            final(rng).drawn().len() == old(rng).drawn().len() + 256,
            valid_draws(final(rng).drawn().subrange(old(rng).drawn().len() as int, final(rng).drawn().len() as int)),
            r@ == table_of(final(rng).drawn().subrange(old(rng).drawn().len() as int, final(rng).drawn().len() as int)),
            r.wf(),
            final(rng).seed_halves() == old(rng).seed_halves(),
            final(rng).stream_seed() == old(rng).stream_seed(),
    {
        let mut draws: Vec<usize> = Vec::new();
        let mut i: usize = 0;
        while i < 256
            invariant
                i <= 256,
                draws@.len() == i,
                forall|m: int| 0 <= m < i ==> draws@[m] < 256 - m,
                rng.seed_halves() == old(rng).seed_halves(),
                rng.stream_seed() == old(rng).stream_seed(),
                rng.drawn().len() == old(rng).drawn().len() + i,
                rng.drawn().subrange(old(rng).drawn().len() as int, rng.drawn().len() as int) == draws@,
            decreases 256 - i,
        {
            let j = rng.next_below(256 - i);
            draws.push(j);
            i = i + 1;
            assert(rng.drawn().subrange(old(rng).drawn().len() as int, rng.drawn().len() as int) =~= draws@);
        }
        PermutationTable::from_draws(&draws)
    }

    /// The hash of `v`: the table entry at its low byte.
    pub fn map(&self, v: i64) -> (r: i16)
        requires
            self.wf(),
        ensures
            r as int == self.hash_index(v as int),
            0 <= r < 256,
    {
        match v.checked_rem_euclid(256) {
            Some(m) => self.permutation[m as usize],
            None => 0,
        }
    }

    /// The hashes of the eight corners of lattice cell `(sx, sy, sz)`; corner
    /// `c` lies `c % 2` along x, `c / 2 % 2` along y and `c / 4` along z.
    pub fn corner_hashes(&self, sx: i32, sy: i32, sz: i32) -> (r: [i16; 8])
        requires
            self.wf(),
        ensures
            r@.map_values(|h: i16| h as int) == seq![
                self.corner_hash(sx as int, sy as int, sz as int, 0, 0, 0),
                self.corner_hash(sx as int, sy as int, sz as int, 1, 0, 0),
                self.corner_hash(sx as int, sy as int, sz as int, 0, 1, 0),
                self.corner_hash(sx as int, sy as int, sz as int, 1, 1, 0),
                self.corner_hash(sx as int, sy as int, sz as int, 0, 0, 1),
                self.corner_hash(sx as int, sy as int, sz as int, 1, 0, 1),
                self.corner_hash(sx as int, sy as int, sz as int, 0, 1, 1),
                self.corner_hash(sx as int, sy as int, sz as int, 1, 1, 1),
            ],
    {
        let x = sx as i64;
        let y = sy as i64;
        let z = sz as i64;
        let i = self.map(x) as i64;
        let j = self.map(x + 1) as i64;
        let k = self.map(i + y) as i64;
        let l = self.map(j + y) as i64;
        let m = self.map(i + y + 1) as i64;
        let n = self.map(j + y + 1) as i64;
        let r = [
            self.map(k + z),
            self.map(l + z),
            self.map(m + z),
            self.map(n + z),
            self.map(k + z + 1),
            self.map(l + z + 1),
            self.map(m + z + 1),
            self.map(n + z + 1),
        ];
        assert(r@.map_values(|h: i16| h as int) =~= seq![
            self.corner_hash(sx as int, sy as int, sz as int, 0, 0, 0),
            self.corner_hash(sx as int, sy as int, sz as int, 1, 0, 0),
            self.corner_hash(sx as int, sy as int, sz as int, 0, 1, 0),
            self.corner_hash(sx as int, sy as int, sz as int, 1, 1, 0),
            self.corner_hash(sx as int, sy as int, sz as int, 0, 0, 1),
            self.corner_hash(sx as int, sy as int, sz as int, 1, 0, 1),
            self.corner_hash(sx as int, sy as int, sz as int, 0, 1, 1),
            self.corner_hash(sx as int, sy as int, sz as int, 1, 1, 1),
        ]);
        r
    }
}

} // verus!
