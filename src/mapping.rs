use vstd::prelude::*;
use crate::coords::ChunkPos;

verus! {

/// Number of buckets of a `ChunkMap`.
pub const NUM_BUCKETS: usize = 256;

/// One mixing round of the chunk-position hash: multiply-xor, then rotate left by 5 bits.
pub open spec fn mix(h: u64, v: u64) -> u64 {
    let m = h ^ v.wrapping_mul(0x9e3779b97f4a7c15u64);
    (m << 5u64) | (m >> 59u64)
}

/// The hash state after mixing in each byte of `bytes`, in order, starting from `h`.
pub open spec fn mix_bytes(h: u64, bytes: Seq<u8>) -> u64
    decreases bytes.len(),
{
    if bytes.len() == 0 {
        h
    } else {
        mix(mix_bytes(h, bytes.drop_last()), bytes.last() as u64)
    }
}

/// The four bytes of `v`, least significant first.
pub open spec fn i32_bytes(v: i32) -> Seq<u8> {
    let u = v as u32;
    seq![(u & 0xff) as u8, ((u >> 8u32) & 0xff) as u8, ((u >> 16u32) & 0xff) as u8, ((u >> 24u32) & 0xff) as u8]
}

/// The hash of a chunk position: its x then its z, byte by byte, from a zero state.
#[verifier::opaque]
pub open spec fn chunk_pos_hash(p: ChunkPos) -> u64 {
    mix_bytes(mix_bytes(0, i32_bytes(p.x)), i32_bytes(p.z))
}

/// The bucket that holds position `p`.
pub open spec fn bucket_of(p: ChunkPos) -> int {
    (chunk_pos_hash(p) % 256) as int
}

/// A hasher for chunk positions: plain multiply-xor-rotate mixing of the two coordinates,
/// which spreads neighbouring positions without the cost of a general-purpose hash.
pub struct ChunkPosHasher {
    hash: u64,
}

impl ChunkPosHasher {
    pub closed spec fn state(&self) -> u64 {
        self.hash
    }

    /// Mixes in each byte of `bytes`, in order.
    pub fn write(&mut self, bytes: &[u8])
        ensures
            final(self).state() == mix_bytes(old(self).state(), bytes@),
    {
        let ghost start = self.hash;
        let mut i: usize = 0;
        while i < bytes.len()
            invariant
                i <= bytes@.len(),
                self.hash == mix_bytes(start, bytes@.subrange(0, i as int)),
            decreases bytes@.len() - i,
        {
            let m = self.hash ^ (bytes[i] as u64).wrapping_mul(0x9e3779b97f4a7c15u64);
            self.hash = (m << 5u64) | (m >> 59u64);
            assert(bytes@.subrange(0, i + 1).drop_last() == bytes@.subrange(0, i as int));
            i = i + 1;
        }
        assert(bytes@.subrange(0, bytes@.len() as int) == bytes@);
    }

    /// Mixes in a whole 64-bit word.
    pub fn write_u64(&mut self, i: u64)
        ensures
            final(self).state() == mix(old(self).state(), i),
    {
        let m = self.hash ^ i.wrapping_mul(0x9e3779b97f4a7c15u64);
        self.hash = (m << 5u64) | (m >> 59u64);
    }

    pub fn finish(&self) -> (r: u64)
        ensures
            r == self.state(),
    {
        self.hash
    }
}

/// Makes fresh chunk-position hashers.
pub struct ChunkPosHasherBuilder;

impl ChunkPosHasherBuilder {
    pub fn build_hasher(&self) -> (r: ChunkPosHasher)
        ensures
            r.state() == 0,
    {
        ChunkPosHasher { hash: 0 }
    }
}

/// The four bytes of `v`, least significant first.
fn i32_bytes_of(v: i32) -> (r: [u8; 4])
    ensures
        r@ == i32_bytes(v),
{
    let u = v as u32;
    [(u & 0xff) as u8, ((u >> 8u32) & 0xff) as u8, ((u >> 16u32) & 0xff) as u8, ((u >> 24u32) & 0xff) as u8]
}

/// The hash of a chunk position.
pub fn hash_chunk_pos(p: &ChunkPos) -> (r: u64)
    ensures
        r == chunk_pos_hash(*p),
{
    let mut hasher = ChunkPosHasherBuilder.build_hasher();
    let bx = i32_bytes_of(p.x);
    let bz = i32_bytes_of(p.z);
    hasher.write(bx.as_slice());
    hasher.write(bz.as_slice());
    proof {
        reveal(chunk_pos_hash);
    }
    hasher.finish()
}

} // verus!

verus! {

/// A map from chunk positions to values: a fixed table of buckets chosen by
/// `chunk_pos_hash`, each bucket a list of entries with distinct positions.
pub struct ChunkMap<V> {
    buckets: Vec<Vec<(ChunkPos, V)>>,
    model: Ghost<Map<ChunkPos, V>>,
}

impl<V> ChunkMap<V> {
    /// The contents of the map.
    pub closed spec fn view(&self) -> Map<ChunkPos, V> {
        self.model@
    }

    pub closed spec fn wf(&self) -> bool {
        &&& self.buckets@.len() == 256
        &&& forall|b: int, i: int|
            0 <= b < 256 && 0 <= i < self.buckets@[b]@.len() ==> {
                let e = #[trigger] self.buckets@[b]@[i];
                &&& bucket_of(e.0) == b
                &&& self.model@.contains_key(e.0)
                &&& self.model@[e.0] == e.1
            }
        &&& forall|b: int, i: int, j: int|
            0 <= b < 256 && 0 <= i < self.buckets@[b]@.len() && 0 <= j < self.buckets@[b]@.len()
                && i != j ==> (#[trigger] self.buckets@[b]@[i]).0 != (
            #[trigger] self.buckets@[b]@[j]).0
        &&& forall|p: ChunkPos| #[trigger]
            self.model@.contains_key(p) ==> exists|i: int|
                0 <= i < self.buckets@[bucket_of(p)]@.len() && (
                #[trigger] self.buckets@[bucket_of(p)]@[i]).0 == p
    }

    pub fn new() -> (r: Self)
        ensures
            r.wf(),
            r.view() == Map::<ChunkPos, V>::empty(),
    {
        let mut buckets: Vec<Vec<(ChunkPos, V)>> = Vec::new();
        let mut i: usize = 0;
        while i < NUM_BUCKETS
            invariant
                i <= 256,
                buckets@.len() == i,
                forall|b: int| 0 <= b < i ==> (#[trigger] buckets@[b])@.len() == 0,
            decreases 256 - i,
        {
            buckets.push(Vec::new());
            i = i + 1;
        }
        ChunkMap { buckets, model: Ghost(Map::empty()) }
    }

    /// The slot of `p` in its bucket, if present.
    fn find(&self, p: &ChunkPos, b: usize) -> (r: Option<usize>)
        requires
            self.wf(),
            b == bucket_of(*p),
        ensures
            match r {
                Some(i) => i < self.buckets@[b as int]@.len() && self.buckets@[b as int]@[i as int].0
                    == *p,
                None => !self.view().contains_key(*p),
            },
    {
        let bucket = &self.buckets[b];
        let mut i: usize = 0;
        while i < bucket.len()
            invariant
                self.wf(),
                b == bucket_of(*p),
                *bucket == self.buckets@[b as int],
                i <= bucket@.len(),
                forall|j: int| 0 <= j < i ==> (#[trigger] bucket@[j]).0 != *p,
            decreases bucket@.len() - i,
        {
            if bucket[i].0 == *p {
                return Some(i);
            }
            i = i + 1;
        }
        None
    }

    pub fn contains_key(&self, p: &ChunkPos) -> (r: bool)
        requires
            self.wf(),
        ensures
            r == self.view().contains_key(*p),
    {
        let b = (hash_chunk_pos(p) % 256) as usize;
        match self.find(p, b) {
            Some(_) => true,
            None => false,
        }
    }

    pub fn get(&self, p: &ChunkPos) -> (r: Option<&V>)
        requires
            self.wf(),
        ensures
            match r {
                Some(v) => self.view().contains_key(*p) && *v == self.view()[*p],
                None => !self.view().contains_key(*p),
            },
    {
        let b = (hash_chunk_pos(p) % 256) as usize;
        match self.find(p, b) {
            Some(i) => Some(&self.buckets[b][i].1),
            None => None,
        }
    }

    /// Removes `p`, handing back its value if it was present.
    pub fn remove(&mut self, p: &ChunkPos) -> (r: Option<V>)
        requires
            old(self).wf(),
        ensures
            final(self).wf(),
            final(self).view() == old(self).view().remove(*p),
            match r {
                Some(v) => old(self).view().contains_key(*p) && v == old(self).view()[*p],
                None => !old(self).view().contains_key(*p),
            },
    {
        let b = (hash_chunk_pos(p) % 256) as usize;
        match self.find(p, b) {
            Some(i) => {
                let ghost old_buckets = self.buckets@;
                let ghost old_bucket = self.buckets@[b as int]@;
                let mut bucket = Vec::new();
                std::mem::swap(&mut bucket, &mut self.buckets[b]);
                let entry = bucket.swap_remove(i);
                std::mem::swap(&mut bucket, &mut self.buckets[b]);
                self.model = Ghost(self.model@.remove(*p));
                assert(self.buckets@ == old_buckets.update(b as int, self.buckets@[b as int]));
                assert(self.buckets@[b as int]@ == old_bucket.update(i as int, old_bucket.last()).drop_last());
                assert forall|q: ChunkPos| #[trigger]
                    self.model@.contains_key(q) implies exists|k: int|
                        0 <= k < self.buckets@[bucket_of(q)]@.len() && (
                        #[trigger] self.buckets@[bucket_of(q)]@[k]).0 == q by {
                    let k = choose|k: int|
                        0 <= k < old_buckets[bucket_of(q)]@.len() && (
                        #[trigger] old_buckets[bucket_of(q)]@[k]).0 == q;
                    if bucket_of(q) == b {
                        if k == old_bucket.len() - 1 {
                            assert(self.buckets@[bucket_of(q)]@[i as int].0 == q);
                        } else {
                            assert(self.buckets@[bucket_of(q)]@[k].0 == q);
                        }
                    } else {
                        assert(self.buckets@[bucket_of(q)]@[k].0 == q);
                    }
                }
                Some(entry.1)
            },
            None => {
                proof {
                    assert(self.model@.remove(*p) =~= self.model@);
                }
                None
            },
        }
    }

    /// Sets the value of `p`, replacing any earlier one.
    pub fn insert(&mut self, p: ChunkPos, v: V)
        requires
            old(self).wf(),
        ensures
            final(self).wf(),
            final(self).view() == old(self).view().insert(p, v),
    {
        let _ = self.remove(&p);
        let b = (hash_chunk_pos(&p) % 256) as usize;
        let ghost old_buckets = self.buckets@;
        let ghost old_model = self.model@;
        let ghost entry = (p, v);
        let mut bucket = Vec::new();
        std::mem::swap(&mut bucket, &mut self.buckets[b]);
        bucket.push((p, v));
        std::mem::swap(&mut bucket, &mut self.buckets[b]);
        self.model = Ghost(old_model.insert(p, entry.1));
        assert(self.buckets@ == old_buckets.update(b as int, self.buckets@[b as int]));
        assert(self.buckets@[b as int]@ == old_buckets[b as int]@.push(entry));
        assert forall|q: ChunkPos| #[trigger]
            self.model@.contains_key(q) implies exists|k: int|
                0 <= k < self.buckets@[bucket_of(q)]@.len() && (
                #[trigger] self.buckets@[bucket_of(q)]@[k]).0 == q by {
            if q == p {
                assert(self.buckets@[b as int]@[old_buckets[b as int]@.len() as int].0 == q);
            } else {
                let k = choose|k: int|
                    0 <= k < old_buckets[bucket_of(q)]@.len() && (
                    #[trigger] old_buckets[bucket_of(q)]@[k]).0 == q;
                assert(self.buckets@[bucket_of(q)]@[k].0 == q);
            }
        }
    }

    /// Every position in the map, each once.
    pub fn keys(&self) -> (r: Vec<ChunkPos>)
        requires
            self.wf(),
        ensures
            r@.no_duplicates(),
            forall|i: int| 0 <= i < r@.len() ==> self.view().contains_key(#[trigger] r@[i]),
            forall|p: ChunkPos| #[trigger] self.view().contains_key(p) ==> r@.contains(p),
    {
        let mut r: Vec<ChunkPos> = Vec::new();
        let mut b: usize = 0;
        while b < NUM_BUCKETS
            invariant
                self.wf(),
                b <= 256,
                r@.no_duplicates(),
                forall|i: int| 0 <= i < r@.len() ==> self.view().contains_key(#[trigger] r@[i])
                    && bucket_of(r@[i]) < b,
                forall|p: ChunkPos| #[trigger]
                    self.view().contains_key(p) && bucket_of(p) < b ==> r@.contains(p),
            decreases 256 - b,
        {
            let bucket = &self.buckets[b];
            let ghost start = r@;
            let mut i: usize = 0;
            while i < bucket.len()
                invariant
                    self.wf(),
                    b < 256,
                    *bucket == self.buckets@[b as int],
                    i <= bucket@.len(),
                    r@.no_duplicates(),
                    start.len() <= r@.len(),
                    r@.subrange(0, start.len() as int) == start,
                    forall|k: int| 0 <= k < start.len() ==> bucket_of(#[trigger] start[k]) < b,
                    forall|k: int|
                        start.len() <= k < r@.len() ==> #[trigger] r@[k] == bucket@[k - start.len()].0,
                    r@.len() == start.len() + i,
                    forall|k: int| 0 <= k < r@.len() ==> self.view().contains_key(#[trigger] r@[k])
                        && bucket_of(r@[k]) <= b,
                    forall|p: ChunkPos| #[trigger]
                        self.view().contains_key(p) && bucket_of(p) < b ==> start.contains(p),
                    forall|k: int| 0 <= k < i ==> r@.contains(#[trigger] bucket@[k].0),
                decreases bucket@.len() - i,
            {
                let key = bucket[i].0;
                assert(bucket_of(key) == b);
                assert forall|k: int| 0 <= k < r@.len() implies r@[k] != key by {
                    if k < start.len() {
                        assert(bucket_of(start[k]) < b);
                    } else {
                        assert(r@[k] == bucket@[k - start.len()].0);
                    }
                }
                let ghost before = r@;
                r.push(key);
                assert forall|k: int| 0 <= k < i + 1 implies r@.contains(#[trigger] bucket@[k].0) by {
                    if k < i {
                        let w = choose|w: int| 0 <= w < before.len() && before[w] == bucket@[k].0;
                        assert(r@[w] == bucket@[k].0);
                    } else {
                        assert(r@[r@.len() - 1] == bucket@[k].0);
                    }
                }
                assert(r@.subrange(0, start.len() as int) == start);
                i = i + 1;
            }
            assert forall|p: ChunkPos| #[trigger]
                self.view().contains_key(p) && bucket_of(p) < b + 1 implies r@.contains(p) by {
                if bucket_of(p) < b {
                    let w = choose|w: int| 0 <= w < start.len() && start[w] == p;
                    assert(r@[w] == p);
                } else {
                    let k = choose|k: int|
                        0 <= k < self.buckets@[bucket_of(p)]@.len() && (
                        #[trigger] self.buckets@[bucket_of(p)]@[k]).0 == p;
                    assert(r@.contains(bucket@[k].0));
                }
            }
            b = b + 1;
        }
        r
    }
}

} // verus!
