//! Collapsing repeated values into a list of unique values plus an index map
//! back to the positions of the input.

use std::collections::HashMap;
use vstd::prelude::*;

verus! {

broadcast use vstd::std_specs::hash::group_hash_axioms;

/// The distinct values of `s`, each once, in the order of their first
/// occurrence.
pub open spec fn first_occurrences<A>(s: Seq<A>) -> Seq<A>
    decreases s.len(),
{
    if s.len() == 0 {
        Seq::empty()
    } else {
        let prev = first_occurrences(s.drop_last());
        if prev.contains(s.last()) {
            prev
        } else {
            prev.push(s.last())
        }
    }
}

/// `map` sends every position of `values` to the position of its value in
/// `unique`, and `first` sends every position of `unique` to the first
/// position of `values` that holds that value.
pub open spec fn is_index_map<A>(values: Seq<A>, unique: Seq<A>, map: Seq<usize>, first: Seq<usize>) -> bool {
    &&& map.len() == values.len()
    &&& first.len() == unique.len()
    &&& forall|i: int|
        0 <= i < values.len() ==> (#[trigger] map[i] as int) < unique.len() && unique[map[i] as int]
            == values[i]
    &&& forall|u: int|
        0 <= u < unique.len() ==> (#[trigger] first[u] as int) < values.len() && map[first[u] as int]
            == u && forall|i: int| 0 <= i < first[u] ==> values[i] != unique[u]
}

/// The outcome of de-duplicating a list of values.
pub struct Dedup<T> {
    /// The distinct values, in the order of their first occurrence.
    pub unique: Vec<T>,
    /// For each input position, the position of its value in `unique`.
    pub map: Vec<usize>,
    /// For each unique value, the first input position that holds it.
    pub first: Vec<usize>,
}

/// The first occurrences hold no value twice, hold exactly the values of
/// `s`, and are no more than `s`.
pub proof fn lemma_first_occurrences<A>(s: Seq<A>)
    ensures
        first_occurrences(s).no_duplicates(),
        forall|x: A| first_occurrences(s).contains(x) <==> s.contains(x),
        first_occurrences(s).len() <= s.len(),
    decreases s.len(),
{
    if s.len() > 0 {
        let prev = s.drop_last();
        lemma_first_occurrences(prev);
        assert forall|x: A| s.contains(x) <==> prev.contains(x) || x == s.last() by {
            if s.contains(x) {
                let i = choose|i: int| 0 <= i < s.len() && s[i] == x;
                if i < s.len() - 1 {
                    assert(prev[i] == x);
                }
            }
            if prev.contains(x) {
                let i = choose|i: int| 0 <= i < prev.len() && prev[i] == x;
                assert(s[i] == x);
            }
            if x == s.last() {
                assert(s[s.len() - 1] == x);
            }
        }
        let fp = first_occurrences(prev);
        if !fp.contains(s.last()) {
            assert forall|x: A| fp.push(s.last()).contains(x) <==> fp.contains(x) || x == s.last() by {
                if fp.push(s.last()).contains(x) {
                    let i = choose|i: int| 0 <= i < fp.len() + 1 && fp.push(s.last())[i] == x;
                    if i < fp.len() {
                        assert(fp[i] == x);
                    }
                }
                if fp.contains(x) {
                    let i = choose|i: int| 0 <= i < fp.len() && fp[i] == x;
                    assert(fp.push(s.last())[i] == x);
                }
                if x == s.last() {
                    assert(fp.push(s.last())[fp.len() as int] == x);
                }
            }
        }
    }
}

/// De-duplicates frequencies (in Hz) by exact integer equality.
pub fn dedup_freqs(freqs: &Vec<u32>) -> (r: Dedup<u32>)
    ensures
        r.unique@ == first_occurrences(freqs@),
        is_index_map(freqs@, r.unique@, r.map@, r.first@),
{
    let mut unique: Vec<u32> = Vec::new();
    let mut map: Vec<usize> = Vec::new();
    let mut first: Vec<usize> = Vec::new();
    let mut index: HashMap<u32, usize> = HashMap::new();
    let mut i: usize = 0;
    while i < freqs.len()
        invariant
            i <= freqs.len(),
            unique@ == first_occurrences(freqs@.subrange(0, i as int)),
            is_index_map(freqs@.subrange(0, i as int), unique@, map@, first@),
            forall|k: u32| #[trigger] index@.contains_key(k) <==> unique@.contains(k),
            forall|k: u32|
                #[trigger] index@.contains_key(k) ==> (index@[k] as int) < unique.len()
                    && unique@[index@[k] as int] == k,
        decreases freqs.len() - i,
    {
        let f = freqs[i];
        let ghost prev = freqs@.subrange(0, i as int);
        let ghost next = freqs@.subrange(0, i as int + 1);
        assert(next.drop_last() == prev);
        assert(next.last() == f);
        proof {
            lemma_first_occurrences(prev);
        }
        match index.get(&f) {
            Some(u) => {
                map.push(*u);
            },
            None => {
                let u = unique.len();
                let ghost before = unique@;
                unique.push(f);
                assert(unique@ == before.push(f));
                map.push(u);
                first.push(i);
                index.insert(f, u);
                assert(unique@[u as int] == f);
                assert forall|k: u32| #[trigger] index@.contains_key(k) <==> unique@.contains(k) by {
                    if unique@.contains(k) && k != f {
                        let j = choose|j: int| 0 <= j < unique@.len() && unique@[j] == k;
                        assert(before[j] == k);
                    }
                    if before.contains(k) {
                        let j = choose|j: int| 0 <= j < before.len() && before[j] == k;
                        assert(unique@[j] == k);
                    }
                    if k == f {
                        assert(unique@[u as int] == k);
                    }
                }
            },
        }
        assert forall|j: int| 0 <= j < next.len() implies (#[trigger] map@[j] as int) < unique@.len()
            && unique@[map@[j] as int] == next[j] by {
            if j < prev.len() {
                assert(next[j] == prev[j]);
            }
        }
        assert forall|v: int| 0 <= v < unique@.len() implies (#[trigger] first@[v] as int)
            < next.len() && map@[first@[v] as int] == v && forall|j: int|
            0 <= j < first@[v] ==> next[j] != unique@[v] by {
            assert forall|j: int| 0 <= j < first@[v] implies next[j] != unique@[v] by {
                if j < prev.len() {
                    assert(next[j] == prev[j]);
                    if v == unique@.len() - 1 && unique@.len() > first_occurrences(prev).len() {
                        assert(prev.contains(prev[j]));
                    }
                }
            }
        }
        i = i + 1;
    }
    assert(freqs@.subrange(0, freqs.len() as int) == freqs@);
    Dedup { unique, map, first }
}

/// The configuration of one tile: a delay for each of its dipoles, and a gain
/// for each dipole (or for each dipole and polarisation), held as the IEEE-754
/// bit patterns of the gains so that two configurations are the same exactly
/// when their bits are.
pub struct TileConfig {
    pub delays: Vec<u32>,
    pub amp_bits: Vec<u64>,
}

impl View for TileConfig {
    type V = (Seq<u32>, Seq<u64>);

    open spec fn view(&self) -> (Seq<u32>, Seq<u64>) {
        (self.delays@, self.amp_bits@)
    }
}

/// The views of a list of tile configurations.
pub open spec fn config_views(tiles: Seq<TileConfig>) -> Seq<(Seq<u32>, Seq<u64>)> {
    tiles.map_values(|t: TileConfig| t@)
}

/// A copy of `v`.
pub fn copy_vec<T: Copy>(v: &Vec<T>) -> (r: Vec<T>)
    ensures
        r@ == v@,
{
    let mut r: Vec<T> = Vec::new();
    let mut i: usize = 0;
    while i < v.len()
        invariant
            i <= v.len(),
            r@ == v@.subrange(0, i as int),
        decreases v.len() - i,
    {
        r.push(v[i]);
        i = i + 1;
    }
    r
}

impl TileConfig {
    /// A copy of this configuration.
    pub fn copy(&self) -> (r: TileConfig)
        ensures
            r@ == self@,
    {
        TileConfig { delays: copy_vec(&self.delays), amp_bits: copy_vec(&self.amp_bits) }
    }

    /// Whether the two configurations are equal element by element.
    pub fn same_as(&self, other: &TileConfig) -> (r: bool)
        ensures
            r == (self@ == other@),
    {
        if self.delays.len() != other.delays.len() || self.amp_bits.len() != other.amp_bits.len() {
            return false;
        }
        let mut i: usize = 0;
        while i < self.delays.len()
            invariant
                i <= self.delays.len(),
                self.delays.len() == other.delays.len(),
                forall|j: int| 0 <= j < i ==> self.delays@[j] == other.delays@[j],
            decreases self.delays.len() - i,
        {
            if self.delays[i] != other.delays[i] {
                return false;
            }
            i = i + 1;
        }
        assert(self.delays@ == other.delays@);
        let mut k: usize = 0;
        while k < self.amp_bits.len()
            invariant
                k <= self.amp_bits.len(),
                self.amp_bits.len() == other.amp_bits.len(),
                forall|j: int| 0 <= j < k ==> self.amp_bits@[j] == other.amp_bits@[j],
            decreases self.amp_bits.len() - k,
        {
            if self.amp_bits[k] != other.amp_bits[k] {
                return false;
            }
            k = k + 1;
        }
        assert(self.amp_bits@ == other.amp_bits@);
        true
    }
}

/// The multiplier of the key that sorts tile configurations into buckets.
pub const KEY_PRIME: u64 = 1099511628211;

/// The starting value of the key that sorts tile configurations into buckets.
pub const KEY_BASIS: u64 = 14695981039346656037;

/// One step of the key: `x` is mixed into `acc`, modulo 2^64.
pub open spec fn mix(acc: u64, x: u64) -> u64 {
    (((acc ^ x) as nat * KEY_PRIME as nat) % 0x1_0000_0000_0000_0000nat) as u64
}

/// The key after mixing every value of `s`, in order, into `acc`.
pub open spec fn fold_key(acc: u64, s: Seq<u64>) -> u64
    decreases s.len(),
{
    if s.len() == 0 {
        acc
    } else {
        mix(fold_key(acc, s.drop_last()), s.last())
    }
}

/// The delays of a configuration, widened.
pub open spec fn wide(delays: Seq<u32>) -> Seq<u64> {
    delays.map_values(|d: u32| d as u64)
}

/// The key of a tile configuration: its delays and then its gain bits mixed
/// into the starting value. Equal configurations have equal keys; the key
/// only sorts configurations into buckets and never decides equality.
pub open spec fn config_key(c: (Seq<u32>, Seq<u64>)) -> u64 {
    fold_key(fold_key(KEY_BASIS, wide(c.0)), c.1)
}

/// Mixes every value of `s` into `acc`.
fn fold_values(acc: u64, s: &Vec<u64>) -> (r: u64)
    ensures
        r == fold_key(acc, s@),
{
    let mut k = acc;
    let mut i: usize = 0;
    while i < s.len()
        invariant
            i <= s@.len(),
            k == fold_key(acc, s@.subrange(0, i as int)),
        decreases s@.len() - i,
    {
        assert(s@.subrange(0, i as int + 1).drop_last() == s@.subrange(0, i as int));
        k = (k ^ s[i]).wrapping_mul(KEY_PRIME);
        i = i + 1;
    }
    assert(s@.subrange(0, s@.len() as int) == s@);
    k
}

impl TileConfig {
    /// The key of this configuration.
    pub fn key(&self) -> (r: u64)
        ensures
            r == config_key(self@),
    {
        let mut k = KEY_BASIS;
        let mut i: usize = 0;
        while i < self.delays.len()
            invariant
                i <= self.delays@.len(),
                k == fold_key(KEY_BASIS, wide(self.delays@.subrange(0, i as int))),
            decreases self.delays@.len() - i,
        {
            let ghost next = wide(self.delays@.subrange(0, i as int + 1));
            assert(next.drop_last() == wide(self.delays@.subrange(0, i as int)));
            assert(next.last() == self.delays@[i as int] as u64);
            k = (k ^ (self.delays[i] as u64)).wrapping_mul(KEY_PRIME);
            i = i + 1;
        }
        assert(self.delays@.subrange(0, self.delays@.len() as int) == self.delays@);
        fold_values(k, &self.amp_bits)
    }
}

/// The position of a configuration equal to `t` among the positions of
/// `unique` that `bucket` lists, if any.
fn find_in_bucket(unique: &Vec<TileConfig>, bucket: &Vec<usize>, t: &TileConfig) -> (r: Option<usize>)
    requires
        forall|j: int| 0 <= j < bucket@.len() ==> (#[trigger] bucket@[j] as int) < unique@.len(),
    ensures
        match r {
            Some(u) => u < unique.len() && unique@[u as int]@ == t@,
            None => forall|j: int| 0 <= j < bucket@.len() ==> unique@[#[trigger] bucket@[j] as int]@ != t@,
        },
{
    let mut j: usize = 0;
    while j < bucket.len()
        invariant
            j <= bucket@.len(),
            forall|a: int| 0 <= a < bucket@.len() ==> (#[trigger] bucket@[a] as int) < unique@.len(),
            forall|a: int| 0 <= a < j ==> unique@[#[trigger] bucket@[a] as int]@ != t@,
        decreases bucket@.len() - j,
    {
        let u = bucket[j];
        if unique[u].same_as(t) {
            return Some(u);
        }
        j = j + 1;
    }
    None
}

/// Every configuration of `unique` is listed in the bucket of its key, and
/// every bucket lists positions of `unique` only.
pub open spec fn buckets_cover(index: Map<u64, Vec<usize>>, unique: Seq<TileConfig>) -> bool {
    &&& forall|u: int|
        0 <= u < unique.len() ==> index.contains_key(config_key(#[trigger] unique[u]@))
            && index[config_key(unique[u]@)]@.contains(u as usize)
    &&& forall|k: u64|
        #[trigger] index.contains_key(k) ==> forall|j: int|
            0 <= j < index[k]@.len() ==> (#[trigger] index[k]@[j] as int) < unique.len()
}

/// De-duplicates tile configurations by exact equality of their delays and
/// gains. A delay that marks a dead dipole is a value like any other, so a
/// tile with it never shares a unique position with a tile that has a real
/// delay there. Configurations are sorted into buckets by their key, and
/// only those in the same bucket are compared.
pub fn dedup_tiles(tiles: &Vec<TileConfig>) -> (r: Dedup<TileConfig>)
    ensures
        config_views(r.unique@) == first_occurrences(config_views(tiles@)),
        is_index_map(config_views(tiles@), config_views(r.unique@), r.map@, r.first@),
{
    let ghost vs = config_views(tiles@);
    let mut unique: Vec<TileConfig> = Vec::new();
    let mut map: Vec<usize> = Vec::new();
    let mut first: Vec<usize> = Vec::new();
    let mut index: HashMap<u64, Vec<usize>> = HashMap::new();
    let mut i: usize = 0;
    while i < tiles.len()
        invariant
            i <= tiles.len(),
            vs == config_views(tiles@),
            config_views(unique@) == first_occurrences(vs.subrange(0, i as int)),
            is_index_map(vs.subrange(0, i as int), config_views(unique@), map@, first@),
            buckets_cover(index@, unique@),
        decreases tiles.len() - i,
    {
        let ghost prev = vs.subrange(0, i as int);
        let ghost next = vs.subrange(0, i as int + 1);
        assert(next.drop_last() == prev);
        assert(next.last() == tiles@[i as int]@);
        proof {
            lemma_first_occurrences(prev);
        }
        let t = &tiles[i];
        let k = t.key();
        let found = match index.get(&k) {
            Some(bucket) => find_in_bucket(&unique, bucket, t),
            None => None,
        };
        match found {
            Some(u) => {
                assert(config_views(unique@)[u as int] == tiles@[i as int]@);
                map.push(u);
            },
            None => {
                assert(!config_views(unique@).contains(t@)) by {
                    if config_views(unique@).contains(t@) {
                        let w = choose|w: int| 0 <= w < unique@.len() && config_views(unique@)[w] == t@;
                        assert(unique@[w]@ == t@);
                        assert(index@.contains_key(k));
                        let j = choose|j: int| 0 <= j < index@[k]@.len() && index@[k]@[j] == w as usize;
                        assert(unique@[index@[k]@[j] as int]@ != t@);
                    }
                }
                let u = unique.len();
                let ghost before = config_views(unique@);
                let ghost old_unique = unique@;
                let ghost old_index = index@;
                unique.push(t.copy());
                assert(config_views(unique@) == before.push(tiles@[i as int]@));
                map.push(u);
                first.push(i);
                let mut bucket = match index.remove(&k) {
                    Some(b) => b,
                    None => Vec::new(),
                };
                let ghost old_bucket = bucket@;
                bucket.push(u);
                index.insert(k, bucket);
                assert(index@ == old_index.insert(k, index@[k]));
                assert(index@[k]@ == old_bucket.push(u));
                assert(old_index.contains_key(k) ==> old_bucket == old_index[k]@);
                assert(!old_index.contains_key(k) ==> old_bucket.len() == 0);
                assert forall|w: int|
                    0 <= w < unique@.len() implies index@.contains_key(config_key(#[trigger] unique@[w]@))
                    && index@[config_key(unique@[w]@)]@.contains(w as usize) by {
                    if w < old_unique.len() {
                        assert(unique@[w] == old_unique[w]);
                        let kw = config_key(unique@[w]@);
                        if kw == k {
                            let j = choose|j: int| 0 <= j < old_index[k]@.len() && old_index[k]@[j] == w as usize;
                            assert(index@[k]@[j] == w as usize);
                        }
                    } else {
                        assert(index@[k]@[old_bucket.len() as int] == u);
                    }
                }
                assert forall|kk: u64| #[trigger] index@.contains_key(kk) implies forall|j: int|
                    0 <= j < index@[kk]@.len() ==> (#[trigger] index@[kk]@[j] as int) < unique@.len() by {
                    if kk == k {
                        assert forall|j: int| 0 <= j < index@[kk]@.len() implies (#[trigger] index@[kk]@[j] as int)
                            < unique@.len() by {
                            if j < old_bucket.len() {
                                assert(index@[kk]@[j] == old_index[k]@[j]);
                            }
                        }
                    }
                }
            },
        }
        let ghost uv = config_views(unique@);
        assert forall|j: int| 0 <= j < next.len() implies (#[trigger] map@[j] as int) < uv.len()
            && uv[map@[j] as int] == next[j] by {
            if j < prev.len() {
                assert(next[j] == prev[j]);
            }
        }
        assert forall|v: int| 0 <= v < uv.len() implies (#[trigger] first@[v] as int) < next.len()
            && map@[first@[v] as int] == v && forall|j: int| 0 <= j < first@[v] ==> next[j] != uv[v] by {
            assert forall|j: int| 0 <= j < first@[v] implies next[j] != uv[v] by {
                if j < prev.len() {
                    assert(next[j] == prev[j]);
                    if v == uv.len() - 1 && uv.len() > first_occurrences(prev).len() {
                        assert(prev.contains(prev[j]));
                    }
                }
            }
        }
        i = i + 1;
    }
    assert(vs.subrange(0, tiles.len() as int) == vs);
    Dedup { unique, map, first }
}

/// De-duplication keeps exactly one entry per distinct value: the number of
/// unique entries is the number of distinct values, and two positions share a
/// unique index exactly when they hold equal values.
pub proof fn lemma_dedup_counts_distinct<A>(values: Seq<A>, unique: Seq<A>, map: Seq<usize>, first: Seq<usize>)
    requires
        unique == first_occurrences(values),
        is_index_map(values, unique, map, first),
    ensures
        unique.len() == values.to_set().len(),
        forall|i: int, j: int|
            0 <= i < values.len() && 0 <= j < values.len() ==> (#[trigger] map[i] == #[trigger] map[j]
                <==> values[i] == values[j]),
{
    lemma_first_occurrences(values);
    assert(unique.to_set() =~= values.to_set());
    unique.unique_seq_to_set();
    assert forall|i: int, j: int|
        0 <= i < values.len() && 0 <= j < values.len() implies (#[trigger] map[i] == #[trigger] map[j]
            <==> values[i] == values[j]) by {
        if values[i] == values[j] {
            assert(unique[map[i] as int] == unique[map[j] as int]);
        }
    }
}

/// The law above, for tile configurations: a tile whose delays or gains
/// differ from another's anywhere, a dead-dipole delay included, never shares
/// its unique index.
pub proof fn lemma_dedup_tiles_counts_distinct(tiles: Seq<TileConfig>, r: Dedup<TileConfig>)
    requires
        config_views(r.unique@) == first_occurrences(config_views(tiles)),
        is_index_map(config_views(tiles), config_views(r.unique@), r.map@, r.first@),
    ensures
        r.unique@.len() == config_views(tiles).to_set().len(),
        forall|i: int, j: int|
            0 <= i < tiles.len() && 0 <= j < tiles.len() ==> (#[trigger] r.map@[i] == #[trigger] r.map@[j]
                <==> tiles[i]@ == tiles[j]@),
{
    lemma_dedup_counts_distinct(config_views(tiles), config_views(r.unique@), r.map@, r.first@);
    assert forall|i: int, j: int|
        0 <= i < tiles.len() && 0 <= j < tiles.len() implies (#[trigger] r.map@[i] == #[trigger] r.map@[j]
            <==> tiles[i]@ == tiles[j]@) by {
        assert(config_views(tiles)[i] == tiles[i]@);
        assert(config_views(tiles)[j] == tiles[j]@);
    }
}

} // verus!
