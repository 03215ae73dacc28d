//! The host side of a batched beam engine: the tile table is split into tile
//! configurations, tiles and frequencies are de-duplicated, one coefficient
//! block is prepared for each unique (tile, frequency) pair, and results
//! computed per unique pair are expanded back to the caller's positions.

use crate::boundary::BoundaryError;
use crate::dedup::{
    config_views, copy_vec, dedup_freqs, dedup_tiles, first_occurrences, is_index_map, Dedup,
    TileConfig,
};
use vstd::prelude::*;

verus! {

/// The number of dipoles in a tile, and so of delays in each tile's row.
pub const NUM_DIPOLES: usize = 16;

/// The values of `v` from `start` up to `end`.
fn copy_range<T: Copy>(v: &Vec<T>, start: usize, end: usize) -> (r: Vec<T>)
    requires
        start <= end <= v.len(),
    ensures
        r@ == v@.subrange(start as int, end as int),
{
    let mut r: Vec<T> = Vec::new();
    let mut i: usize = start;
    while i < end
        invariant
            start <= i <= end <= v.len(),
            r@ == v@.subrange(start as int, i as int),
        decreases end - i,
    {
        r.push(v[i]);
        i = i + 1;
    }
    r
}

/// Row `i` of the row-major table `flat`, whose rows hold `width` values.
pub open spec fn row_of<T>(flat: Seq<T>, width: int, i: int) -> Seq<T> {
    flat.subrange(i * width, i * width + width)
}

/// Splits the row-major tables of delays (16 per tile) and gain bits
/// (`num_amps` per tile) into one configuration per tile.
pub fn tiles_from_rows(delays: &Vec<u32>, amp_bits: &Vec<u64>, num_tiles: usize, num_amps: usize) -> (r:
    Result<Vec<TileConfig>, BoundaryError>)
    ensures
        !(num_amps == 16 || num_amps == 32) ==> r == Err::<Vec<TileConfig>, BoundaryError>(
            BoundaryError::NumAmps,
        ),
        (num_amps == 16 || num_amps == 32) && (delays@.len() != num_tiles * NUM_DIPOLES
            || amp_bits@.len() != num_tiles * num_amps) ==> r == Err::<Vec<TileConfig>, BoundaryError>(
            BoundaryError::ArraySize,
        ),
        (num_amps == 16 || num_amps == 32) && delays@.len() == num_tiles * NUM_DIPOLES
            && amp_bits@.len() == num_tiles * num_amps ==> r is Ok,
        r matches Ok(tiles) ==> {
            &&& tiles@.len() == num_tiles
            &&& forall|i: int|
                0 <= i < num_tiles ==> (#[trigger] tiles@[i]).delays@ == row_of(
                    delays@,
                    NUM_DIPOLES as int,
                    i,
                ) && tiles@[i].amp_bits@ == row_of(amp_bits@, num_amps as int, i)
        },
{
    if num_amps != 16 && num_amps != 32 {
        return Err(BoundaryError::NumAmps);
    }
    let dl = delays.len();
    let al = amp_bits.len();
    let nd = match num_tiles.checked_mul(NUM_DIPOLES) {
        Some(n) => n,
        None => return Err(BoundaryError::ArraySize),
    };
    let na = match num_tiles.checked_mul(num_amps) {
        Some(n) => n,
        None => return Err(BoundaryError::ArraySize),
    };
    if dl != nd || al != na {
        return Err(BoundaryError::ArraySize);
    }
    let mut tiles: Vec<TileConfig> = Vec::new();
    let mut i: usize = 0;
    while i < num_tiles
        invariant
            i <= num_tiles,
            delays.len() == num_tiles * NUM_DIPOLES,
            amp_bits.len() == num_tiles * num_amps,
            tiles@.len() == i,
            forall|k: int|
                0 <= k < i ==> (#[trigger] tiles@[k]).delays@ == row_of(delays@, NUM_DIPOLES as int, k)
                    && tiles@[k].amp_bits@ == row_of(amp_bits@, num_amps as int, k),
        decreases num_tiles - i,
    {
        assert((i + 1) * NUM_DIPOLES <= num_tiles * NUM_DIPOLES) by (nonlinear_arith)
            requires
                i < num_tiles,
        ;
        assert((i + 1) * num_amps <= num_tiles * num_amps) by (nonlinear_arith)
            requires
                i < num_tiles,
        ;
        assert((i + 1) * NUM_DIPOLES == i * NUM_DIPOLES + NUM_DIPOLES) by (nonlinear_arith);
        assert((i + 1) * num_amps == i * num_amps + num_amps) by (nonlinear_arith);
        let d0 = i * NUM_DIPOLES;
        let a0 = i * num_amps;
        let t = TileConfig {
            delays: copy_range(delays, d0, d0 + NUM_DIPOLES),
            amp_bits: copy_range(amp_bits, a0, a0 + num_amps),
        };
        tiles.push(t);
        i = i + 1;
    }
    Ok(tiles)
}

/// The view of a table of results: one row per tile, one block per
/// frequency, one entry per direction.
pub open spec fn results_view<J>(t: Seq<Vec<Vec<J>>>) -> Seq<Seq<Seq<J>>> {
    t.map_values(|row: Vec<Vec<J>>| row@.map_values(|b: Vec<J>| b@))
}

/// The table of results per tile and frequency of the caller, taken from the table
/// per unique tile and frequency through the two index maps.
pub open spec fn expansion<J>(unique: Seq<Seq<Seq<J>>>, tile_map: Seq<usize>, freq_map: Seq<usize>) -> Seq<
    Seq<Seq<J>>,
> {
    Seq::new(
        tile_map.len(),
        |i: int| Seq::new(freq_map.len(), |j: int| unique[tile_map[i] as int][freq_map[j] as int]),
    )
}

/// Replaces each frequency by the one that `closest` picks for it (the
/// nearest frequency that the beam model holds), keeping the order.
pub fn snap_freqs<C: Fn(u32) -> u32>(freqs: &Vec<u32>, closest: C) -> (r: Vec<u32>)
    requires
        forall|f: u32| closest.requires((f,)),
    ensures
        r@.len() == freqs@.len(),
        forall|i: int| 0 <= i < freqs@.len() ==> closest.ensures((freqs@[i],), #[trigger] r@[i]),
{
    let mut r: Vec<u32> = Vec::new();
    let mut i: usize = 0;
    while i < freqs.len()
        invariant
            i <= freqs@.len(),
            r@.len() == i,
            forall|f: u32| closest.requires((f,)),
            forall|k: int| 0 <= k < i ==> closest.ensures((freqs@[k],), #[trigger] r@[k]),
        decreases freqs@.len() - i,
    {
        r.push(closest(freqs[i]));
        i = i + 1;
    }
    r
}

/// Whether `f`, called on `tile` and `freq`, may fail with `e`.
pub open spec fn failed_on<B, E, F: Fn(&TileConfig, u32) -> Result<B, E>>(
    f: F,
    tile: TileConfig,
    freq: u32,
    e: E,
) -> bool {
    f.ensures((&tile, freq), Err::<B, E>(e))
}

/// The host side of a batched engine, fixed at construction: the unique tile
/// configurations and frequencies, the maps from the caller's positions to
/// them, and whether responses are normalised to zenith.
pub struct GpuPlan {
    tiles: Dedup<TileConfig>,
    freqs: Dedup<u32>,
    norm_to_zenith: bool,
    orig_tiles: Ghost<Seq<(Seq<u32>, Seq<u64>)>>,
    orig_freqs: Ghost<Seq<u32>>,
}

impl GpuPlan {
    /// The caller's tile configurations, in the caller's order.
    pub closed spec fn tile_views(&self) -> Seq<(Seq<u32>, Seq<u64>)> {
        self.orig_tiles@
    }

    /// The caller's frequencies, in the caller's order.
    pub closed spec fn freq_values(&self) -> Seq<u32> {
        self.orig_freqs@
    }

    /// The unique tile configurations.
    pub closed spec fn unique_tile_seq(&self) -> Seq<TileConfig> {
        self.tiles.unique@
    }

    /// The views of the unique tile configurations.
    pub open spec fn unique_tile_views(&self) -> Seq<(Seq<u32>, Seq<u64>)> {
        config_views(self.unique_tile_seq())
    }

    /// The unique frequencies.
    pub closed spec fn unique_freq_values(&self) -> Seq<u32> {
        self.freqs.unique@
    }

    /// For each of the caller's tiles, the index of its unique configuration.
    pub closed spec fn tile_map_view(&self) -> Seq<usize> {
        self.tiles.map@
    }

    /// For each of the caller's frequencies, the index of its unique value.
    pub closed spec fn freq_map_view(&self) -> Seq<usize> {
        self.freqs.map@
    }

    /// For each unique configuration, the first tile that has it.
    pub closed spec fn tile_first_view(&self) -> Seq<usize> {
        self.tiles.first@
    }

    /// For each unique frequency, the first position that holds it.
    pub closed spec fn freq_first_view(&self) -> Seq<usize> {
        self.freqs.first@
    }

    /// Whether responses are normalised to zenith.
    pub closed spec fn norm_spec(&self) -> bool {
        self.norm_to_zenith
    }

    /// The unique values are those of the caller's lists in the order of
    /// their first occurrence, the maps lead to them, and the number of
    /// unique pairs fits in a `usize`.
    pub open spec fn wf(&self) -> bool {
        &&& self.unique_tile_views() == first_occurrences(self.tile_views())
        &&& is_index_map(
            self.tile_views(),
            self.unique_tile_views(),
            self.tile_map_view(),
            self.tile_first_view(),
        )
        &&& self.unique_freq_values() == first_occurrences(self.freq_values())
        &&& is_index_map(
            self.freq_values(),
            self.unique_freq_values(),
            self.freq_map_view(),
            self.freq_first_view(),
        )
        &&& self.unique_tile_views().len() * self.unique_freq_values().len() <= usize::MAX
    }

    /// Builds the plan for the given frequencies and tiles. Frequencies are
    /// taken as they are: snapping them to those of the beam model is done
    /// before. Fails only when the number of unique (tile, frequency) pairs
    /// does not fit in a `usize`.
    pub fn new(freqs: &Vec<u32>, tiles: &Vec<TileConfig>, norm_to_zenith: bool) -> (r: Result<
        GpuPlan,
        BoundaryError,
    >)
        ensures
            match r {
                Ok(p) => {
                    &&& p.wf()
                    &&& p.tile_views() == config_views(tiles@)
                    &&& p.freq_values() == freqs@
                    &&& p.norm_spec() == norm_to_zenith
                },
                Err(e) => e == BoundaryError::TooLarge && first_occurrences(config_views(tiles@)).len()
                    * first_occurrences(freqs@).len() > usize::MAX,
            },
    {
        let t = dedup_tiles(tiles);
        let f = dedup_freqs(freqs);
        match t.unique.len().checked_mul(f.unique.len()) {
            Some(_) => {},
            None => return Err(BoundaryError::TooLarge),
        }
        Ok(
            GpuPlan {
                tiles: t,
                freqs: f,
                norm_to_zenith,
                orig_tiles: Ghost(config_views(tiles@)),
                orig_freqs: Ghost(freqs@),
            },
        )
    }

    /// The number of unique tile configurations.
    pub fn num_unique_tiles(&self) -> (r: usize)
        ensures
            r == self.unique_tile_views().len(),
    {
        self.tiles.unique.len()
    }

    /// The number of unique frequencies.
    pub fn num_unique_freqs(&self) -> (r: usize)
        ensures
            r == self.unique_freq_values().len(),
    {
        self.freqs.unique.len()
    }

    /// The number of coefficient blocks: one per unique (tile, frequency)
    /// pair.
    pub fn num_coeffs(&self) -> (r: usize)
        requires
            self.wf(),
        ensures
            r == self.unique_tile_views().len() * self.unique_freq_values().len(),
    {
        self.tiles.unique.len() * self.freqs.unique.len()
    }

    /// Whether responses are normalised to zenith.
    pub fn norm_to_zenith(&self) -> (r: bool)
        ensures
            r == self.norm_spec(),
    {
        self.norm_to_zenith
    }

    /// For each of the caller's tiles, the index of its unique configuration.
    pub fn tile_map(&self) -> (r: &Vec<usize>)
        ensures
            r@ == self.tile_map_view(),
    {
        &self.tiles.map
    }

    /// For each of the caller's frequencies, the index of its unique value.
    pub fn freq_map(&self) -> (r: &Vec<usize>)
        ensures
            r@ == self.freq_map_view(),
    {
        &self.freqs.map
    }

    /// The unique tile configurations.
    pub fn unique_tiles(&self) -> (r: &Vec<TileConfig>)
        ensures
            config_views(r@) == self.unique_tile_views(),
    {
        &self.tiles.unique
    }

    /// The unique frequencies.
    pub fn unique_freqs(&self) -> (r: &Vec<u32>)
        ensures
            r@ == self.unique_freq_values(),
    {
        &self.freqs.unique
    }

    /// Prepares one coefficient block for each unique (tile, frequency) pair
    /// by calling `prepare` on it: row `u` holds the blocks of unique tile
    /// `u`, one per unique frequency. The first failure ends the work and is
    /// returned, with no block.
    pub fn prepare_blocks<B, E, F: Fn(&TileConfig, u32) -> Result<B, E>>(&self, prepare: F) -> (r:
        Result<Vec<Vec<B>>, E>)
        requires
            forall|t: &TileConfig, f: u32| prepare.requires((t, f)),
        ensures
            r matches Ok(blocks) ==> {
                &&& blocks@.len() == self.unique_tile_views().len()
                &&& forall|u: int|
                    0 <= u < blocks@.len() ==> (#[trigger] blocks@[u])@.len()
                        == self.unique_freq_values().len()
                &&& forall|u: int, v: int|
                    0 <= u < self.unique_tile_views().len() && 0 <= v
                        < self.unique_freq_values().len() ==> prepare.ensures(
                        (&self.unique_tile_seq()[u], self.unique_freq_values()[v]),
                        Ok::<B, E>(#[trigger] blocks@[u]@[v]),
                    )
            },
            r matches Err(e) ==> exists|u: int, v: int|
                0 <= u < self.unique_tile_views().len() && 0 <= v < self.unique_freq_values().len()
                    && #[trigger] failed_on(
                    prepare,
                    self.unique_tile_seq()[u],
                    self.unique_freq_values()[v],
                    e,
                ),
    {
        let mut blocks: Vec<Vec<B>> = Vec::new();
        let mut u: usize = 0;
        while u < self.tiles.unique.len()
            invariant
                u <= self.tiles.unique@.len(),
                blocks@.len() == u,
                forall|t: &TileConfig, f: u32| prepare.requires((t, f)),
                forall|a: int| 0 <= a < u ==> (#[trigger] blocks@[a])@.len() == self.freqs.unique@.len(),
                forall|a: int, b: int|
                    0 <= a < u && 0 <= b < self.freqs.unique@.len() ==> prepare.ensures(
                        (&self.tiles.unique@[a], self.freqs.unique@[b]),
                        Ok::<B, E>(#[trigger] blocks@[a]@[b]),
                    ),
            decreases self.tiles.unique@.len() - u,
        {
            let mut row: Vec<B> = Vec::new();
            let mut v: usize = 0;
            while v < self.freqs.unique.len()
                invariant
                    u < self.tiles.unique@.len(),
                    v <= self.freqs.unique@.len(),
                    row@.len() == v,
                    forall|t: &TileConfig, f: u32| prepare.requires((t, f)),
                    forall|b: int|
                        0 <= b < v ==> prepare.ensures(
                            (&self.tiles.unique@[u as int], self.freqs.unique@[b]),
                            Ok::<B, E>(#[trigger] row@[b]),
                        ),
                decreases self.freqs.unique@.len() - v,
            {
                match prepare(&self.tiles.unique[u], self.freqs.unique[v]) {
                    Ok(block) => row.push(block),
                    Err(e) => {
                        let ghost a = u as int;
                        let ghost b = v as int;
                        assert(config_views(self.tiles.unique@).len() == self.tiles.unique@.len());
                        let ret: Result<Vec<Vec<B>>, E> = Err(e);
                        assert(failed_on(
                            prepare,
                            self.unique_tile_seq()[a],
                            self.unique_freq_values()[b],
                            ret->Err_0,
                        ));
                        return ret;
                    },
                }
                v = v + 1;
            }
            blocks.push(row);
            u = u + 1;
        }
        Ok(blocks)
    }

    /// Expands results computed per unique (tile, frequency) pair to the
    /// caller's positions: the block of tile `i` and frequency `j` is the
    /// block of their unique indices.
    pub fn expand<J: Copy>(&self, unique_results: &Vec<Vec<Vec<J>>>) -> (r: Vec<Vec<Vec<J>>>)
        requires
            self.wf(),
            unique_results@.len() == self.unique_tile_views().len(),
            forall|u: int|
                0 <= u < unique_results@.len() ==> (#[trigger] unique_results@[u])@.len()
                    == self.unique_freq_values().len(),
        ensures
            results_view(r@) == expansion(
                results_view(unique_results@),
                self.tile_map_view(),
                self.freq_map_view(),
            ),
    {
        let tm = &self.tiles.map;
        let fm = &self.freqs.map;
        let mut out: Vec<Vec<Vec<J>>> = Vec::new();
        let mut i: usize = 0;
        while i < tm.len()
            invariant
                self.wf(),
                unique_results@.len() == self.unique_tile_views().len(),
                forall|u: int|
                    0 <= u < unique_results@.len() ==> (#[trigger] unique_results@[u])@.len()
                        == self.unique_freq_values().len(),
                tm@ == self.tile_map_view(),
                fm@ == self.freq_map_view(),
                i <= tm@.len(),
                out@.len() == i,
                forall|a: int| 0 <= a < i ==> (#[trigger] out@[a])@.len() == fm@.len(),
                forall|a: int, b: int|
                    0 <= a < i && 0 <= b < fm@.len() ==> (#[trigger] out@[a]@[b])@
                        == unique_results@[tm@[a] as int]@[fm@[b] as int]@,
            decreases tm@.len() - i,
        {
            let ti = tm[i];
            assert(config_views(self.tiles.unique@).len() == self.tiles.unique@.len());
            let mut row: Vec<Vec<J>> = Vec::new();
            let mut j: usize = 0;
            while j < fm.len()
                invariant
                    self.wf(),
                    unique_results@.len() == self.unique_tile_views().len(),
                    forall|u: int|
                        0 <= u < unique_results@.len() ==> (#[trigger] unique_results@[u])@.len()
                            == self.unique_freq_values().len(),
                    fm@ == self.freq_map_view(),
                    (ti as int) < unique_results@.len(),
                    j <= fm@.len(),
                    row@.len() == j,
                    forall|b: int|
                        0 <= b < j ==> (#[trigger] row@[b])@ == unique_results@[ti as int]@[fm@[b] as int]@,
                decreases fm@.len() - j,
            {
                let fj = fm[j];
                row.push(copy_vec(&unique_results[ti][fj]));
                j = j + 1;
            }
            out.push(row);
            i = i + 1;
        }
        let ghost lhs = results_view(out@);
        let ghost rhs = expansion(results_view(unique_results@), tm@, fm@);
        assert forall|a: int| 0 <= a < lhs.len() implies lhs[a] =~= rhs[a] by {
            assert forall|b: int| 0 <= b < lhs[a].len() implies lhs[a][b] == rhs[a][b] by {
                assert(out@[a]@[b]@ == unique_results@[tm@[a] as int]@[fm@[b] as int]@);
            }
        }
        assert(lhs =~= rhs);
        out
    }
}

/// Computes the results of every tile at every frequency directly, with no
/// de-duplication: row `i` holds, for each frequency `j`, the block that
/// `eval` returned for tile `i` at frequency `j`. The first failure ends the
/// work and is returned, with no result.
pub fn cpu_batch<J, E, F: Fn(&TileConfig, u32) -> Result<Vec<J>, E>>(
    tiles: &Vec<TileConfig>,
    freqs: &Vec<u32>,
    eval: F,
) -> (r: Result<Vec<Vec<Vec<J>>>, E>)
    requires
        forall|t: &TileConfig, f: u32| eval.requires((t, f)),
    ensures
        match r {
            Ok(out) => {
                &&& out@.len() == tiles@.len()
                &&& forall|i: int| 0 <= i < out@.len() ==> (#[trigger] out@[i])@.len() == freqs@.len()
                &&& forall|i: int, j: int|
                    0 <= i < tiles@.len() && 0 <= j < freqs@.len() ==> eval.ensures(
                        (&tiles@[i], freqs@[j]),
                        Ok::<Vec<J>, E>(#[trigger] out@[i]@[j]),
                    )
            },
            Err(e) => exists|i: int, j: int|
                0 <= i < tiles@.len() && 0 <= j < freqs@.len() && #[trigger] failed_on(
                    eval,
                    tiles@[i],
                    freqs@[j],
                    e,
                ),
        },
{
    let mut out: Vec<Vec<Vec<J>>> = Vec::new();
    let mut i: usize = 0;
    while i < tiles.len()
        invariant
            i <= tiles@.len(),
            out@.len() == i,
            forall|t: &TileConfig, f: u32| eval.requires((t, f)),
            forall|a: int| 0 <= a < i ==> (#[trigger] out@[a])@.len() == freqs@.len(),
            forall|a: int, b: int|
                0 <= a < i && 0 <= b < freqs@.len() ==> eval.ensures(
                    (&tiles@[a], freqs@[b]),
                    Ok::<Vec<J>, E>(#[trigger] out@[a]@[b]),
                ),
        decreases tiles@.len() - i,
    {
        let mut row: Vec<Vec<J>> = Vec::new();
        let mut j: usize = 0;
        while j < freqs.len()
            invariant
                i < tiles@.len(),
                j <= freqs@.len(),
                row@.len() == j,
                forall|t: &TileConfig, f: u32| eval.requires((t, f)),
                forall|b: int|
                    0 <= b < j ==> eval.ensures(
                        (&tiles@[i as int], freqs@[b]),
                        Ok::<Vec<J>, E>(#[trigger] row@[b]),
                    ),
            decreases freqs@.len() - j,
        {
            match eval(&tiles[i], freqs[j]) {
                Ok(block) => row.push(block),
                Err(e) => {
                    let ghost a = i as int;
                    let ghost b = j as int;
                    let ret: Result<Vec<Vec<Vec<J>>>, E> = Err(e);
                    assert(failed_on(eval, tiles@[a], freqs@[b], ret->Err_0));
                    return ret;
                },
            }
            j = j + 1;
        }
        out.push(row);
        i = i + 1;
    }
    Ok(out)
}

/// The table of `model` at every pair of a tile and a frequency.
pub open spec fn model_table<J>(
    tiles: Seq<(Seq<u32>, Seq<u64>)>,
    freqs: Seq<u32>,
    model: spec_fn((Seq<u32>, Seq<u64>), u32) -> Seq<J>,
) -> Seq<Seq<Seq<J>>> {
    Seq::new(tiles.len(), |i: int| Seq::new(freqs.len(), |j: int| model(tiles[i], freqs[j])))
}

/// When the results per unique pair are what a beam model gives for that
/// pair, expanding them gives what the model gives at each of the caller's
/// pairs: the de-duplicated path and the direct path agree entry for entry.
pub proof fn lemma_expansion_matches_direct<J>(
    plan: &GpuPlan,
    model: spec_fn((Seq<u32>, Seq<u64>), u32) -> Seq<J>,
)
    requires
        plan.wf(),
    ensures
        expansion(
            model_table(plan.unique_tile_views(), plan.unique_freq_values(), model),
            plan.tile_map_view(),
            plan.freq_map_view(),
        ) == model_table(plan.tile_views(), plan.freq_values(), model),
{
    let lhs = expansion(
        model_table(plan.unique_tile_views(), plan.unique_freq_values(), model),
        plan.tile_map_view(),
        plan.freq_map_view(),
    );
    let rhs = model_table(plan.tile_views(), plan.freq_values(), model);
    let tm = plan.tile_map_view();
    let fm = plan.freq_map_view();
    assert forall|i: int| 0 <= i < lhs.len() implies lhs[i] =~= rhs[i] by {
        assert(plan.unique_tile_views()[tm[i] as int] == plan.tile_views()[i]);
        assert forall|j: int| 0 <= j < lhs[i].len() implies lhs[i][j] == rhs[i][j] by {
            assert(plan.unique_freq_values()[fm[j] as int] == plan.freq_values()[j]);
        }
    }
    assert(lhs =~= rhs);
}


/// The batched path and the direct path give the same table: when the results
/// per unique pair follow a beam model, and the direct evaluation follows the
/// same model, the expansion of the first equals the second at every one of
/// the caller's tiles and frequencies.
pub proof fn lemma_batched_matches_direct<J, E, F: Fn(&TileConfig, u32) -> Result<Vec<J>, E>>(
    plan: &GpuPlan,
    tiles: Seq<TileConfig>,
    unique_results: Seq<Vec<Vec<J>>>,
    expanded: Seq<Vec<Vec<J>>>,
    direct: Seq<Vec<Vec<J>>>,
    eval: F,
    model: spec_fn((Seq<u32>, Seq<u64>), u32) -> Seq<J>,
)
    requires
        plan.wf(),
        plan.tile_views() == config_views(tiles),
        results_view(unique_results) == model_table(
            plan.unique_tile_views(),
            plan.unique_freq_values(),
            model,
        ),
        results_view(expanded) == expansion(
            results_view(unique_results),
            plan.tile_map_view(),
            plan.freq_map_view(),
        ),
        forall|t: &TileConfig, f: u32, r: Vec<J>|
            #[trigger] eval.ensures((t, f), Ok::<Vec<J>, E>(r)) ==> r@ == model(t@, f),
        direct.len() == tiles.len(),
        forall|i: int| 0 <= i < direct.len() ==> (#[trigger] direct[i])@.len() == plan.freq_values().len(),
        forall|i: int, j: int|
            0 <= i < tiles.len() && 0 <= j < plan.freq_values().len() ==> eval.ensures(
                (&tiles[i], plan.freq_values()[j]),
                Ok::<Vec<J>, E>(#[trigger] direct[i]@[j]),
            ),
    ensures
        results_view(expanded) == results_view(direct),
{
    lemma_expansion_matches_direct(plan, model);
    let lhs = results_view(expanded);
    let rhs = results_view(direct);
    let table = model_table(plan.tile_views(), plan.freq_values(), model);
    assert(lhs == table);
    assert forall|i: int| 0 <= i < rhs.len() implies rhs[i] =~= table[i] by {
        assert(config_views(tiles)[i] == tiles[i]@);
        assert forall|j: int| 0 <= j < rhs[i].len() implies rhs[i][j] == table[i][j] by {
            assert(eval.ensures((&tiles[i], plan.freq_values()[j]), Ok::<Vec<J>, E>(direct[i]@[j])));
        }
    }
    assert(rhs =~= table);
}

} // verus!
