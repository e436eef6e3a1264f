//! The cache of warp grids.

use vstd::prelude::*;

use crate::interval::Interval;
use crate::warp::WarpGrid;

verus! {

/// The place of a tile: its zoom level, column and row.
#[derive(Clone, Copy, Debug, PartialEq, Eq, Hash, Structural)]
pub struct TileCoord {
    pub z: u8,
    pub x: u32,
    pub y: u32,
}

/// The key of a warp grid: a tile, and the source that it is cut from. Tiles of
/// different variables of one store share their grid.
#[derive(Debug, PartialEq, Eq, Hash)]
pub struct WarpCacheKey(pub TileCoord, pub String);

impl WarpCacheKey {
    /// The tile of the key.
    pub fn borrow(&self) -> (r: &TileCoord)
        ensures
            *r == self.0,
    {
        &self.0
    }
}

/// A cache of the `moka` crate.
#[verifier::external_type_specification]
#[verifier::external_body]
#[verifier::reject_recursive_types(K)]
#[verifier::reject_recursive_types(V)]
#[verifier::reject_recursive_types(S)]
pub struct ExCache<K, V, S>(moka::future::Cache<K, V, S>);

/// A cache of the `moka` crate that is yet to be built.
#[verifier::external_type_specification]
#[verifier::external_body]
#[verifier::reject_recursive_types(K)]
#[verifier::reject_recursive_types(V)]
#[verifier::reject_recursive_types(C)]
pub struct ExCacheBuilder<K, V, C>(moka::future::CacheBuilder<K, V, C>);

/// A cache of warp grids, `None` standing for a tile outside its source.
pub type GridCache = moka::future::Cache<WarpCacheKey, Option<WarpGrid>>;

/// A cache of warp grids that is yet to be built.
pub type GridCacheBuilder = moka::future::CacheBuilder<WarpCacheKey, Option<WarpGrid>, GridCache>;

/// What a cache is made with.
pub struct CacheSettings {
    /// The name under which the cache appears in logs.
    pub name: Seq<char>,
    /// The sum of weights that the cache is kept to.
    pub capacity: int,
    /// What a cached value weighs.
    pub weigher: spec_fn(Option<WarpGrid>) -> int,
    /// For how long an entry is kept.
    pub expiry: Option<Interval>,
    /// For how long an entry is kept that nobody asks for.
    pub idle: Option<Interval>,
}

/// What a cache will be made with.
pub uninterp spec fn builder_settings(builder: GridCacheBuilder) -> CacheSettings;

/// What a cache was made with.
pub uninterp spec fn cache_settings(cache: GridCache) -> CacheSettings;

/// Which cache a handle stands for.
pub uninterp spec fn cache_behind(handle: GridCache) -> int;

/// Whether a cache can keep its entries this long: no longer than a thousand
/// years of 365 days.
pub open spec fn can_expire(interval: Option<Interval>) -> bool {
    interval matches Some(i) ==> i.wf() && i.total_nanos() <= 31_536_000_000 * 1_000_000_000
}

/// The weight of a cached value: four for each index of the grid, up to the greatest
/// number of 32 bits, and 32 for its box, where the sum wraps round. A tile outside
/// its source weighs nothing.
pub open spec fn weight(value: Option<WarpGrid>) -> int {
    match value {
        Some(grid) => {
            let counted = 4 * grid.indices@.len() as int;
            ((if counted <= u32::MAX { counted } else { u32::MAX as int }) + 32) % 0x1_0000_0000
        },
        None => 0,
    }
}

/// How cached values are weighed.
pub open spec fn by_weight() -> spec_fn(Option<WarpGrid>) -> int {
    |value: Option<WarpGrid>| weight(value)
}

/// The weight of a cached value.
pub fn weigh(value: &Option<WarpGrid>) -> (r: u32)
    ensures
        r == weight(*value),
{
    match value {
        Some(grid) => {
            let counted: u32 = match grid.indices.len().checked_mul(4) {
                Some(bytes) => if bytes as u64 <= u32::MAX as u64 {
                    bytes as u32
                } else {
                    u32::MAX
                },
                None => u32::MAX,
            };
            counted.wrapping_add(32)
        },
        None => 0,
    }
}

/// A cache that is yet to be built: `moka::future::Cache::builder` with its
/// setters `name`, `weigher` and `max_capacity`, each of which the builder keeps as
/// it is given. Values are weighed by `weigh`, whatever their key.
#[verifier::external_body]
fn start_builder(name: &str, max_capacity: u64) -> (r: GridCacheBuilder)
    ensures
        builder_settings(r) == (CacheSettings {
            name: name@,
            capacity: max_capacity as int,
            weigher: by_weight(),
            expiry: None,
            idle: None,
        }),
{
    moka::future::Cache::builder()
        .name(name)
        .weigher(|_key: &WarpCacheKey, value: &Option<WarpGrid>| weigh(value))
        .max_capacity(max_capacity)
}

/// Sets for how long an entry is kept: `moka::future::CacheBuilder::time_to_live`.
#[verifier::external_body]
fn with_time_to_live(builder: GridCacheBuilder, interval: Interval) -> (r: GridCacheBuilder)
    requires
        interval.wf(),
    ensures
        builder_settings(r) == (CacheSettings {
            expiry: Some(interval),
            ..builder_settings(builder)
        }),
{
    builder.time_to_live(std::time::Duration::new(interval.secs, interval.nanos))
}

/// Sets for how long an entry is kept that nobody asks for:
/// `moka::future::CacheBuilder::time_to_idle`.
#[verifier::external_body]
fn with_time_to_idle(builder: GridCacheBuilder, interval: Interval) -> (r: GridCacheBuilder)
    requires
        interval.wf(),
    ensures
        builder_settings(r) == (CacheSettings {
            idle: Some(interval),
            ..builder_settings(builder)
        }),
{
    builder.time_to_idle(std::time::Duration::new(interval.secs, interval.nanos))
}

/// Builds a cache with the settings of its builder:
/// `moka::future::CacheBuilder::build`, which takes no interval of more than a
/// thousand years.
#[verifier::external_body]
fn build(builder: GridCacheBuilder) -> (r: GridCache)
    requires
        can_expire(builder_settings(builder).expiry),
        can_expire(builder_settings(builder).idle),
    ensures
        cache_settings(r) == builder_settings(builder),
{
    builder.build()
}

/// Another handle on a cache: `moka::future::Cache::clone`, which shares what it
/// points to. Both stand for one cache, with the settings it was made with.
#[verifier::external_body]
fn share(cache: &GridCache) -> (r: GridCache)
    ensures
        cache_behind(r) == cache_behind(*cache),
        cache_settings(r) == cache_settings(*cache),
{
    cache.clone()
}

/// A cache that stores, for the tiles of a source, which cells of the source their
/// pixels show.
#[derive(Debug)]
pub struct WarpCache {
    pub cache: GridCache,
}

impl WarpCache {
    /// A cache that keeps the weight of its grids to `max_size_bytes` in all, and
    /// forgets a grid once it is older than `expiry`, or once nobody asked for it for
    /// `idle_timeout`.
    pub fn new(
        max_size_bytes: u64,
        expiry: Option<Interval>,
        idle_timeout: Option<Interval>,
    ) -> (r: WarpCache)
        requires
            can_expire(expiry),
            can_expire(idle_timeout),
        ensures
            cache_settings(r.cache) == (CacheSettings {
                name: "zarr_warp_cache"@,
                capacity: max_size_bytes as int,
                weigher: by_weight(),
                expiry,
                idle: idle_timeout,
            }),
    {
        let mut builder = start_builder("zarr_warp_cache", max_size_bytes);
        if let Some(ttl) = expiry {
            builder = with_time_to_live(builder, ttl);
        }
        if let Some(tti) = idle_timeout {
            builder = with_time_to_idle(builder, tti);
        }
        WarpCache { cache: build(builder) }
    }
}

impl Clone for WarpCache {
    /// Another handle on the cache.
    fn clone(&self) -> (r: WarpCache)
        ensures
            cache_behind(r.cache) == cache_behind(self.cache),
            cache_settings(r.cache) == cache_settings(self.cache),
    {
        WarpCache { cache: share(&self.cache) }
    }
}

impl Default for WarpCache {
    /// A cache that keeps the weight of its grids to nothing.
    fn default() -> (r: WarpCache)
        ensures
            cache_settings(r.cache) == (CacheSettings {
                name: "zarr_warp_cache"@,
                capacity: 0,
                weigher: by_weight(),
                expiry: None,
                idle: None,
            }),
    {
        WarpCache::new(0, None, None)
    }
}

/// A grid weighs 32, and four for each of its indices: one more index is four more,
/// up to what 32 bits hold. A tile outside its source weighs nothing.
pub proof fn law_weight_grows_by_index(grid: WarpGrid, longer: WarpGrid)
    requires
        longer.indices@.len() == grid.indices@.len() + 1,
    ensures
        weight(None) == 0,
        grid.indices@.len() == 0 ==> weight(Some(grid)) == 32,
        4 * longer.indices@.len() + 32 <= u32::MAX ==> weight(Some(longer)) == weight(Some(grid)) + 4,
        4 * grid.indices@.len() >= u32::MAX ==> weight(Some(longer)) == weight(Some(grid)),
        by_weight()(None) == weight(None),
        by_weight()(Some(grid)) == weight(Some(grid)),
{
}

/// Entries can be kept for up to a thousand years of 365 days, and no longer.
pub proof fn law_entries_are_kept_up_to_a_thousand_years(interval: Interval)
    requires
        interval.nanos < 1_000_000_000,
    ensures
        can_expire(None),
        interval.secs < 1_000 * 365 * 24 * 3_600 ==> can_expire(Some(interval)),
        interval.secs == 1_000 * 365 * 24 * 3_600 ==> (can_expire(Some(interval)) <==> interval.nanos
            == 0),
        interval.secs > 1_000 * 365 * 24 * 3_600 ==> !can_expire(Some(interval)),
{
}

} // verus!
