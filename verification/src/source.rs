//! A source that cuts tiles from a Zarr store.

use vstd::prelude::*;

use crate::attributes::{
    get_bbox, get_proj_code, get_spatial_registration, get_spatial_shape, get_spatial_transform,
    Attributes, SpatialRegistration,
};
use crate::cache::{TileCoord, WarpCacheKey};
use crate::cube::Cube;
use crate::error::ZarrError;
use crate::png::tile_to_png;
use crate::sample::sample_warp_grid;
use crate::text::same;
use crate::time::{parse_moment, Moment};
use crate::warp::{WarpGrid, TILE_PIXELS};

#[allow(unused_imports)]
use crate::attributes::{
    bbox_result, code_result, json_pair, json_text, pair_attribute, registration_result, shape_result, string_attribute,
    texts, transform_result,
};
#[allow(unused_imports)]
use crate::cube::cube_shape;
#[allow(unused_imports)]
use crate::png::{law_samples_are_pixels, painted, png_file, png_result, shaded};
#[allow(unused_imports)]
use crate::sample::{
    cast_text, highest, law_window_covers_grid, lowest, pixel_value, sampleable, stops, tile_value,
};
#[allow(unused_imports)]
use crate::time::parsed_moment;

verus! {

/// The first zoom level. A source has no overviews, so it serves them all.
pub const MIN_ZOOM: u8 = 0;

/// The last zoom level.
pub const MAX_ZOOM: u8 = 23;

/// A source that cuts tiles from a Zarr store.
pub struct ZarrSource {
    /// The name of the source.
    pub id: String,
    /// The first zoom level that it serves.
    pub min_zoom: u8,
    /// The last zoom level that it serves.
    pub max_zoom: u8,
    /// The paths of the arrays that hold data.
    pub data_vars: Vec<String>,
    /// The coordinate system of the store.
    pub src_crs: String,
    /// The affine transformation from cells to coordinates.
    pub src_transform: [u64; 6],
    /// The bounding box in the coordinates of the store.
    pub src_bbox: [u64; 4],
    /// The height and the width of the store, in cells.
    pub src_shape: [u64; 2],
    /// How cells stand to coordinates.
    pub spatial_registration: SpatialRegistration,
}

/// The path of the array that tiles are cut from.
pub open spec fn requested_variable() -> Seq<char> {
    "/snow_temp"@
}

/// The moment that tiles show, as a text.
pub open spec fn requested_time() -> Seq<char> {
    "2026-08-13T00:00:00.000Z"@
}

/// The moment that tiles show.
pub fn requested_moment() -> (r: Result<Moment, ZarrError>)
    ensures
        match parsed_moment(requested_time()) {
            Some((seconds, nanos)) => r matches Ok(m) && m.seconds == seconds && m.nanos == nanos,
            None => r matches Err(e) && e is ParseError,
        },
{
    match parse_moment("2026-08-13T00:00:00.000Z") {
        Ok(moment) => Ok(moment),
        Err(e) => Err(ZarrError::ParseError(e)),
    }
}

/// A tile on its way from a request to an answer.
pub enum TileState {
    /// The warp grid is looked for, under the key.
    Locating { key: WarpCacheKey, data_var: String, at: Moment },
    /// The samples of the grid are read from an array, at a moment.
    Reading { grid: WarpGrid, data_var: String, at: Moment },
    /// The samples are given their shades, between the least and the greatest one.
    Shading { sampled: Vec<u32>, min: u32, max: u32 },
    /// There is an answer: the bytes of the tile, or an error.
    Answered { answer: Result<Vec<u8>, ZarrError> },
}

/// What happens to a tile on its way.
pub enum TileEvent {
    /// The warp grid is known; there is none for a tile outside the source.
    Located(Option<WarpGrid>),
    /// The samples of the box of the grid were read, and the value of cells without
    /// data.
    Read { data: Cube, fill_value: u32 },
    /// The samples have their shades.
    Shaded(Vec<u8>),
}

impl TileState {
    /// The steps that are left at most.
    pub open spec fn steps_left(self) -> nat {
        match self {
            TileState::Locating { .. } => 3,
            TileState::Reading { .. } => 2,
            TileState::Shading { .. } => 1,
            TileState::Answered { .. } => 0,
        }
    }

    /// Whether this is what the tile waits for.
    pub open spec fn awaits(self, event: TileEvent) -> bool {
        match (self, event) {
            (TileState::Locating { .. }, TileEvent::Located(_)) => true,
            (TileState::Reading { grid, .. }, TileEvent::Read { data, .. }) => sampleable(
                grid.indices@,
                grid.bbox,
                cube_shape(data),
                TILE_PIXELS as int,
            ),
            (TileState::Shading { sampled, .. }, TileEvent::Shaded(shades)) => {
                &&& sampled@.len() == shades@.len()
                &&& sampled@.len() <= TILE_PIXELS * TILE_PIXELS
            },
            _ => false,
        }
    }

    /// Whether the tile is answered by a tile without bytes.
    pub open spec fn is_empty_tile(self) -> bool {
        self matches TileState::Answered { answer } && answer matches Ok(bytes) && bytes@.len() == 0
    }

    /// Whether the tile is answered by an error of sampling.
    pub open spec fn is_refused(self) -> bool {
        self matches TileState::Answered { answer } && answer matches Err(e) && e.is_cast_error(
            cast_text(),
        )
    }
}

/// Whether `after` is where a tile stands once what it waited for has happened.
pub open spec fn follows(before: TileState, event: TileEvent, after: TileState) -> bool {
    match (before, event) {
        (TileState::Locating { key, data_var, at }, TileEvent::Located(found)) => match found {
            Some(grid) => after == (TileState::Reading { grid, data_var, at }),
            None => after.is_empty_tile(),
        },
        (TileState::Reading { grid, .. }, TileEvent::Read { data, fill_value }) => {
            let n = TILE_PIXELS as int;
            let g = grid.indices@;
            if exists|p: int| 0 <= p < n * n && #[trigger] stops(g, grid.bbox, p) {
                after.is_refused()
            } else {
                &&& after matches TileState::Shading { sampled, min, max }
                &&& sampled@.len() == n * n
                &&& forall|i: int, j: int|
                    0 <= i < n && 0 <= j < n ==> #[trigger] tile_value(sampled@, n, i, j)
                        == pixel_value(g, grid.bbox, data, fill_value, i * n + j)
                &&& min == lowest(g, grid.bbox, data, n * n)
                &&& max == highest(g, grid.bbox, data, n * n)
            }
        },
        (TileState::Shading { sampled, .. }, TileEvent::Shaded(shades)) => {
            &&& after matches TileState::Answered { answer }
            &&& png_result(
                TILE_PIXELS,
                TILE_PIXELS,
                painted(
                    sampled@,
                    shades@,
                    TILE_PIXELS * TILE_PIXELS,
                    sampled@.len() as int,
                ),
                answer,
            )
            &&& answer is Ok
        },
        _ => false,
    }
}

/// Where a tile stands once what it waited for has happened: a tile outside the
/// source is answered by no bytes, and one inside goes on to its samples, their
/// shades and its image.
pub fn advance(state: TileState, event: TileEvent) -> (r: TileState)
    requires
        state.awaits(event),
    ensures
        follows(state, event, r),
        r.steps_left() < state.steps_left(),
{
    match (state, event) {
        (TileState::Locating { key, data_var, at }, TileEvent::Located(found)) => match found {
            Some(grid) => TileState::Reading { grid, data_var, at },
            None => TileState::Answered { answer: Ok(Vec::new()) },
        },
        (TileState::Reading { grid, data_var, at }, TileEvent::Read { data, fill_value }) => {
            match sample_warp_grid(&grid.indices, grid.bbox, &data, TILE_PIXELS, fill_value) {
                Ok((sampled, min, max)) => TileState::Shading { sampled, min, max },
                Err(e) => TileState::Answered { answer: Err(e) },
            }
        },
        (TileState::Shading { sampled, min, max }, TileEvent::Shaded(shades)) => {
            TileState::Answered { answer: tile_to_png(&sampled, &shades) }
        },
        (state, _) => state,
    }
}

/// The number of threads that calculate tiles: all that the machine runs at a time
/// but two, and one at least. It is one where that number is not known.
pub fn pool_threads(available: Option<usize>) -> (r: usize)
    ensures
        r == (match available {
            Some(n) => if n > 3 { n - 2 } else { 1 },
            None => 1,
        }),
{
    match available {
        Some(n) => {
            let spare: usize = n.saturating_sub(2);
            if spare > 1 {
                spare
            } else {
                1
            }
        },
        None => 1,
    }
}

/// What is kept of a warp grid: the grid, and nothing where the tile lies outside
/// the source or the grid could not be calculated.
pub fn kept_grid<E>(calculated: Result<Option<WarpGrid>, E>) -> (r: Option<WarpGrid>)
    ensures
        match calculated {
            Ok(grid) => r == grid,
            Err(_) => r is None,
        },
{
    match calculated {
        Ok(grid) => grid,
        Err(_) => None,
    }
}

/// Whether this is where the request for a tile begins: with the search for its
/// warp grid at a zoom level that the source serves, and with the answer, a tile
/// without bytes, at any other.
pub open spec fn begins(source: ZarrSource, xyz: TileCoord, at: Moment, state: TileState) -> bool {
    if source.serves(xyz.z) {
        &&& state matches TileState::Locating { key, data_var, at: moment }
        &&& key.0 == xyz
        &&& key.1@ == source.id@
        &&& data_var@ == requested_variable()
        &&& moment == at
    } else {
        state.is_empty_tile()
    }
}

/// Whether a source made from these is what the attributes of its store say, or
/// the error is that of the first attribute that is missing or invalid: the
/// coordinate system, the transformation, the box, the shape, the registration.
pub open spec fn source_result(
    attributes: Map<Seq<char>, String>,
    transform: Result<[u64; 6], String>,
    bbox: Result<[u64; 4], String>,
    r: Result<ZarrSource, ZarrError>,
) -> bool {
    let code = string_attribute(attributes, "proj:code"@);
    let shape = pair_attribute(attributes, "spatial:shape"@);
    let registration = string_attribute(attributes, "spatial:registration"@);
    match r {
        Ok(source) => {
            &&& code_result(code, Ok(source.src_crs))
            &&& transform_result(attributes, transform, Ok(source.src_transform))
            &&& bbox_result(attributes, bbox, Ok(source.src_bbox))
            &&& shape_result(shape, Ok(source.src_shape))
            &&& registration_result(registration, Ok(source.spatial_registration))
        },
        Err(e) => if code is None {
            code_result(code, Err(e))
        } else if !attributes.dom().contains("spatial:transform"@) || transform is Err {
            transform_result(attributes, transform, Err(e))
        } else if !attributes.dom().contains("spatial:bbox"@) || bbox is Err {
            bbox_result(attributes, bbox, Err(e))
        } else if !(shape matches Some(Ok(_))) {
            shape_result(shape, Err(e))
        } else {
            registration_result(registration, Err(e))
        },
    }
}

impl ZarrSource {
    /// A source for the store with these attributes, and with these arrays of data.
    /// `transform` and `bbox` are the attributes `spatial:transform` and
    /// `spatial:bbox`, decoded.
    pub fn new(
        id: String,
        attributes: &Attributes,
        transform: Result<[u64; 6], String>,
        bbox: Result<[u64; 4], String>,
        data_vars: Vec<String>,
    ) -> (r: Result<ZarrSource, ZarrError>)
        ensures
            source_result(attributes@, transform, bbox, r),
            r matches Ok(source) ==> {
                &&& source.id == id
                &&& source.data_vars == data_vars
                &&& source.min_zoom == MIN_ZOOM
                &&& source.max_zoom == MAX_ZOOM
            },
    {
        let src_crs = match get_proj_code(attributes) {
            Ok(code) => code,
            Err(e) => {
                return Err(e);
            },
        };
        let src_transform = match get_spatial_transform(attributes, transform) {
            Ok(numbers) => numbers,
            Err(e) => {
                return Err(e);
            },
        };
        let src_bbox = match get_bbox(attributes, bbox) {
            Ok(numbers) => numbers,
            Err(e) => {
                return Err(e);
            },
        };
        let src_shape = match get_spatial_shape(attributes) {
            Ok(shape) => shape,
            Err(e) => {
                return Err(e);
            },
        };
        let spatial_registration = match get_spatial_registration(attributes) {
            Ok(registration) => registration,
            Err(e) => {
                return Err(e);
            },
        };
        Ok(
            ZarrSource {
                id,
                min_zoom: MIN_ZOOM,
                max_zoom: MAX_ZOOM,
                data_vars,
                src_crs,
                src_transform,
                src_bbox,
                src_shape,
                spatial_registration,
            },
        )
    }

    /// Whether the source serves a zoom level.
    pub open spec fn serves(self, z: u8) -> bool {
        self.min_zoom <= z <= self.max_zoom
    }

    /// Whether the array that tiles are cut from is there.
    pub open spec fn has_requested_variable(self) -> bool {
        texts(self.data_vars@).contains(requested_variable())
    }

    /// Whether the array that tiles are cut from is there.
    pub fn holds_requested_variable(&self) -> (r: bool)
        ensures
            r <==> self.has_requested_variable(),
    {
        for k in 0..self.data_vars.len()
            invariant
                forall|m: int|
                    0 <= m < k ==> #[trigger] texts(self.data_vars@)[m] != requested_variable(),
        {
            if same(self.data_vars[k].as_str(), "/snow_temp") {
                assert(texts(self.data_vars@)[k as int] == requested_variable());
                return true;
            }
        }
        false
    }

    /// Where the request for a tile at a moment begins: a tile at a zoom level that
    /// the source does not serve is answered by no bytes, and for any other one its
    /// warp grid is looked for.
    pub fn get_tile(&self, xyz: TileCoord, at: Moment) -> (r: TileState)
        requires
            self.serves(xyz.z) ==> self.has_requested_variable(),
        ensures
            begins(*self, xyz, at, r),
    {
        if xyz.z >= self.min_zoom && xyz.z <= self.max_zoom {
            TileState::Locating {
                key: WarpCacheKey(xyz, self.id.clone()),
                data_var: "/snow_temp".to_owned(),
                at,
            }
        } else {
            TileState::Answered { answer: Ok(Vec::new()) }
        }
    }

    /// The name of the source.
    pub fn get_id(&self) -> (r: &str)
        ensures
            r@ == self.id@,
    {
        self.id.as_str()
    }

    /// Whether requests may carry parameters: they may, to name a time and an array.
    pub fn support_url_query(&self) -> (r: bool)
        ensures
            r,
    {
        true
    }
}

/// A request is answered after three steps at most.
pub proof fn law_tile_is_answered(
    first: TileState,
    located: TileEvent,
    second: TileState,
    read: TileEvent,
    third: TileState,
    shaded: TileEvent,
    last: TileState,
)
    requires
        follows(first, located, second),
        second is Answered || follows(second, read, third),
        second is Answered || third is Answered || follows(third, shaded, last),
    ensures
        second is Answered || third is Answered || last is Answered,
{
}

/// The image of a tile shows its pixels: the one in column `i` and row `j` is the
/// sample of that pixel in its shade, and transparent where it is no number.
pub proof fn law_image_shows_pixels(
    reading: TileState,
    read: TileEvent,
    shading: TileState,
    shades: Seq<u8>,
    i: int,
    j: int,
)
    requires
        follows(reading, read, shading),
        reading is Reading,
        shading is Shading,
        shades.len() == TILE_PIXELS * TILE_PIXELS,
        0 <= i < TILE_PIXELS,
        0 <= j < TILE_PIXELS,
    ensures
        ({
            let n = TILE_PIXELS as int;
            let sampled = shading->sampled@;
            painted(sampled, shades, n * n, sampled.len() as int)[j * n + i] == shaded(
                pixel_value(
                    reading->Reading_grid.indices@,
                    reading->Reading_grid.bbox,
                    read->data,
                    read->fill_value,
                    i * n + j,
                ),
                shades[j * n + i],
            )
        }),
{
    let n = TILE_PIXELS as int;
    let sampled = shading->sampled@;
    assert(tile_value(sampled, n, i, j) == sampled[j * n + i]);
    law_samples_are_pixels(sampled, shades, n * n, j * n + i);
}

/// Two requests look for the same warp grid exactly where they are for the same
/// tile of the same source, whatever array and moment they show.
pub proof fn law_grid_is_shared_by_tile_and_source(
    a: ZarrSource,
    b: ZarrSource,
    tile: TileCoord,
    other: TileCoord,
    at: Moment,
    then: Moment,
    one: TileState,
    two: TileState,
)
    requires
        a.serves(tile.z),
        b.serves(other.z),
        begins(a, tile, at, one),
        begins(b, other, then, two),
    ensures
        one matches TileState::Locating { key: k, .. } && two matches TileState::Locating {
            key: l,
            ..
        } && ((k.0 == l.0 && k.1@ == l.1@) <==> (tile == other && a.id@ == b.id@)),
{
}

/// A source is made exactly where its store has a coordinate system, a
/// transformation, a box, a shape and a registration, and it says what they say.
pub proof fn law_source_says_what_its_store_says(
    attributes: Map<Seq<char>, String>,
    transform: Result<[u64; 6], String>,
    bbox: Result<[u64; 4], String>,
    r: Result<ZarrSource, ZarrError>,
)
    requires
        source_result(attributes, transform, bbox, r),
    ensures
        r is Ok <==> {
            &&& attributes.dom().contains("proj:code"@)
            &&& json_text(attributes["proj:code"@]@) is Some
            &&& attributes.dom().contains("spatial:transform"@)
            &&& transform is Ok
            &&& attributes.dom().contains("spatial:bbox"@)
            &&& bbox is Ok
            &&& attributes.dom().contains("spatial:shape"@)
            &&& json_pair(attributes["spatial:shape"@]@) is Ok
            &&& attributes.dom().contains("spatial:registration"@)
            &&& json_text(attributes["spatial:registration"@]@) == Some("node"@) || json_text(
                attributes["spatial:registration"@]@,
            ) == Some("pixel"@)
        },
        r matches Ok(source) ==> {
            &&& json_text(attributes["proj:code"@]@) == Some(source.src_crs@)
            &&& transform->Ok_0 == source.src_transform
            &&& bbox->Ok_0 == source.src_bbox
            &&& json_pair(attributes["spatial:shape"@]@)->Ok_0 == source.src_shape
            &&& source.spatial_registration == SpatialRegistration::Node <==> json_text(
                attributes["spatial:registration"@]@,
            ) == Some("node"@)
        },
{
    reveal_strlit("node");
    reveal_strlit("pixel");
    assert("node"@.len() == 4 && "pixel"@.len() == 5);
}

/// A request at a zoom level from the first to the last one of its source is looked
/// for under its tile and its source; at any other level it is answered by no bytes.
pub proof fn law_served_levels_are_looked_for(
    source: ZarrSource,
    xyz: TileCoord,
    at: Moment,
    state: TileState,
)
    requires
        begins(source, xyz, at, state),
    ensures
        state is Locating <==> source.min_zoom <= xyz.z && xyz.z <= source.max_zoom,
        state matches TileState::Locating { key, data_var, at: moment } ==> {
            &&& key.0.z == xyz.z && key.0.x == xyz.x && key.0.y == xyz.y
            &&& key.1@ == source.id@
            &&& data_var@ == "/snow_temp"@
            &&& moment.seconds == at.seconds && moment.nanos == at.nanos
        },
        !(state is Locating) ==> (state matches TileState::Answered { answer: Ok(bytes) } && bytes@.len()
            == 0),
{
}

/// A tile that lies in its source is never answered by no bytes for want of a grid: it
/// goes on with its own grid, array and moment. One outside is answered by no bytes.
pub proof fn law_located_tile_is_read(before: TileState, found: Option<WarpGrid>, after: TileState)
    requires
        before is Locating,
        follows(before, TileEvent::Located(found), after),
    ensures
        found matches Some(grid) ==> {
            &&& after matches TileState::Reading { grid: kept, data_var, at }
            &&& kept.indices@ == grid.indices@
            &&& kept.bbox == grid.bbox
            &&& data_var@ == before->Locating_data_var@
            &&& at == before->Locating_at
        },
        found is None ==> (after matches TileState::Answered { answer: Ok(bytes) } && bytes@.len() == 0),
{
}

/// The samples of the box of a grid make an image of its tile: no such tile is
/// refused, and once its samples have their shades it is answered by the file of
/// their image.
pub proof fn law_tile_in_the_source_gets_its_image(
    grid: WarpGrid,
    data_var: String,
    at: Moment,
    data: Cube,
    fill_value: u32,
    shading: TileState,
    shades: Vec<u8>,
    last: TileState,
)
    requires
        grid.wf(TILE_PIXELS as int),
        cube_shape(data).len() == 3,
        cube_shape(data)[0] > 0,
        cube_shape(data)[1] == grid.bbox[1] - grid.bbox[3] + 1,
        cube_shape(data)[2] == grid.bbox[2] - grid.bbox[0] + 1,
        cube_shape(data)[1] <= usize::MAX,
        cube_shape(data)[2] <= usize::MAX,
        shades@.len() == TILE_PIXELS * TILE_PIXELS,
        follows(
            TileState::Reading { grid, data_var, at },
            TileEvent::Read { data, fill_value },
            shading,
        ),
        follows(shading, TileEvent::Shaded(shades), last),
    ensures
        (TileState::Reading { grid, data_var, at }).awaits(TileEvent::Read { data, fill_value }),
        shading is Shading,
        shading.awaits(TileEvent::Shaded(shades)),
        shading->sampled@.len() == 262_144,
        last matches TileState::Answered { answer: Ok(bytes) } && png_file(
            512,
            512,
            painted(shading->sampled@, shades@, 262_144, 262_144),
        ) == Some(bytes@),
{
    law_window_covers_grid(grid, cube_shape(data), TILE_PIXELS as int);
    let n = TILE_PIXELS as int;
    if exists|p: int| 0 <= p < n * n && #[trigger] stops(grid.indices@, grid.bbox, p) {
        let p = choose|p: int| 0 <= p < n * n && #[trigger] stops(grid.indices@, grid.bbox, p);
        assert(!stops(grid.indices@, grid.bbox, p));
    }
}

/// A tile is refused exactly where one of its pixels stops the sampling.
pub proof fn law_tile_is_refused_by_its_pixels(before: TileState, read: TileEvent, after: TileState)
    requires
        before is Reading,
        follows(before, read, after),
    ensures
        read is Read,
        after is Shading || after is Answered,
        after is Answered <==> exists|p: int|
            0 <= p < 262_144 && #[trigger] stops(
                before->Reading_grid.indices@,
                before->Reading_grid.bbox,
                p,
            ),
        after matches TileState::Answered { answer } ==> answer matches Err(e) && e is CastError,
{
}

/// The array that tiles are cut from is there exactly where its path is that of one of
/// the arrays that hold data.
pub proof fn law_requested_array_is_one_of_the_data(source: ZarrSource)
    ensures
        source.has_requested_variable() <==> exists|k: int|
            0 <= k < source.data_vars@.len() && (#[trigger] source.data_vars@[k])@ == "/snow_temp"@,
{
    let paths = texts(source.data_vars@);
    if source.has_requested_variable() {
        let k = paths.index_of("/snow_temp"@);
        assert(source.data_vars@[k]@ == paths[k]);
    }
    if exists|k: int| 0 <= k < source.data_vars@.len() && (#[trigger] source.data_vars@[k])@ == "/snow_temp"@ {
        let k = choose|k: int|
            0 <= k < source.data_vars@.len() && (#[trigger] source.data_vars@[k])@ == "/snow_temp"@;
        assert(paths[k] == "/snow_temp"@);
    }
}

} // verus!
