//! The attributes of a Zarr store that describe its place on the map.
//!
//! An attribute is kept as the JSON text of its value. Numbers with a fraction
//! are decoded outside the library, and come in as bit patterns of
//! double-precision numbers.

use vstd::prelude::*;

use crate::error::ZarrError;
use crate::map::TextMap;
use crate::text::same;

verus! {

/// The attributes of a group or an array: JSON texts by their keys.
pub type Attributes = TextMap<String>;

/// How the cells of a source stand to its coordinates.
#[derive(Clone, Copy, Debug, PartialEq, Eq, Structural)]
pub enum SpatialRegistration {
    /// A coordinate is a corner of its cell.
    Pixel,
    /// A coordinate is the middle of its cell.
    Node,
}

/// How a position between two cells becomes one of them.
#[derive(Clone, Copy, Debug, PartialEq, Eq, Structural)]
pub enum Rounding {
    /// The cell that the position lies in.
    Down,
    /// The cell whose number is nearest, that further from zero of two.
    Nearest,
}

impl SpatialRegistration {
    /// How a position in the source becomes a cell.
    pub fn rounding(&self) -> (r: Rounding)
        ensures
            match *self {
                SpatialRegistration::Pixel => r == Rounding::Down,
                SpatialRegistration::Node => r == Rounding::Nearest,
            },
    {
        match self {
            SpatialRegistration::Pixel => Rounding::Down,
            SpatialRegistration::Node => Rounding::Nearest,
        }
    }
}

/// The text that a JSON string holds; none for any other value.
pub uninterp spec fn json_text(json: Seq<char>) -> Option<Seq<char>>;

/// The text that a JSON string holds: `serde_json::Value::as_str`, of the value
/// that `serde_json::from_str` reads from its JSON text.
#[verifier::external_body]
fn json_as_str(json: &str) -> (r: Option<String>)
    ensures
        match r {
            Some(text) => json_text(json@) == Some(text@),
            None => json_text(json@) is None,
        },
{
    let value: serde_json::Value = serde_json::from_str(json).ok()?;
    value.as_str().map(str::to_owned)
}

/// The texts in a JSON array of strings; none for any other value.
pub uninterp spec fn json_texts(json: Seq<char>) -> Option<Seq<Seq<char>>>;

/// The texts of some strings.
pub open spec fn texts(strings: Seq<String>) -> Seq<Seq<char>> {
    strings.map_values(|s: String| s@)
}

/// The texts in a JSON array of strings: `serde_json::from_value` to strings, of
/// the value that `serde_json::from_str` reads from its JSON text.
#[verifier::external_body]
pub(crate) fn json_as_strings(json: &str) -> (r: Option<Vec<String>>)
    ensures
        match r {
            Some(strings) => json_texts(json@) == Some(texts(strings@)),
            None => json_texts(json@) is None,
        },
{
    let value: serde_json::Value = serde_json::from_str(json).ok()?;
    serde_json::from_value::<Vec<String>>(value).ok()
}

/// The two numbers in a JSON array of two whole numbers from 0 to `u64::MAX`; for
/// any other value, what is wrong with it.
pub uninterp spec fn json_pair(json: Seq<char>) -> Result<[u64; 2], Seq<char>>;

/// The two numbers in a JSON array: `serde_json::from_value` to two numbers, of
/// the value that `serde_json::from_str` reads from its JSON text. An error comes
/// back as its text.
#[verifier::external_body]
fn json_as_pair(json: &str) -> (r: Result<[u64; 2], String>)
    ensures
        match r {
            Ok(pair) => json_pair(json@) == Ok::<[u64; 2], Seq<char>>(pair),
            Err(text) => json_pair(json@) == Err::<[u64; 2], Seq<char>>(text@),
        },
{
    serde_json::from_str::<serde_json::Value>(json)
        .and_then(serde_json::from_value::<[u64; 2]>)
        .map_err(|e| e.to_string())
}

/// The text of a string attribute; none where it is missing or no string.
pub open spec fn string_attribute(attributes: Map<Seq<char>, String>, key: Seq<char>) -> Option<
    Seq<char>,
> {
    if attributes.dom().contains(key) {
        json_text(attributes[key]@)
    } else {
        None
    }
}

/// The text of a string attribute; none where it is missing or no string.
pub fn get_string(attributes: &Attributes, key: &str) -> (r: Option<String>)
    ensures
        match r {
            Some(text) => string_attribute(attributes@, key@) == Some(text@),
            None => string_attribute(attributes@, key@) is None,
        },
{
    match attributes.get(key) {
        Some(json) => json_as_str(json.as_str()),
        None => None,
    }
}

/// The coordinate system that an attribute names, which has to be there.
pub fn proj_code(code: Option<String>) -> (r: Result<String, ZarrError>)
    ensures
        code_result(text_view(code), r),
{
    match code {
        Some(text) => Ok(text),
        None => Err(ZarrError::AttributeError("proj:code".to_owned())),
    }
}

/// The definition of the coordinate system as an EPSG code: the attribute
/// `proj:code`.
pub fn get_proj_code(attributes: &Attributes) -> (r: Result<String, ZarrError>)
    ensures
        code_result(string_attribute(attributes@, "proj:code"@), r),
{
    proj_code(get_string(attributes, "proj:code"))
}

/// Whether this is the transformation that was decoded, or the error that says why
/// there is none.
pub open spec fn transform_result(
    attributes: Map<Seq<char>, String>,
    decoded: Result<[u64; 6], String>,
    r: Result<[u64; 6], ZarrError>,
) -> bool {
    if !attributes.dom().contains("spatial:transform"@) {
        r matches Err(e) && e.is_attribute_error("spatial:transform is missing"@)
    } else {
        match decoded {
            Ok(numbers) => r matches Ok(transform) && transform == numbers,
            Err(text) => r matches Err(e) && e.is_attribute_error(
                "Invalid spatial:transform format: "@ + text@,
            ),
        }
    }
}

/// Whether this is the box that was decoded, or the error that says why there is
/// none.
pub open spec fn bbox_result(
    attributes: Map<Seq<char>, String>,
    decoded: Result<[u64; 4], String>,
    r: Result<[u64; 4], ZarrError>,
) -> bool {
    if !attributes.dom().contains("spatial:bbox"@) {
        r matches Err(e) && e.is_attribute_error("spatial:transform is missing"@)
    } else {
        match decoded {
            Ok(numbers) => r matches Ok(bbox) && bbox == numbers,
            Err(text) => r matches Err(e) && e.is_attribute_error(
                "Invalid spatial:transform format: "@ + text@,
            ),
        }
    }
}

/// Whether this is the code of the coordinate system, or the error that says that
/// there is none.
pub open spec fn code_result(code: Option<Seq<char>>, r: Result<String, ZarrError>) -> bool {
    match code {
        Some(text) => r matches Ok(found) && found@ == text,
        None => r matches Err(e) && e.is_attribute_error("proj:code"@),
    }
}

/// The affine transformation from cells to coordinates: the attribute
/// `spatial:transform`, decoded as six numbers.
pub fn get_spatial_transform(attributes: &Attributes, decoded: Result<[u64; 6], String>) -> (r:
    Result<[u64; 6], ZarrError>)
    ensures
        transform_result(attributes@, decoded, r),
{
    if !attributes.contains_key("spatial:transform") {
        return Err(ZarrError::AttributeError("spatial:transform is missing".to_owned()));
    }
    match decoded {
        Ok(numbers) => Ok(numbers),
        Err(text) => Err(
            ZarrError::AttributeError(
                "Invalid spatial:transform format: ".to_owned().concat(text.as_str()),
            ),
        ),
    }
}

/// The bounding box in the coordinates of the source: the attribute
/// `spatial:bbox`, decoded as four numbers. Its errors are worded as those of the
/// transformation.
pub fn get_bbox(attributes: &Attributes, decoded: Result<[u64; 4], String>) -> (r: Result<
    [u64; 4],
    ZarrError,
>)
    ensures
        bbox_result(attributes@, decoded, r),
{
    if !attributes.contains_key("spatial:bbox") {
        return Err(ZarrError::AttributeError("spatial:transform is missing".to_owned()));
    }
    match decoded {
        Ok(numbers) => Ok(numbers),
        Err(text) => Err(
            ZarrError::AttributeError(
                "Invalid spatial:transform format: ".to_owned().concat(text.as_str()),
            ),
        ),
    }
}

/// Whether this is the shape that was decoded, or the error that says why there
/// is none.
pub open spec fn shape_result(
    decoded: Option<Result<[u64; 2], Seq<char>>>,
    r: Result<[u64; 2], ZarrError>,
) -> bool {
    match decoded {
        None => r matches Err(e) && e.is_attribute_error("spatial:shape is missing"@),
        Some(Ok(pair)) => r matches Ok(shape) && shape == pair,
        Some(Err(text)) => r matches Err(e) && e.is_attribute_error(
            "Invalid spatial:shape format: "@ + text,
        ),
    }
}

/// The pair, or the text of what is wrong, that was decoded.
pub open spec fn decoded_view(decoded: Option<Result<[u64; 2], String>>) -> Option<
    Result<[u64; 2], Seq<char>>,
> {
    match decoded {
        None => None,
        Some(Ok(pair)) => Some(Ok(pair)),
        Some(Err(text)) => Some(Err(text@)),
    }
}

/// The shape of the source, which has to be there and to be a pair of numbers.
pub fn spatial_shape(decoded: Option<Result<[u64; 2], String>>) -> (r: Result<
    [u64; 2],
    ZarrError,
>)
    ensures
        shape_result(decoded_view(decoded), r),
{
    match decoded {
        None => Err(ZarrError::AttributeError("spatial:shape is missing".to_owned())),
        Some(Ok(pair)) => Ok(pair),
        Some(Err(text)) => Err(
            ZarrError::AttributeError(
                "Invalid spatial:shape format: ".to_owned().concat(text.as_str()),
            ),
        ),
    }
}

/// The pair of numbers in an attribute.
pub open spec fn pair_attribute(attributes: Map<Seq<char>, String>, key: Seq<char>) -> Option<
    Result<[u64; 2], Seq<char>>,
> {
    if attributes.dom().contains(key) {
        Some(json_pair(attributes[key]@))
    } else {
        None
    }
}

/// The shape of the source, its height and its width in cells: the attribute
/// `spatial:shape`.
pub fn get_spatial_shape(attributes: &Attributes) -> (r: Result<[u64; 2], ZarrError>)
    ensures
        shape_result(pair_attribute(attributes@, "spatial:shape"@), r),
{
    let decoded: Option<Result<[u64; 2], String>> = match attributes.get("spatial:shape") {
        Some(json) => Some(json_as_pair(json.as_str())),
        None => None,
    };
    spatial_shape(decoded)
}

/// The value of cells without data: the attribute `fill_value`, decoded as a
/// single-precision number.
pub fn get_fill_value(attributes: &Attributes, decoded: Result<u32, String>) -> (r: Result<
    u32,
    ZarrError,
>)
    ensures
        if !attributes@.dom().contains("fill_value"@) {
            r matches Err(e) && e.is_attribute_error("fill_value is missing"@)
        } else {
            match decoded {
                Ok(number) => r matches Ok(value) && value == number,
                Err(text) => r matches Err(e) && e.is_attribute_error(
                    "Missing fill_value: "@ + text@,
                ),
            }
        },
{
    if !attributes.contains_key("fill_value") {
        return Err(ZarrError::AttributeError("fill_value is missing".to_owned()));
    }
    match decoded {
        Ok(number) => Ok(number),
        Err(text) => Err(
            ZarrError::AttributeError("Missing fill_value: ".to_owned().concat(text.as_str())),
        ),
    }
}

/// Whether this is the registration of this name, or the error that says why
/// there is none.
pub open spec fn registration_result(
    name: Option<Seq<char>>,
    r: Result<SpatialRegistration, ZarrError>,
) -> bool {
    match name {
        None => r matches Err(e) && e.is_attribute_error("spatial:registration is missing"@),
        Some(text) => if text == "node"@ {
            r matches Ok(v) && v == SpatialRegistration::Node
        } else if text == "pixel"@ {
            r matches Ok(v) && v == SpatialRegistration::Pixel
        } else {
            r matches Err(e) && e.is_attribute_error(
                "invalid value for spatial:registration: "@ + text,
            )
        },
    }
}

/// The characters of a text that may be missing.
pub open spec fn text_view(text: Option<String>) -> Option<Seq<char>> {
    match text {
        Some(t) => Some(t@),
        None => None,
    }
}

/// The registration of this name, which has to be there.
pub fn spatial_registration(name: &Option<String>) -> (r: Result<SpatialRegistration, ZarrError>)
    ensures
        registration_result(text_view(*name), r),
{
    match name {
        None => Err(ZarrError::AttributeError("spatial:registration is missing".to_owned())),
        Some(text) => {
            if same(text.as_str(), "node") {
                Ok(SpatialRegistration::Node)
            } else if same(text.as_str(), "pixel") {
                Ok(SpatialRegistration::Pixel)
            } else {
                Err(
                    ZarrError::AttributeError(
                        "invalid value for spatial:registration: ".to_owned().concat(text.as_str()),
                    ),
                )
            }
        },
    }
}

/// How the cells of the source stand to its coordinates: the attribute
/// `spatial:registration`.
pub fn get_spatial_registration(attributes: &Attributes) -> (r: Result<
    SpatialRegistration,
    ZarrError,
>)
    ensures
        registration_result(string_attribute(attributes@, "spatial:registration"@), r),
{
    let name = get_string(attributes, "spatial:registration");
    spatial_registration(&name)
}

/// The names of the spatial dimensions of an array, where it lists them: the
/// attribute `spatial:dimensions`.
pub fn get_spatial_dims(attributes: &Attributes) -> (r: Option<Vec<String>>)
    ensures
        if attributes@.dom().contains("spatial:dimensions"@) {
            match json_texts(attributes@["spatial:dimensions"@]@) {
                Some(names) => r matches Some(dims) && texts(dims@) == names,
                None => r is None,
            }
        } else {
            r is None
        },
{
    match attributes.get("spatial:dimensions") {
        Some(json) => json_as_strings(json.as_str()),
        None => None,
    }
}

/// An attribute is read as it stands: where it is there and holds what it should, its
/// value comes back unchanged, and nowhere else does any.
pub proof fn law_attributes_are_read_as_they_stand(
    attributes: Map<Seq<char>, String>,
    transform: Result<[u64; 6], String>,
    bbox: Result<[u64; 4], String>,
    found_code: Result<String, ZarrError>,
    found_transform: Result<[u64; 6], ZarrError>,
    found_bbox: Result<[u64; 4], ZarrError>,
    found_shape: Result<[u64; 2], ZarrError>,
    found_registration: Result<SpatialRegistration, ZarrError>,
)
    requires
        code_result(string_attribute(attributes, "proj:code"@), found_code),
        transform_result(attributes, transform, found_transform),
        bbox_result(attributes, bbox, found_bbox),
        shape_result(pair_attribute(attributes, "spatial:shape"@), found_shape),
        registration_result(
            string_attribute(attributes, "spatial:registration"@),
            found_registration,
        ),
    ensures
        found_code is Ok <==> attributes.dom().contains("proj:code"@) && json_text(
            attributes["proj:code"@]@,
        ) is Some,
        found_code matches Ok(code) ==> json_text(attributes["proj:code"@]@) == Some(code@),
        found_transform is Ok <==> attributes.dom().contains("spatial:transform"@) && transform is Ok,
        found_transform matches Ok(numbers) ==> transform == Ok::<[u64; 6], String>(numbers),
        found_bbox is Ok <==> attributes.dom().contains("spatial:bbox"@) && bbox is Ok,
        found_bbox matches Ok(numbers) ==> bbox == Ok::<[u64; 4], String>(numbers),
        found_shape is Ok <==> attributes.dom().contains("spatial:shape"@) && json_pair(
            attributes["spatial:shape"@]@,
        ) is Ok,
        found_shape matches Ok(pair) ==> json_pair(attributes["spatial:shape"@]@) == Ok::<
            [u64; 2],
            Seq<char>,
        >(pair),
        found_registration matches Ok(SpatialRegistration::Node) <==> attributes.dom().contains(
            "spatial:registration"@,
        ) && json_text(attributes["spatial:registration"@]@) == Some("node"@),
        found_registration matches Ok(SpatialRegistration::Pixel) <==> attributes.dom().contains(
            "spatial:registration"@,
        ) && json_text(attributes["spatial:registration"@]@) == Some("pixel"@),
{
    reveal_strlit("node");
    reveal_strlit("pixel");
    assert("node"@.len() == 4 && "pixel"@.len() == 5);
}

/// The texts of some strings are as many as the strings, each the characters of its
/// own.
pub proof fn law_texts_are_those_of_the_strings(strings: Seq<String>, maybe: Option<String>)
    ensures
        texts(strings).len() == strings.len(),
        forall|k: int| 0 <= k < strings.len() ==> #[trigger] texts(strings)[k] == strings[k]@,
        text_view(maybe) is Some <==> maybe is Some,
        maybe is Some ==> text_view(maybe)->Some_0 == maybe->Some_0@,
{
}

} // verus!
