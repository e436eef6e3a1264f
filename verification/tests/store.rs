use zarr_tiles::attributes::{
    get_bbox, get_fill_value, get_proj_code, get_spatial_dims, get_spatial_registration,
    get_spatial_shape, get_spatial_transform, get_string, proj_code, spatial_registration,
    spatial_shape, Attributes, Rounding, SpatialRegistration,
};
use zarr_tiles::error::ZarrError;
use zarr_tiles::nodes::{
    data_variables, get_non_spatial_dims, is_data_variable, time_coords,
    NodeInfo, NodeMetadata,
};

fn attributes(entries: &[(&str, &str)]) -> Attributes {
    let mut found = Attributes::new();
    for (key, json) in entries {
        found.insert(key.to_string(), json.to_string());
    }
    found
}

fn text(e: ZarrError) -> String {
    match e {
        ZarrError::AttributeError(text) => text,
        _ => panic!("another error: {e:?}"),
    }
}

/// The numbers that an attribute holds, as bit patterns.
fn decode<const N: usize>(json: &str) -> Result<[u64; N], String> {
    let numbers: Vec<f64> = serde_json::from_str(json).map_err(|e| e.to_string())?;
    let bits: Vec<u64> = numbers.iter().map(|n| n.to_bits()).collect();
    bits.try_into().map_err(|_| "another length".to_string())
}

#[test]
fn test_get_spatial_transform() {
    let json = "[1000.0, 0.0, 19500.0, 0.0, -1000.0, 620500.0]";
    let store = attributes(&[("spatial:transform", json)]);
    let transform =
        get_spatial_transform(&store, decode(json)).expect("could not get transform");

    assert_eq!(
        transform.map(f64::from_bits),
        [1000.0, 0.0, 19500.0, 0.0, -1000.0, 620500.0]
    );
}

#[test]
fn test_get_bbox() {
    let json = "[19500.0, 189500.0, 720500.0, 620500.0]";
    let store = attributes(&[("spatial:bbox", json)]);
    let bbox = get_bbox(&store, decode(json)).expect("could not get bounding box");

    assert_eq!(bbox.map(f64::from_bits), [19500.0, 189500.0, 720500.0, 620500.0]);
}

#[test]
fn missing_and_invalid_numbers_are_refused() {
    let none = attributes(&[]);
    let all = attributes(&[("spatial:transform", "1"), ("spatial:bbox", "1"), ("fill_value", "x")]);
    assert_eq!(
        text(get_spatial_transform(&none, Ok([0; 6])).unwrap_err()),
        "spatial:transform is missing"
    );
    assert_eq!(
        text(get_spatial_transform(&all, Err("no".into())).unwrap_err()),
        "Invalid spatial:transform format: no"
    );
    assert_eq!(text(get_bbox(&none, Ok([0; 4])).unwrap_err()), "spatial:transform is missing");
    assert_eq!(
        text(get_bbox(&all, Err("no".into())).unwrap_err()),
        "Invalid spatial:transform format: no"
    );
    assert_eq!(text(get_fill_value(&none, Ok(0)).unwrap_err()), "fill_value is missing");
    assert_eq!(text(get_fill_value(&all, Err("no".into())).unwrap_err()), "Missing fill_value: no");
    assert_eq!(get_fill_value(&all, Ok(7)).unwrap(), 7);
}

#[test]
fn coordinate_systems_are_texts() {
    let store = attributes(&[("proj:code", "\"EPSG:31\\u00328\\u0037\"")]);
    assert_eq!(get_proj_code(&store).unwrap(), "EPSG:31287");
    assert_eq!(get_string(&store, "proj:code"), Some("EPSG:31287".to_string()));
    for json in ["31287", "null", "[\"EPSG:4326\"]"] {
        let store = attributes(&[("proj:code", json)]);
        assert_eq!(text(get_proj_code(&store).unwrap_err()), "proj:code");
    }
    assert_eq!(text(get_proj_code(&attributes(&[])).unwrap_err()), "proj:code");
    assert_eq!(proj_code(Some("EPSG:4326".into())).unwrap(), "EPSG:4326");
    assert_eq!(text(proj_code(None).unwrap_err()), "proj:code");
}

#[test]
fn shapes_are_pairs_of_whole_numbers() {
    let shape = |json| get_spatial_shape(&attributes(&[("spatial:shape", json)]));
    assert_eq!(shape("[431, 701]").unwrap(), [431, 701]);
    assert_eq!(shape("[0, 18446744073709551615]").unwrap(), [0, u64::MAX]);
    assert_eq!(
        text(shape("[431]").unwrap_err()),
        "Invalid spatial:shape format: invalid length 1, expected an array of length 2"
    );
    for json in ["[1, 2, 3]", "[1.5, 2]", "[-1, 2]", "\"1,2\"", "{}"] {
        assert!(text(shape(json).unwrap_err()).starts_with("Invalid spatial:shape format: "));
    }
    assert_eq!(
        text(get_spatial_shape(&attributes(&[])).unwrap_err()),
        "spatial:shape is missing"
    );
    assert_eq!(spatial_shape(Some(Ok([3, 4]))).unwrap(), [3, 4]);
    assert_eq!(text(spatial_shape(None).unwrap_err()), "spatial:shape is missing");
    assert_eq!(
        text(spatial_shape(Some(Err("no".into()))).unwrap_err()),
        "Invalid spatial:shape format: no"
    );
}

#[test]
fn registrations_are_node_or_pixel() {
    let registration = |json| get_spatial_registration(&attributes(&[("spatial:registration", json)]));
    assert_eq!(registration("\"node\"").unwrap(), SpatialRegistration::Node);
    assert_eq!(registration("\"pixel\"").unwrap(), SpatialRegistration::Pixel);
    assert_eq!(
        text(registration("\"Pixel\"").unwrap_err()),
        "invalid value for spatial:registration: Pixel"
    );
    assert_eq!(text(registration("1").unwrap_err()), "spatial:registration is missing");
    assert_eq!(
        text(spatial_registration(&None).unwrap_err()),
        "spatial:registration is missing"
    );
    assert_eq!(SpatialRegistration::Node.rounding(), Rounding::Nearest);
    assert_eq!(SpatialRegistration::Pixel.rounding(), Rounding::Down);
}

#[test]
fn spatial_dimensions_are_listed() {
    let dims = |json| get_spatial_dims(&attributes(&[("spatial:dimensions", json)]));
    assert_eq!(dims("[\"y\", \"x\"]"), Some(vec!["y".to_string(), "x".to_string()]));
    assert_eq!(dims("[]"), Some(vec![]));
    assert_eq!(dims("[\"y\", null]"), None);
    assert_eq!(dims("\"y\""), None);
    assert_eq!(get_spatial_dims(&attributes(&[])), None);
}

#[test]
fn other_dimensions_are_not_spatial() {
    let spatial = vec!["y".to_string(), "x".to_string()];
    let names = Some(vec![
        Some("time".to_string()),
        Some("y".to_string()),
        None,
        Some("band".to_string()),
        Some("x".to_string()),
    ]);
    assert_eq!(
        get_non_spatial_dims(&names, &spatial),
        Ok(vec!["time".to_string(), "band".to_string()])
    );
    assert_eq!(
        get_non_spatial_dims(&None, &spatial),
        Err("Could not retrieve dimension names".to_string())
    );
}

fn node(path: &str, metadata: NodeMetadata) -> NodeInfo {
    NodeInfo {
        path: path.to_string(),
        name: path.rsplit('/').next().unwrap().to_string(),
        metadata,
    }
}

fn v2(json: &str) -> NodeMetadata {
    NodeMetadata::ArrayV2 { attributes: attributes(&[("_ARRAY_DIMENSIONS", json)]) }
}

fn v3(names: &[&str]) -> NodeMetadata {
    NodeMetadata::ArrayV3 {
        dimension_names: Some(names.iter().map(|n| Some(n.to_string())).collect()),
    }
}

#[test]
fn coordinates_are_no_data() {
    let is_data = |path, metadata| is_data_variable(&node(path, metadata)).unwrap();
    assert!(is_data("/snow_depth", v3(&["time", "y", "x"])));
    assert!(!is_data("/time", v3(&["time"])));
    assert!(!is_data("/grid/x", v2("[\"x\"]")));
    assert!(is_data("/snow_temp", v2("[\"y\", \"x\"]")));
    // a name that only ends like a dimension is none
    assert!(is_data("/density", v3(&["y", "x"])));
    assert!(is_data("/humidity", v3(&["time", "y", "x"])));
    assert!(is_data("/x/depth", v3(&["x"])));
    assert!(is_data("/group", NodeMetadata::Group));
    assert!(is_data("/x", v3(&[])));
    assert!(is_data("/x", v3(&[""])));
}

#[test]
fn unknown_dimensions_are_reported() {
    let fault = |metadata| text(is_data_variable(&node("/a", metadata)).unwrap_err());
    for metadata in [
        v2("[1]"),
        v2("\"x\""),
        NodeMetadata::ArrayV2 { attributes: Attributes::new() },
    ] {
        assert_eq!(fault(metadata), "_ARRAY_DIMENSIONS missing or invalid");
    }
    for names in [None, Some(vec![Some("y".to_string()), None])] {
        assert_eq!(
            fault(NodeMetadata::ArrayV3 { dimension_names: names }),
            "dimension_names missing or contains null elements"
        );
    }
}

#[test]
fn data_variables_and_times_are_found() {
    let nodes = vec![
        node("/snow_depth", v3(&["time", "y", "x"])),
        node("/group", NodeMetadata::Group),
        node("/humidity", v3(&["time", "y", "x"])),
        node("/time", v3(&["time"])),
        node("/broken", NodeMetadata::ArrayV3 { dimension_names: None }),
        node("/y", v3(&["y"])),
        node("/snow_temp", v2("[\"time\", \"y\", \"x\"]")),
        node("/other/time", v3(&["time"])),
    ];
    assert_eq!(data_variables(&nodes), vec!["/snow_depth", "/humidity", "/snow_temp"]);
    assert_eq!(time_coords(&nodes), Some("/time".to_string()));
    assert_eq!(time_coords(&vec![]), None);
}
