//! The nodes of a Zarr store: which arrays hold data, and which one holds times.

use vstd::prelude::*;

use crate::attributes::{json_as_strings, Attributes};
use crate::dims::DimensionName;
use crate::error::ZarrError;
use crate::text::same;

#[allow(unused_imports)]
use crate::attributes::{json_texts, texts};

verus! {

/// What the metadata of a node say of its dimensions.
pub enum NodeMetadata {
    /// A group, which has none.
    Group,
    /// An array of the second version of the format: an attribute lists their
    /// names.
    ArrayV2 { attributes: Attributes },
    /// An array of the third version of the format: their names, as far as they
    /// have any.
    ArrayV3 { dimension_names: Option<Vec<DimensionName>> },
}

/// A node of a store.
pub struct NodeInfo {
    /// The path of the node, such as `/snow/depth`.
    pub path: String,
    /// The name of the node, the last part of its path.
    pub name: String,
    /// Its metadata.
    pub metadata: NodeMetadata,
}

/// The names of dimensions that all have one.
pub open spec fn all_names(names: Seq<DimensionName>) -> Option<Seq<Seq<char>>> {
    if forall|k: int| 0 <= k < names.len() ==> #[trigger] names[k] is Some {
        Some(names.map_values(|n: DimensionName| n->Some_0@))
    } else {
        None
    }
}

/// The names of the dimensions of a node, where they are known.
pub open spec fn dimensions(metadata: NodeMetadata) -> Option<Seq<Seq<char>>> {
    match metadata {
        NodeMetadata::Group => Some(Seq::empty()),
        NodeMetadata::ArrayV2 { attributes } => if attributes@.dom().contains("_ARRAY_DIMENSIONS"@) {
            json_texts(attributes@["_ARRAY_DIMENSIONS"@]@)
        } else {
            None
        },
        NodeMetadata::ArrayV3 { dimension_names } => match dimension_names {
            Some(names) => all_names(names@),
            None => None,
        },
    }
}

/// What is said of a node whose dimensions are not known.
pub open spec fn dimensions_text(metadata: NodeMetadata) -> Seq<char> {
    if metadata is ArrayV2 {
        "_ARRAY_DIMENSIONS missing or invalid"@
    } else {
        "dimension_names missing or contains null elements"@
    }
}

/// Whether a name is that of a dimension: an array of this name holds coordinates.
pub open spec fn is_coordinate(name: Seq<char>, names: Seq<Seq<char>>) -> bool {
    exists|k: int| 0 <= k < names.len() && name == #[trigger] names[k]
}

/// Whether a node is an array that is known to hold data.
pub open spec fn holds_data(node: NodeInfo) -> bool {
    &&& !(node.metadata is Group)
    &&& dimensions(node.metadata) matches Some(names)
    &&& !is_coordinate(node.name@, names)
}

/// The paths of the arrays that hold data.
pub open spec fn data_paths(nodes: Seq<NodeInfo>) -> Seq<Seq<char>>
    decreases nodes.len(),
{
    if nodes.len() == 0 {
        Seq::empty()
    } else if holds_data(nodes.last()) {
        data_paths(nodes.drop_last()).push(nodes.last().path@)
    } else {
        data_paths(nodes.drop_last())
    }
}

/// The names of dimensions that all have one.
fn complete(names: &Vec<DimensionName>) -> (r: Option<Vec<String>>)
    ensures
        match r {
            Some(strings) => all_names(names@) == Some(texts(strings@)),
            None => all_names(names@) is None,
        },
{
    let mut strings: Vec<String> = Vec::new();
    for k in 0..names.len()
        invariant
            strings@.len() == k,
            forall|m: int| 0 <= m < k ==> #[trigger] names@[m] is Some && names@[m]->Some_0@ == strings@[m]@,
    {
        match &names[k] {
            Some(name) => strings.push(name.clone()),
            None => {
                assert(names@[k as int] is None);
                return None;
            },
        }
    }
    proof {
        assert(all_names(names@)->Some_0 =~= texts(strings@));
    }
    Some(strings)
}

/// The names of the dimensions of a node.
fn dimension_names_of(metadata: &NodeMetadata) -> (r: Result<Vec<String>, ZarrError>)
    ensures
        match r {
            Ok(strings) => dimensions(*metadata) == Some(texts(strings@)),
            Err(e) => dimensions(*metadata) is None && e.is_attribute_error(
                dimensions_text(*metadata),
            ),
        },
{
    let found: Option<Vec<String>> = match metadata {
        NodeMetadata::Group => {
            let none: Vec<String> = Vec::new();
            assert(texts(none@) =~= Seq::empty());
            Some(none)
        },
        NodeMetadata::ArrayV2 { attributes } => match attributes.get("_ARRAY_DIMENSIONS") {
            Some(json) => json_as_strings(json.as_str()),
            None => None,
        },
        NodeMetadata::ArrayV3 { dimension_names } => match dimension_names {
            Some(names) => complete(names),
            None => None,
        },
    };
    match (found, metadata) {
        (Some(strings), _) => Ok(strings),
        (None, NodeMetadata::ArrayV2 { .. }) => Err(
            ZarrError::AttributeError("_ARRAY_DIMENSIONS missing or invalid".to_owned()),
        ),
        (None, _) => Err(
            ZarrError::AttributeError(
                "dimension_names missing or contains null elements".to_owned(),
            ),
        ),
    }
}

/// Whether a node holds data: it is named like none of its dimensions. A group, which
/// has no dimensions, does.
pub fn is_data_variable(node: &NodeInfo) -> (r: Result<bool, ZarrError>)
    ensures
        match dimensions(node.metadata) {
            Some(names) => r matches Ok(is_data) && (is_data <==> !is_coordinate(node.name@, names)),
            None => r matches Err(e) && e.is_attribute_error(dimensions_text(node.metadata)),
        },
{
    match dimension_names_of(&node.metadata) {
        Ok(names) => Ok(!among(&node.name, &names)),
        Err(e) => Err(e),
    }
}

/// The paths of the arrays that hold data, in their order. An array whose dimensions
/// are not known is left out.
pub fn data_variables(nodes: &Vec<NodeInfo>) -> (r: Vec<String>)
    ensures
        texts(r@) == data_paths(nodes@),
        forall|k: int|
            0 <= k < nodes@.len() && !((#[trigger] nodes@[k]).metadata is Group) && dimensions(
                nodes@[k].metadata,
            ) is Some && !dimensions(nodes@[k].metadata)->Some_0.contains(nodes@[k].name@)
                ==> texts(r@).contains(nodes@[k].path@),
        forall|path: Seq<char>| #[trigger]
            texts(r@).contains(path) ==> exists|k: int| {
                &&& 0 <= k < nodes@.len()
                &&& (#[trigger] nodes@[k]).path@ == path
                &&& !(nodes@[k].metadata is Group)
                &&& dimensions(nodes@[k].metadata) is Some
                &&& !dimensions(nodes@[k].metadata)->Some_0.contains(nodes@[k].name@)
            },
{
    let mut paths: Vec<String> = Vec::new();
    for k in 0..nodes.len()
        invariant
            texts(paths@) == data_paths(nodes@.take(k as int)),
    {
        let ghost before = paths@;
        proof {
            assert(nodes@.take(k + 1).drop_last() =~= nodes@.take(k as int));
            assert(nodes@.take(k + 1).last() == nodes@[k as int]);
        }
        let is_array = match &nodes[k].metadata {
            NodeMetadata::Group => false,
            _ => true,
        };
        let is_data = match is_data_variable(&nodes[k]) {
            Ok(is_data) => is_data,
            Err(_) => false,
        };
        if is_array && is_data {
            paths.push(nodes[k].path.clone());
            assert(texts(paths@) =~= texts(before).push(nodes@[k as int].path@));
        }
    }
    assert(nodes@.take(nodes@.len() as int) =~= nodes@);
    proof {
        assert forall|k: int|
            0 <= k < nodes@.len() && !((#[trigger] nodes@[k]).metadata is Group) && dimensions(
                nodes@[k].metadata,
            ) is Some && !dimensions(nodes@[k].metadata)->Some_0.contains(
                nodes@[k].name@,
            ) implies texts(paths@).contains(nodes@[k].path@) by {
            law_array_is_listed(nodes@, k);
        }
        assert forall|path: Seq<char>| #[trigger] texts(paths@).contains(path) implies exists|k: int| {
            &&& 0 <= k < nodes@.len()
            &&& (#[trigger] nodes@[k]).path@ == path
            &&& !(nodes@[k].metadata is Group)
            &&& dimensions(nodes@[k].metadata) is Some
            &&& !dimensions(nodes@[k].metadata)->Some_0.contains(nodes@[k].name@)
        } by {
            let k = law_listed_is_an_array(nodes@, path);
            assert(nodes@[k].path@ == path);
        }
    }
    paths
}

/// The path of the first node that is named `time`.
pub fn time_coords(nodes: &Vec<NodeInfo>) -> (r: Option<String>)
    ensures
        match r {
            Some(path) => exists|k: int| {
                &&& 0 <= k < nodes@.len()
                &&& (#[trigger] nodes@[k]).name@ == "time"@
                &&& nodes@[k].path@ == path@
                &&& forall|m: int| 0 <= m < k ==> (#[trigger] nodes@[m]).name@ != "time"@
            },
            None => forall|k: int| 0 <= k < nodes@.len() ==> (#[trigger] nodes@[k]).name@ != "time"@,
        },
{
    for k in 0..nodes.len()
        invariant
            forall|m: int| 0 <= m < k ==> (#[trigger] nodes@[m]).name@ != "time"@,
    {
        if same(nodes[k].name.as_str(), "time") {
            return Some(nodes[k].path.clone());
        }
    }
    None
}

/// Whether a name is among the names.
fn among(name: &String, names: &Vec<String>) -> (r: bool)
    ensures
        r <==> texts(names@).contains(name@),
        r <==> is_coordinate(name@, texts(names@)),
{
    for k in 0..names.len()
        invariant
            forall|m: int| 0 <= m < k ==> #[trigger] texts(names@)[m] != name@,
    {
        if names[k] == *name {
            assert(texts(names@)[k as int] == name@);
            return true;
        }
    }
    false
}

/// The names of the dimensions that have one and are not spatial.
pub open spec fn other_names(names: Seq<DimensionName>, spatial: Seq<Seq<char>>) -> Seq<Seq<char>>
    decreases names.len(),
{
    if names.len() == 0 {
        Seq::empty()
    } else {
        let rest = other_names(names.drop_last(), spatial);
        match names.last() {
            Some(name) => if spatial.contains(name@) {
                rest
            } else {
                rest.push(name@)
            },
            None => rest,
        }
    }
}

/// The names of the dimensions of an array that are not spatial, in their order;
/// dimensions without a name are left out.
pub fn get_non_spatial_dims(
    dimension_names: &Option<Vec<DimensionName>>,
    spatial_dims: &Vec<String>,
) -> (r: Result<Vec<String>, String>)
    ensures
        match *dimension_names {
            Some(names) => r matches Ok(dims) && texts(dims@) == other_names(
                names@,
                texts(spatial_dims@),
            ),
            None => r matches Err(e) && e@ == "Could not retrieve dimension names"@,
        },
{
    let names = match dimension_names {
        Some(names) => names,
        None => {
            return Err("Could not retrieve dimension names".to_owned());
        },
    };
    let mut non_spatial: Vec<String> = Vec::new();
    for k in 0..names.len()
        invariant
            texts(non_spatial@) == other_names(names@.take(k as int), texts(spatial_dims@)),
    {
        let ghost before = non_spatial@;
        proof {
            assert(names@.take(k + 1).drop_last() =~= names@.take(k as int));
            assert(names@.take(k + 1).last() == names@[k as int]);
        }
        match &names[k] {
            Some(name) => {
                if !among(name, spatial_dims) {
                    non_spatial.push(name.clone());
                    assert(texts(non_spatial@) =~= texts(before).push(name@));
                }
            },
            None => {},
        }
    }
    assert(names@.take(names@.len() as int) =~= names@);
    Ok(non_spatial)
}

/// An array with known dimensions, however many, that is named like none of them is
/// listed among those that hold data.
pub proof fn law_array_is_listed(nodes: Seq<NodeInfo>, k: int)
    requires
        0 <= k < nodes.len(),
        !(nodes[k].metadata is Group),
        dimensions(nodes[k].metadata) is Some,
        !dimensions(nodes[k].metadata)->Some_0.contains(nodes[k].name@),
    ensures
        data_paths(nodes).contains(nodes[k].path@),
    decreases nodes.len(),
{
    let shorter = nodes.drop_last();
    if k == nodes.len() - 1 {
        assert(holds_data(nodes.last())) by {
            let names = dimensions(nodes[k].metadata)->Some_0;
            if is_coordinate(nodes[k].name@, names) {
                let m = choose|m: int| 0 <= m < names.len() && nodes[k].name@ == #[trigger] names[m];
                assert(names.contains(nodes[k].name@));
            }
        }
        assert(data_paths(nodes).last() == nodes[k].path@);
    } else {
        law_array_is_listed(shorter, k);
        let at = data_paths(shorter).index_of(nodes[k].path@);
        assert(data_paths(nodes)[at] == nodes[k].path@);
    }
}

/// What is listed among the arrays that hold data is the path of an array with known
/// dimensions that is named like none of them.
pub proof fn law_listed_is_an_array(nodes: Seq<NodeInfo>, path: Seq<char>) -> (k: int)
    requires
        data_paths(nodes).contains(path),
    ensures
        0 <= k < nodes.len(),
        nodes[k].path@ == path,
        !(nodes[k].metadata is Group),
        dimensions(nodes[k].metadata) is Some,
        !dimensions(nodes[k].metadata)->Some_0.contains(nodes[k].name@),
    decreases nodes.len(),
{
    let shorter = nodes.drop_last();
    let last = nodes.len() - 1;
    if holds_data(nodes.last()) && nodes.last().path@ == path {
        let names = dimensions(nodes[last].metadata)->Some_0;
        if names.contains(nodes[last].name@) {
            let m = names.index_of(nodes[last].name@);
            assert(nodes[last].name@ == names[m]);
            assert(is_coordinate(nodes[last].name@, names));
        }
        last
    } else {
        assert(data_paths(shorter).contains(path)) by {
            let at = data_paths(nodes).index_of(path);
            assert(data_paths(shorter)[at] == path);
        }
        law_listed_is_an_array(shorter, path)
    }
}

/// Arrays are listed in the order of their nodes, each for itself: what is listed of
/// two stores, one behind the other, is what is listed of the first and then of the
/// second.
pub proof fn law_arrays_are_listed_one_by_one(first: Seq<NodeInfo>, second: Seq<NodeInfo>)
    ensures
        data_paths(first + second) == data_paths(first) + data_paths(second),
        data_paths(Seq::empty()) == Seq::<Seq<char>>::empty(),
    decreases second.len(),
{
    if second.len() == 0 {
        assert(first + second =~= first);
        assert(data_paths(first) + data_paths(second) =~= data_paths(first));
    } else {
        law_arrays_are_listed_one_by_one(first, second.drop_last());
        assert((first + second).drop_last() =~= first + second.drop_last());
        assert((first + second).last() == second.last());
        assert(data_paths(first + second) =~= data_paths(first) + data_paths(second));
    }
}

/// The dimensions of an array are those that its metadata name, however many: all of
/// them, where each has a name, and none where one lacks it. A group has none.
pub proof fn law_dimensions_are_as_named(metadata: NodeMetadata)
    ensures
        metadata is Group ==> dimensions(metadata) == Some(Seq::<Seq<char>>::empty()),
        metadata matches NodeMetadata::ArrayV2 { attributes } ==> dimensions(metadata) == (
        if attributes@.dom().contains("_ARRAY_DIMENSIONS"@) {
            json_texts(attributes@["_ARRAY_DIMENSIONS"@]@)
        } else {
            None
        }),
        metadata matches NodeMetadata::ArrayV3 { dimension_names } ==> {
            &&& dimension_names is None ==> dimensions(metadata) is None
            &&& dimension_names matches Some(names) ==> {
                &&& dimensions(metadata) is None <==> exists|k: int|
                    0 <= k < names@.len() && #[trigger] names@[k] is None
                &&& dimensions(metadata) matches Some(found) ==> found.len() == names@.len()
                    && forall|k: int|
                    0 <= k < names@.len() ==> #[trigger] names@[k] is Some && found[k]
                        == names@[k]->Some_0@
            }
        },
{
}

/// The dimensions that are not spatial are listed in their order, each for itself: a
/// name that is not among the spatial ones is listed, and nothing else.
pub proof fn law_other_dimensions_are_listed_one_by_one(
    first: Seq<DimensionName>,
    second: Seq<DimensionName>,
    name: DimensionName,
    spatial: Seq<Seq<char>>,
)
    ensures
        other_names(first + second, spatial) == other_names(first, spatial) + other_names(
            second,
            spatial,
        ),
        other_names(seq![name], spatial) == (match name {
            Some(n) => if spatial.contains(n@) {
                Seq::<Seq<char>>::empty()
            } else {
                seq![n@]
            },
            None => Seq::<Seq<char>>::empty(),
        }),
    decreases second.len(),
{
    reveal_with_fuel(other_names, 2);
    assert(seq![name].drop_last() =~= Seq::empty());
    assert(other_names(seq![name], spatial) =~= (match name {
        Some(n) => if spatial.contains(n@) {
            Seq::<Seq<char>>::empty()
        } else {
            seq![n@]
        },
        None => Seq::<Seq<char>>::empty(),
    }));
    if second.len() == 0 {
        assert(first + second =~= first);
        assert(other_names(first, spatial) + other_names(second, spatial) =~= other_names(
            first,
            spatial,
        ));
    } else {
        law_other_dimensions_are_listed_one_by_one(first, second.drop_last(), name, spatial);
        assert((first + second).drop_last() =~= first + second.drop_last());
        assert((first + second).last() == second.last());
        assert(other_names(first + second, spatial) =~= other_names(first, spatial) + other_names(
            second,
            spatial,
        ));
    }
}

} // verus!
