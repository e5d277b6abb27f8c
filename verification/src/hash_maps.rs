//! The hash maps of the `ahash` crate that the sprite model is built with.
//!
//! Verus does not look inside these maps. What a map holds is named by a
//! function without a body, one for each type of map that the library
//! keeps, and each operation on a map is a small function whose contract
//! says, over that name, what `ahash` documents of it. `AHashMap` hands each
//! of these operations on to the `HashMap` of the standard library, whose
//! keys here are compared and hashed by the derived or built-in `Eq` and
//! `Hash` of their types.

use vstd::prelude::*;
use ahash::{AHashMap, RandomState};
use crate::output::{Animation, AnimationView};
use crate::wrappers::LayerParameter;

verus! {

/// `ahash::AHashMap`, as a type that is carried along and not looked into.
#[verifier::external_type_specification]
#[verifier::external_body]
#[verifier::reject_recursive_types(K)]
#[verifier::reject_recursive_types(V)]
#[verifier::reject_recursive_types(S)]
pub struct ExAHashMap<K, V, S>(AHashMap<K, V, S>);

/// `ahash::RandomState`, the hasher of these maps, as a type that is
/// carried along and not looked into.
#[verifier::external_type_specification]
#[verifier::external_body]
pub struct ExRandomState(RandomState);

/// What a map from the place of a cel, as frame and layer, to the index of
/// its image holds.
pub uninterp spec fn image_map_entries(map: AHashMap<(usize, u16), usize, RandomState>) -> Map<
    (usize, u16),
    usize,
>;

/// What a map from the parameters of a layer to their values holds.
pub uninterp spec fn layer_parameter_entries(map: AHashMap<LayerParameter, String, RandomState>)
    -> Map<LayerParameter, Seq<char>>;

/// What a map from names to animations holds.
pub uninterp spec fn animation_entries(map: AHashMap<String, Animation, RandomState>) -> Map<
    Seq<char>,
    AnimationView,
>;

/// `AHashMap::new`: a map that holds nothing.
#[verifier::external_body]
pub(crate) fn image_map_new() -> (map: AHashMap<(usize, u16), usize, RandomState>)
    ensures
        image_map_entries(map) == (Map::<(usize, u16), usize>::empty()),
{
    AHashMap::new()
}

/// `AHashMap::insert`: afterwards the map holds `value` under `key`, in
/// place of what it held under `key` before, and everything else as before.
#[verifier::external_body]
pub(crate) fn image_map_insert(
    map: &mut AHashMap<(usize, u16), usize, RandomState>,
    key: (usize, u16),
    value: usize,
)
    ensures
        image_map_entries(*final(map)) == image_map_entries(*old(map)).insert(key, value),
{
    map.insert(key, value);
}

/// `AHashMap::get`: the value that the map holds under `key`, if it holds
/// one.
#[verifier::external_body]
pub(crate) fn image_map_get(map: &AHashMap<(usize, u16), usize, RandomState>, key: (usize, u16)) -> (value:
    Option<usize>)
    ensures
        value == if image_map_entries(*map).dom().contains(key) {
            Some(image_map_entries(*map)[key])
        } else {
            None
        },
{
    map.get(&key).copied()
}

/// `AHashMap::new`: a map that holds nothing.
#[verifier::external_body]
pub(crate) fn layer_parameters_new() -> (map: AHashMap<LayerParameter, String, RandomState>)
    ensures
        layer_parameter_entries(map) == (Map::<LayerParameter, Seq<char>>::empty()),
{
    AHashMap::new()
}

/// `AHashMap::insert`: afterwards the map holds `value` under `key`, in
/// place of what it held under `key` before, and everything else as before.
#[verifier::external_body]
pub(crate) fn layer_parameters_insert(
    map: &mut AHashMap<LayerParameter, String, RandomState>,
    key: LayerParameter,
    value: String,
)
    ensures
        layer_parameter_entries(*final(map)) == layer_parameter_entries(*old(map)).insert(
            key,
            value@,
        ),
{
    map.insert(key, value);
}

/// `AHashMap::get`: a copy of the value that the map holds under `key`, if
/// it holds one.
#[verifier::external_body]
pub(crate) fn layer_parameters_get(
    map: &AHashMap<LayerParameter, String, RandomState>,
    key: LayerParameter,
) -> (value: Option<String>)
    ensures
        (value is Some) == layer_parameter_entries(*map).dom().contains(key),
        value matches Some(found) ==> found@ == layer_parameter_entries(*map)[key],
{
    map.get(&key).cloned()
}

/// `AHashMap::new`: a map that holds nothing.
#[verifier::external_body]
pub(crate) fn animations_new() -> (map: AHashMap<String, Animation, RandomState>)
    ensures
        animation_entries(map) == (Map::<Seq<char>, AnimationView>::empty()),
{
    AHashMap::new()
}

/// `AHashMap::insert`: afterwards the map holds `animation` under `name`,
/// in place of what it held under `name` before, and everything else as
/// before.
#[verifier::external_body]
pub(crate) fn animations_insert(
    map: &mut AHashMap<String, Animation, RandomState>,
    name: String,
    animation: Animation,
)
    ensures
        animation_entries(*final(map)) == animation_entries(*old(map)).insert(name@, animation@),
{
    map.insert(name, animation);
}

} // verus!
