//! Entity operations: spawning rows, with or without a prototype bundle, and
//! despawning them.

use vstd::prelude::*;
use crate::dynamic::{init_view, DynValue, DynValueView};
use crate::ecs::LuaBridgeError;
use crate::execution_context::{
    constructed_instance, conversion_error_model, find_constructor, is_shaped_for, InstModel,
    LuaReflectInit, LuaReflectInitRegistry, NativeInstance,
};
use crate::reflection::{get_type_id_by_str, resolve_key, TypeRegistration, TypeRegistry};
use crate::store::{
    despawn_model, has_entity, live_count, set_components, slot_components, spawn_model, Entity,
    SlotModel, World,
};

verus! {

/// Whether a prototype spawn's construction succeeds: the name resolves, a
/// conversion entry exists, and a given payload is shaped for its schema.
pub open spec fn spawn_proto_outcome(
    sv: Seq<SlotModel>,
    types: Seq<TypeRegistration>,
    convs: Seq<LuaReflectInit>,
    name: Seq<char>,
    init: Option<DynValueView>,
) -> Option<(Seq<SlotModel>, Entity)> {
    match resolve_key(types, name) {
        None => None,
        Some(key) => match find_constructor(convs, key) {
            None => None,
            Some(entry) => {
                let shaped = match init {
                    Some(v) => is_shaped_for(entry.fields@, v),
                    None => true,
                };
                if shaped {
                    let inst = constructed_instance(entry, init);
                    let spawned = spawn_model(sv);
                    Some(
                        (
                            set_components(spawned.0, spawned.1, Seq::empty().push(inst)),
                            spawned.1,
                        ),
                    )
                } else {
                    None
                }
            },
        },
    }
}

/// The exact error a failed prototype spawn reports: an unknown or
/// unconvertible type by name, or the payload's rejection under the schema.
pub open spec fn spawn_proto_error_ok(
    types: Seq<TypeRegistration>,
    convs: Seq<LuaReflectInit>,
    name: Seq<char>,
    init: Option<DynValueView>,
    err: LuaBridgeError,
) -> bool {
    match resolve_key(types, name) {
        None => err matches LuaBridgeError::NoSuchType(n) && n@ == name,
        Some(key) => match find_constructor(convs, key) {
            None => err matches LuaBridgeError::NoSuchType(n) && n@ == name,
            Some(entry) => match init {
                Some(v) => !is_shaped_for(entry.fields@, v) && err
                    == (LuaBridgeError::ConversionFailure {
                    key,
                    reason: conversion_error_model(entry.fields@, v),
                }),
                None => false,
            },
        },
    }
}

/// Creates a row with no components; always succeeds.
pub fn spawn_empty_fn(world: &mut World) -> (e: Entity)
    requires
        old(world).wf(),
    ensures
        final(world).wf(),
        final(world)@ == spawn_model(old(world)@).0,
        e == spawn_model(old(world)@).1,
        has_entity(final(world)@, e),
        !has_entity(old(world)@, e),
        slot_components(final(world)@, e).len() == 0,
{
    world.spawn_empty()
}

/// Creates a row carrying the given constructed bundle. The row and its
/// bundle appear together: no entity is visible without it.
pub fn spawn_fn(world: &mut World, bundle: NativeInstance) -> (e: Entity)
    requires
        old(world).wf(),
    ensures
        final(world).wf(),
        e == spawn_model(old(world)@).1,
        final(world)@ == set_components(
            spawn_model(old(world)@).0,
            e,
            Seq::empty().push(bundle@),
        ),
        has_entity(final(world)@, e),
        !has_entity(old(world)@, e),
{
    let e = world.spawn_empty();
    let ghost sv1 = world@;
    let inserted = world.insert_component(e, bundle);
    proof {
        assert(inserted);
        assert(slot_components(sv1, e) =~= Seq::<InstModel>::empty());
        assert(final(world)@ == set_components(sv1, e, Seq::empty().push(bundle@)));
    }
    e
}

/// Spawns an entity from a registered prototype: resolves the name, builds
/// the bundle from the payload (or the schema's defaults), and attaches it
/// atomically with the new row. On any failure no entity is created and the
/// store is unchanged; the error tells an unknown type apart from a payload
/// the conversion rejected.
pub fn spawn_reflect_fn(
    world: &mut World,
    proto_name: &str,
    lua_value: Option<&DynValue>,
    type_registration: &TypeRegistry,
    lua_bundle_registry: &LuaReflectInitRegistry,
) -> (r: Result<Entity, LuaBridgeError>)
    requires
        old(world).wf(),
    ensures
        final(world).wf(),
        match spawn_proto_outcome(
            old(world)@,
            type_registration@,
            lua_bundle_registry@,
            proto_name@,
            init_view(lua_value),
        ) {
            Some(outcome) => {
                &&& r == Ok::<Entity, LuaBridgeError>(outcome.1)
                &&& final(world)@ == outcome.0
                &&& has_entity(final(world)@, outcome.1)
                &&& !has_entity(old(world)@, outcome.1)
            },
            None => {
                &&& final(world)@ == old(world)@
                &&& live_count(final(world)@) == live_count(old(world)@)
                &&& r matches Err(err) && spawn_proto_error_ok(
                    type_registration@,
                    lua_bundle_registry@,
                    proto_name@,
                    init_view(lua_value),
                    err,
                )
            },
        },
{
    let key = match get_type_id_by_str(proto_name, type_registration) {
        Some(k) => k,
        None => {
            return Err(LuaBridgeError::NoSuchType(proto_name.to_owned()));
        },
    };
    let entry = match lua_bundle_registry.get_constructor(key) {
        Some(e) => e,
        None => {
            return Err(LuaBridgeError::NoSuchType(proto_name.to_owned()));
        },
    };
    let bundle = match lua_value {
        Some(v) => match entry.from_lua(v) {
            Ok(b) => b,
            Err(reason) => {
                return Err(LuaBridgeError::ConversionFailure { key, reason });
            },
        },
        None => entry.default(),
    };
    let e = world.spawn_empty();
    let ghost sv1 = world@;
    let inserted = world.insert_component(e, bundle);
    proof {
        assert(inserted);
        assert(slot_components(sv1, e) =~= Seq::<InstModel>::empty());
    }
    Ok(e)
}

/// Removes the row `entity` names and says whether it existed beforehand.
/// Despawning an absent entity is reported, never a crash: the store is
/// simply unchanged.
pub fn despawn_fn(world: &mut World, entity: Entity) -> (existed: bool)
    requires
        old(world).wf(),
    ensures
        final(world).wf(),
        existed == has_entity(old(world)@, entity),
        existed ==> final(world)@ == despawn_model(old(world)@, entity),
        !existed ==> final(world)@ == old(world)@,
        !has_entity(final(world)@, entity),
{
    world.despawn(entity)
}

} // verus!
