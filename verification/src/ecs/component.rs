//! Component operations: reading components off an entity as dynamic values,
//! and adding, setting, removing and probing them by type name.

use vstd::prelude::*;
use crate::dynamic::{init_view, DynValue, DynValueView};
use crate::execution_context::{
    constructed_instance, conversion_error_model, find_constructor, is_projection_of,
    is_shaped_for, ConversionError, InstModel, LuaReflectInit, LuaReflectInitRegistry,
};
use crate::reflection::{
    get_type_id_by_str, path_of_key, resolve_key, TypeKey, TypeRegistration, TypeRegistry,
};
use crate::store::{
    first_key_index, has_component_key, has_entity, remove_model, set_components, slot_components,
    upsert_model, Entity, SlotModel, World,
};

verus! {

/// The key and conversion descriptor a name leads to, when the name resolves
/// and the resolved type has a conversion entry.
pub open spec fn resolved_entry(
    types: Seq<TypeRegistration>,
    convs: Seq<LuaReflectInit>,
    name: Seq<char>,
) -> Option<(TypeKey, LuaReflectInit)> {
    match resolve_key(types, name) {
        None => None,
        Some(key) => match find_constructor(convs, key) {
            None => None,
            Some(entry) => Some((key, entry)),
        },
    }
}

/// The outcome of reading one component, or the aggregate of many.
#[derive(Debug)]
pub enum GetComponentResult {
    /// The component, projected to a dynamic value.
    Value(DynValue),
    /// The entity is live but carries no component of the requested type.
    ComponentNotHave,
    /// The requested name is not registered, or has no conversion entry.
    NoSuchComponent(String),
    /// The entity names no live row; for an aggregate call this is the one
    /// outcome of the whole call.
    EntityNotExist(Entity),
    /// The stored instance does not fit the registered schema.
    ConversionErr(ConversionError),
    /// One outcome per requested component, in request order.
    Multiple(Vec<GetComponentResult>),
}

/// What reading the component named `name` off the live entity `e` yields.
pub open spec fn single_outcome_ok(
    sv: Seq<SlotModel>,
    types: Seq<TypeRegistration>,
    convs: Seq<LuaReflectInit>,
    e: Entity,
    name: Seq<char>,
    out: GetComponentResult,
) -> bool {
    match resolve_key(types, name) {
        None => out matches GetComponentResult::NoSuchComponent(n) && n@ == name,
        Some(key) => {
            let comps = slot_components(sv, e);
            if !has_component_key(comps, key) {
                out == GetComponentResult::ComponentNotHave
            } else {
                let inst = comps[first_key_index(comps, key)];
                match find_constructor(convs, key) {
                    None => out matches GetComponentResult::NoSuchComponent(n) && n@ == name,
                    Some(entry) => projected_outcome_ok(entry, inst, out),
                }
            }
        },
    }
}

/// What projecting one stored instance under its descriptor yields: its
/// dynamic table when it fits the schema, a conversion failure otherwise.
pub open spec fn projected_outcome_ok(
    entry: LuaReflectInit,
    inst: InstModel,
    out: GetComponentResult,
) -> bool {
    if inst.values.len() == entry.fields@.len() {
        out matches GetComponentResult::Value(v) && is_projection_of(entry.fields@, inst.values, v@)
    } else {
        out == GetComponentResult::ConversionErr(
            ConversionError::WrongFieldCount {
                expected: entry.fields@.len() as usize,
                got: inst.values.len() as usize,
            },
        )
    }
}

/// What enumerating the component at position `idx` of the live entity `e`
/// yields: its projection, or, without a conversion entry, the type's
/// registered full path (empty when even that is unknown).
pub open spec fn enumerated_outcome_ok(
    sv: Seq<SlotModel>,
    types: Seq<TypeRegistration>,
    convs: Seq<LuaReflectInit>,
    e: Entity,
    idx: int,
    out: GetComponentResult,
) -> bool {
    let inst = slot_components(sv, e)[idx];
    match find_constructor(convs, inst.key) {
        None => out matches GetComponentResult::NoSuchComponent(n) && n@ == (match path_of_key(
            types,
            inst.key,
        ) {
            Some(p) => p,
            None => Seq::<char>::empty(),
        }),
        Some(entry) => projected_outcome_ok(entry, inst, out),
    }
}

/// Reads components off an entity. With `components` given, the entity's
/// existence is checked once, up front: an absent entity yields the single
/// `EntityNotExist` outcome for the whole call, and a live one yields a list
/// with exactly one outcome per requested name, in request order — later
/// names are looked up even after an earlier one fails. With `components`
/// omitted, every component present on the live entity is enumerated and
/// projected; an empty entity yields an empty list, not an error.
pub fn get_components_fn(
    world: &World,
    entity: Entity,
    components: Option<&Vec<String>>,
    registry: &TypeRegistry,
    lua_reflect_init_registry: &LuaReflectInitRegistry,
) -> (r: GetComponentResult)
    ensures
        match components {
            Some(names) => {
                if has_entity(world@, entity) {
                    r matches GetComponentResult::Multiple(outs) && outs@.len() == names@.len()
                        && forall|i: int|
                        0 <= i < names@.len() ==> #[trigger] single_outcome_ok(
                            world@,
                            registry@,
                            lua_reflect_init_registry@,
                            entity,
                            names@[i]@,
                            outs@[i],
                        )
                } else {
                    r == GetComponentResult::EntityNotExist(entity)
                }
            },
            None => {
                if has_entity(world@, entity) {
                    r matches GetComponentResult::Multiple(outs) && outs@.len()
                        == slot_components(world@, entity).len() && forall|i: int|
                        0 <= i < outs@.len() ==> #[trigger] enumerated_outcome_ok(
                            world@,
                            registry@,
                            lua_reflect_init_registry@,
                            entity,
                            i,
                            outs@[i],
                        )
                } else {
                    r == GetComponentResult::EntityNotExist(entity)
                }
            },
        },
{
    if !world.contains(entity) {
        return GetComponentResult::EntityNotExist(entity);
    }
    match components {
        Some(names) => {
            let n = names.len();
            let mut outs: Vec<GetComponentResult> = Vec::new();
            let mut i: usize = 0;
            while i < n
                invariant
                    0 <= i <= n,
                    n == names@.len(),
                    has_entity(world@, entity),
                    outs@.len() == i,
                    forall|j: int|
                        0 <= j < i ==> #[trigger] single_outcome_ok(
                            world@,
                            registry@,
                            lua_reflect_init_registry@,
                            entity,
                            names@[j]@,
                            outs@[j],
                        ),
                decreases n - i,
            {
                let out = get_single_component(
                    world,
                    entity,
                    &names[i],
                    registry,
                    lua_reflect_init_registry,
                );
                outs.push(out);
                i += 1;
            }
            GetComponentResult::Multiple(outs)
        },
        None => {
            let comps = world.components(entity);
            let n = comps.len();
            let mut outs: Vec<GetComponentResult> = Vec::new();
            let mut i: usize = 0;
            while i < n
                invariant
                    0 <= i <= n,
                    has_entity(world@, entity),
                    n == comps@.len(),
                    comps@.map_values(|c: crate::execution_context::NativeInstance| c@)
                        == slot_components(world@, entity),
                    outs@.len() == i,
                    forall|j: int|
                        0 <= j < i ==> #[trigger] enumerated_outcome_ok(
                            world@,
                            registry@,
                            lua_reflect_init_registry@,
                            entity,
                            j,
                            outs@[j],
                        ),
                decreases n - i,
            {
                let inst = &comps[i];
                proof {
                    assert(inst@ == slot_components(world@, entity)[i as int]);
                }
                let out = match lua_reflect_init_registry.get_constructor(inst.key) {
                    None => {
                        let name = match registry.full_path_of(inst.key) {
                            Some(p) => p.clone(),
                            None => String::new(),
                        };
                        GetComponentResult::NoSuchComponent(name)
                    },
                    Some(entry) => {
                        if inst.values.len() == entry.fields.len() {
                            GetComponentResult::Value(entry.to_lua(inst))
                        } else {
                            GetComponentResult::ConversionErr(
                                ConversionError::WrongFieldCount {
                                    expected: entry.fields.len(),
                                    got: inst.values.len(),
                                },
                            )
                        }
                    },
                };
                outs.push(out);
                i += 1;
            }
            GetComponentResult::Multiple(outs)
        },
    }
}

/// Reads one named component off the live entity `entity`.
fn get_single_component(
    world: &World,
    entity: Entity,
    component_name: &str,
    registry: &TypeRegistry,
    convs: &LuaReflectInitRegistry,
) -> (r: GetComponentResult)
    requires
        has_entity(world@, entity),
    ensures
        single_outcome_ok(world@, registry@, convs@, entity, component_name@, r),
{
    let key = match get_type_id_by_str(component_name, registry) {
        Some(k) => k,
        None => {
            return GetComponentResult::NoSuchComponent(component_name.to_owned());
        },
    };
    let inst = match world.get_component(entity, key) {
        Some(c) => c,
        None => {
            return GetComponentResult::ComponentNotHave;
        },
    };
    let entry = match convs.get_constructor(key) {
        Some(e) => e,
        None => {
            return GetComponentResult::NoSuchComponent(component_name.to_owned());
        },
    };
    if inst.values.len() == entry.fields.len() {
        GetComponentResult::Value(entry.to_lua(inst))
    } else {
        GetComponentResult::ConversionErr(
            ConversionError::WrongFieldCount {
                expected: entry.fields.len(),
                got: inst.values.len(),
            },
        )
    }
}

/// How adding a component ends.
#[derive(Clone, Debug)]
pub enum AddComponentResult {
    Done,
    EntityDoesNotExist(Entity),
    NoSuchComponent(String),
    ConversionErr(ConversionError),
}

/// The store after an add: the constructed instance upserted onto the
/// entity, when the name resolves to a convertible type, the payload (if
/// any) fits, and the entity is live; otherwise unchanged.
pub open spec fn add_component_model(
    sv: Seq<SlotModel>,
    types: Seq<TypeRegistration>,
    convs: Seq<LuaReflectInit>,
    e: Entity,
    name: Seq<char>,
    init: Option<DynValueView>,
) -> Seq<SlotModel> {
    match resolved_entry(types, convs, name) {
        None => sv,
        Some(pair) => {
            let entry = pair.1;
            let shaped = match init {
                Some(v) => is_shaped_for(entry.fields@, v),
                None => true,
            };
            if shaped && has_entity(sv, e) {
                set_components(
                    sv,
                    e,
                    upsert_model(slot_components(sv, e), constructed_instance(entry, init)),
                )
            } else {
                sv
            }
        },
    }
}

/// The exact result an add reports for each input.
pub open spec fn add_result_ok(
    sv: Seq<SlotModel>,
    types: Seq<TypeRegistration>,
    convs: Seq<LuaReflectInit>,
    e: Entity,
    name: Seq<char>,
    init: Option<DynValueView>,
    r: AddComponentResult,
) -> bool {
    match resolve_key(types, name) {
        None => r matches AddComponentResult::NoSuchComponent(n) && n@ == name,
        Some(key) => match find_constructor(convs, key) {
            None => r matches AddComponentResult::NoSuchComponent(n) && n@ == name,
            Some(entry) => {
                let shaped = match init {
                    Some(v) => is_shaped_for(entry.fields@, v),
                    None => true,
                };
                if !shaped {
                    match init {
                        Some(v) => r == AddComponentResult::ConversionErr(
                            conversion_error_model(entry.fields@, v),
                        ),
                        None => false,
                    }
                } else if !has_entity(sv, e) {
                    r == AddComponentResult::EntityDoesNotExist(e)
                } else {
                    r == AddComponentResult::Done
                }
            },
        },
    }
}

/// Adds a component to an entity by type name: resolves the name, constructs
/// the instance from the payload (or the schema's defaults), and upserts it.
/// Every failure leaves the store unchanged.
pub fn add_component_fn(
    world: &mut World,
    entity: Entity,
    component_name: &str,
    init_value: Option<&DynValue>,
    type_registry: &TypeRegistry,
    lua_reflect_init_registry: &LuaReflectInitRegistry,
) -> (r: AddComponentResult)
    requires
        old(world).wf(),
    ensures
        final(world).wf(),
        final(world)@ == add_component_model(
            old(world)@,
            type_registry@,
            lua_reflect_init_registry@,
            entity,
            component_name@,
            init_view(init_value),
        ),
        add_result_ok(
            old(world)@,
            type_registry@,
            lua_reflect_init_registry@,
            entity,
            component_name@,
            init_view(init_value),
            r,
        ),
{
    let key = match get_type_id_by_str(component_name, type_registry) {
        Some(k) => k,
        None => {
            return AddComponentResult::NoSuchComponent(component_name.to_owned());
        },
    };
    let entry = match lua_reflect_init_registry.get_constructor(key) {
        Some(e) => e,
        None => {
            return AddComponentResult::NoSuchComponent(component_name.to_owned());
        },
    };
    let constructed = match init_value {
        Some(value) => match entry.from_lua(value) {
            Ok(c) => c,
            Err(err) => {
                return AddComponentResult::ConversionErr(err);
            },
        },
        None => entry.default(),
    };
    if world.insert_component(entity, constructed) {
        AddComponentResult::Done
    } else {
        AddComponentResult::EntityDoesNotExist(entity)
    }
}

/// How removing a component ends.
#[derive(Clone, Debug)]
pub enum RemoveComponentResult {
    Done,
    EntityDoesNotExist(Entity),
    NoSuchComponent(String),
}

/// The store after a remove: the named component detached from the live
/// entity when the name resolves and the entity carries it; otherwise
/// unchanged. Removing an absent component is no error.
pub open spec fn remove_component_model(
    sv: Seq<SlotModel>,
    types: Seq<TypeRegistration>,
    e: Entity,
    name: Seq<char>,
) -> Seq<SlotModel> {
    match resolve_key(types, name) {
        None => sv,
        Some(key) => {
            if has_entity(sv, e) && has_component_key(slot_components(sv, e), key) {
                set_components(sv, e, remove_model(slot_components(sv, e), key))
            } else {
                sv
            }
        },
    }
}

/// The exact result a remove reports for each input.
pub open spec fn remove_result_ok(
    sv: Seq<SlotModel>,
    types: Seq<TypeRegistration>,
    e: Entity,
    name: Seq<char>,
    r: RemoveComponentResult,
) -> bool {
    match resolve_key(types, name) {
        None => r matches RemoveComponentResult::NoSuchComponent(n) && n@ == name,
        Some(key) => {
            if !has_entity(sv, e) {
                r == RemoveComponentResult::EntityDoesNotExist(e)
            } else {
                r == RemoveComponentResult::Done
            }
        },
    }
}

/// Removes the named component from an entity. Only an unknown name and an
/// absent entity are errors; removing a component the entity lacks simply
/// leaves the store unchanged.
pub fn remove_component_fn(
    world: &mut World,
    entity: Entity,
    component_name: &str,
    type_registry: &TypeRegistry,
) -> (r: RemoveComponentResult)
    requires
        old(world).wf(),
    ensures
        final(world).wf(),
        final(world)@ == remove_component_model(
            old(world)@,
            type_registry@,
            entity,
            component_name@,
        ),
        remove_result_ok(old(world)@, type_registry@, entity, component_name@, r),
{
    let key = match get_type_id_by_str(component_name, type_registry) {
        Some(k) => k,
        None => {
            return RemoveComponentResult::NoSuchComponent(component_name.to_owned());
        },
    };
    if !world.contains(entity) {
        return RemoveComponentResult::EntityDoesNotExist(entity);
    }
    let _removed = world.remove_component(entity, key);
    RemoveComponentResult::Done
}

/// How setting a component ends.
#[derive(Clone, Debug)]
pub enum SetComponentResult {
    Done,
    EntityDoesNotExist(Entity),
    NoSuchComponent(String),
    ConversionErr(ConversionError),
}

/// The store after a set: the converted value upserted onto the live entity
/// when the name resolves to a convertible type and the value fits its
/// schema; otherwise unchanged.
pub open spec fn set_component_model(
    sv: Seq<SlotModel>,
    types: Seq<TypeRegistration>,
    convs: Seq<LuaReflectInit>,
    e: Entity,
    name: Seq<char>,
    value: DynValueView,
) -> Seq<SlotModel> {
    add_component_model(sv, types, convs, e, name, Some(value))
}

/// The exact result a set reports for each input.
pub open spec fn set_result_ok(
    sv: Seq<SlotModel>,
    types: Seq<TypeRegistration>,
    convs: Seq<LuaReflectInit>,
    e: Entity,
    name: Seq<char>,
    value: DynValueView,
    r: SetComponentResult,
) -> bool {
    match resolve_key(types, name) {
        None => r matches SetComponentResult::NoSuchComponent(n) && n@ == name,
        Some(key) => match find_constructor(convs, key) {
            None => r matches SetComponentResult::NoSuchComponent(n) && n@ == name,
            Some(entry) => {
                if !is_shaped_for(entry.fields@, value) {
                    r == SetComponentResult::ConversionErr(
                        conversion_error_model(entry.fields@, value),
                    )
                } else if !has_entity(sv, e) {
                    r == SetComponentResult::EntityDoesNotExist(e)
                } else {
                    r == SetComponentResult::Done
                }
            },
        },
    }
}

/// Sets a component's value by type name, converting the mandatory payload;
/// the component is created if the entity lacked it. Every failure leaves
/// the store unchanged.
pub fn set_component_fn(
    world: &mut World,
    entity: Entity,
    component_name: &str,
    new_value: &DynValue,
    type_registry: &TypeRegistry,
    lua_reflect_init_registry: &LuaReflectInitRegistry,
) -> (r: SetComponentResult)
    requires
        old(world).wf(),
    ensures
        final(world).wf(),
        final(world)@ == set_component_model(
            old(world)@,
            type_registry@,
            lua_reflect_init_registry@,
            entity,
            component_name@,
            new_value@,
        ),
        set_result_ok(
            old(world)@,
            type_registry@,
            lua_reflect_init_registry@,
            entity,
            component_name@,
            new_value@,
            r,
        ),
{
    let key = match get_type_id_by_str(component_name, type_registry) {
        Some(k) => k,
        None => {
            return SetComponentResult::NoSuchComponent(component_name.to_owned());
        },
    };
    let entry = match lua_reflect_init_registry.get_constructor(key) {
        Some(e) => e,
        None => {
            return SetComponentResult::NoSuchComponent(component_name.to_owned());
        },
    };
    let converted = match entry.from_lua(new_value) {
        Ok(c) => c,
        Err(err) => {
            return SetComponentResult::ConversionErr(err);
        },
    };
    if world.insert_component(entity, converted) {
        SetComponentResult::Done
    } else {
        SetComponentResult::EntityDoesNotExist(entity)
    }
}

/// Whether the entity carries a component of the named type. Returns false
/// uniformly both when the name is unregistered and when the live entity
/// lacks the component: the two cases are intentionally indistinguishable
/// here.
pub fn has_component_fn(
    world: &World,
    entity: Entity,
    component_name: &str,
    type_registry: &TypeRegistry,
) -> (r: bool)
    ensures
        r == match resolve_key(type_registry@, component_name@) {
            Some(key) => has_entity(world@, entity) && has_component_key(
                slot_components(world@, entity),
                key,
            ),
            None => false,
        },
{
    let key = match get_type_id_by_str(component_name, type_registry) {
        Some(k) => k,
        None => {
            return false;
        },
    };
    world.get_component(entity, key).is_some()
}

} // verus!
