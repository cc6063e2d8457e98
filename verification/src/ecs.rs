//! The command surface over the store: commands, responses, the error
//! taxonomy, and the processor that drains the bus once per tick.
//!
//! A command is consumed at most once; the processor produces exactly one
//! response per consumed command and delivers it to the command's ticket
//! before moving on to the next command, in enqueue order.

pub mod component;
pub mod entity;

use vstd::prelude::*;
use crate::bus::{CommandBus, Delivery};
use crate::dynamic::{init_view, opt_dyn_view, DynValue, DynValueView};
use crate::ecs::component::{
    add_component_fn, enumerated_outcome_ok, get_components_fn, remove_component_fn,
    set_component_fn, single_outcome_ok, add_component_model, remove_component_model,
    set_component_model, AddComponentResult, GetComponentResult, RemoveComponentResult,
    SetComponentResult,
};
use crate::ecs::entity::{
    despawn_fn, spawn_empty_fn, spawn_proto_error_ok, spawn_proto_outcome, spawn_reflect_fn,
};
use crate::execution_context::{
    conversion_error_model, find_constructor, is_shaped_for, ConversionError, LuaReflectInit,
    LuaReflectInitRegistry,
};
use crate::reflection::{get_type_id_by_str, resolve_key, TypeKey, TypeRegistration, TypeRegistry};
use crate::store::{
    despawn_model, has_component_key, has_entity, slot_components, spawn_model, Entity, SlotModel,
    World,
};

verus! {

/// A typed failure returned to the caller. Every lookup or conversion
/// failure is recoverable: it becomes a response value, never a crash.
#[derive(Clone, Debug)]
pub enum LuaBridgeError {
    /// No type of this name is registered, or it has no conversion entry.
    NoSuchType(String),
    /// The entity does not name a live store row.
    EntityAbsent(Entity),
    /// The entity is live but carries no component of this type.
    ComponentNotPresent { entity: Entity, key: TypeKey },
    /// The payload was rejected by the type's conversion entry.
    ConversionFailure { key: TypeKey, reason: ConversionError },
}

/// One bridge request, as script code phrases it: entities by handle, types
/// by name, payloads as dynamic values.
#[derive(Debug)]
pub enum AethaumEcsCommandType {
    SpawnEntity { proto_name: Option<String>, init_value: Option<DynValue> },
    DespawnEntity { entity: Entity },
    GetComponents { entity: Entity, components: Option<Vec<String>> },
    AddComponent { entity: Entity, component_name: String, init_value: Option<DynValue> },
    RemoveComponent { entity: Entity, component_name: String },
    SetComponent { entity: Entity, component_name: String, new_value: DynValue },
    HasComponent { entity: Entity, component_name: String },
}

/// One bridge reply: the issuing command's result shape, or a typed error.
#[derive(Debug)]
pub enum AethaumEcsCommandResponse {
    SpawnEntity { entity: Entity },
    DespawnEntity,
    GetComponents { components: Vec<GetComponentResult> },
    AddComponent,
    RemoveComponent,
    SetComponent,
    HasComponent { has: bool },
    Error(LuaBridgeError),
}

/// A command bundled with its one-shot response destination: the ticket its
/// response is delivered under, resolved once by the submitting caller.
#[derive(Debug)]
pub struct AethaumEcsCommand {
    pub command: AethaumEcsCommandType,
    pub ticket: u64,
}

/// Folds an aggregate read into a response: the whole-call "entity absent"
/// outcome becomes the typed error, a list of outcomes is handed through,
/// and a lone outcome becomes a list of one.
pub fn handle_get_component_result(result: GetComponentResult) -> (r: AethaumEcsCommandResponse)
    ensures
        match result {
            GetComponentResult::EntityNotExist(e) => r == AethaumEcsCommandResponse::Error(
                LuaBridgeError::EntityAbsent(e),
            ),
            GetComponentResult::Multiple(outs) => r == (AethaumEcsCommandResponse::GetComponents {
                components: outs,
            }),
            single => r matches AethaumEcsCommandResponse::GetComponents { components }
                && components@ == seq![single],
        },
{
    match result {
        GetComponentResult::EntityNotExist(e) => AethaumEcsCommandResponse::Error(
            LuaBridgeError::EntityAbsent(e),
        ),
        GetComponentResult::Multiple(outs) => AethaumEcsCommandResponse::GetComponents {
            components: outs,
        },
        other => {
            let mut components: Vec<GetComponentResult> = Vec::new();
            components.push(other);
            proof {
                assert(components@ =~= seq![other]);
            }
            AethaumEcsCommandResponse::GetComponents { components }
        },
    }
}

/// The first registered type at or after `from` that has no conversion
/// entry, or `types.len()`.
pub open spec fn first_unconverted_from(
    types: Seq<TypeRegistration>,
    convs: Seq<LuaReflectInit>,
    from: int,
) -> int
    decreases types.len() - from,
{
    if from < 0 || from >= types.len() {
        types.len() as int
    } else if find_constructor(convs, types[from].key) is None {
        from
    } else {
        first_unconverted_from(types, convs, from + 1)
    }
}

/// Startup validation: every registered type must carry a conversion entry
/// before the first command is dispatched. A type that lacks one is a
/// configuration fault of the generated bootstrap code, reported here once,
/// by the full path of the first offender — never per command.
pub fn validate_registrations(
    type_registration: &TypeRegistry,
    lua_bundle_registry: &LuaReflectInitRegistry,
) -> (r: Result<(), String>)
    ensures
        ({
            let i = first_unconverted_from(type_registration@, lua_bundle_registry@, 0);
            match r {
                Ok(()) => i == type_registration@.len(),
                Err(name) => i < type_registration@.len() && name@
                    == type_registration@[i].full_path@,
            }
        }),
{
    let n = type_registration.len();
    let mut i: usize = 0;
    while i < n
        invariant
            0 <= i <= n,
            n == type_registration@.len(),
            first_unconverted_from(type_registration@, lua_bundle_registry@, 0)
                == first_unconverted_from(type_registration@, lua_bundle_registry@, i as int),
        decreases n - i,
    {
        let reg = type_registration.registration_at(i);
        if lua_bundle_registry.get_constructor(reg.key).is_none() {
            proof {
                assert(first_unconverted_from(
                    type_registration@,
                    lua_bundle_registry@,
                    i as int,
                ) == i as int);
            }
            return Err(reg.full_path.clone());
        }
        proof {
            assert(first_unconverted_from(type_registration@, lua_bundle_registry@, i as int)
                == first_unconverted_from(type_registration@, lua_bundle_registry@, i + 1));
        }
        i += 1;
    }
    Ok(())
}

/// The store after one command is dispatched. Reads leave it unchanged;
/// writes change it exactly as the operation they name.
pub open spec fn store_after_command(
    sv: Seq<SlotModel>,
    types: Seq<TypeRegistration>,
    convs: Seq<LuaReflectInit>,
    cmd: AethaumEcsCommandType,
) -> Seq<SlotModel> {
    match cmd {
        AethaumEcsCommandType::SpawnEntity { proto_name, init_value } => match proto_name {
            Some(name) => match spawn_proto_outcome(
                sv,
                types,
                convs,
                name@,
                opt_dyn_view(init_value),
            ) {
                Some(p) => p.0,
                None => sv,
            },
            None => spawn_model(sv).0,
        },
        AethaumEcsCommandType::DespawnEntity { entity } => {
            if has_entity(sv, entity) {
                despawn_model(sv, entity)
            } else {
                sv
            }
        },
        AethaumEcsCommandType::GetComponents { .. } => sv,
        AethaumEcsCommandType::AddComponent { entity, component_name, init_value } => {
            add_component_model(sv, types, convs, entity, component_name@, opt_dyn_view(init_value))
        },
        AethaumEcsCommandType::RemoveComponent { entity, component_name } => {
            remove_component_model(sv, types, entity, component_name@)
        },
        AethaumEcsCommandType::SetComponent { entity, component_name, new_value } => {
            set_component_model(sv, types, convs, entity, component_name@, new_value@)
        },
        AethaumEcsCommandType::HasComponent { .. } => sv,
    }
}

/// The response owed for a mutating component command, mapped into the error
/// taxonomy: an unknown or unconvertible type by name, a rejected payload
/// with its exact reason, an absent entity, or the success marker.
pub open spec fn component_write_response_ok(
    sv: Seq<SlotModel>,
    types: Seq<TypeRegistration>,
    convs: Seq<LuaReflectInit>,
    e: Entity,
    name: Seq<char>,
    init: Option<DynValueView>,
    done: AethaumEcsCommandResponse,
    resp: AethaumEcsCommandResponse,
) -> bool {
    match resolve_key(types, name) {
        None => resp matches AethaumEcsCommandResponse::Error(LuaBridgeError::NoSuchType(n)) && n@
            == name,
        Some(key) => match find_constructor(convs, key) {
            None => resp matches AethaumEcsCommandResponse::Error(LuaBridgeError::NoSuchType(n))
                && n@ == name,
            Some(entry) => {
                let shaped = match init {
                    Some(v) => is_shaped_for(entry.fields@, v),
                    None => true,
                };
                if !shaped {
                    match init {
                        Some(v) => resp == AethaumEcsCommandResponse::Error(
                            LuaBridgeError::ConversionFailure {
                                key,
                                reason: conversion_error_model(entry.fields@, v),
                            },
                        ),
                        None => false,
                    }
                } else if !has_entity(sv, e) {
                    resp == AethaumEcsCommandResponse::Error(LuaBridgeError::EntityAbsent(e))
                } else {
                    resp == done
                }
            },
        },
    }
}

/// The response owed for a remove command: an unknown name or an absent
/// entity as typed errors, else the success marker — removing a component
/// the entity lacks is no error.
pub open spec fn remove_response_ok(
    sv: Seq<SlotModel>,
    types: Seq<TypeRegistration>,
    e: Entity,
    name: Seq<char>,
    resp: AethaumEcsCommandResponse,
) -> bool {
    match resolve_key(types, name) {
        None => resp matches AethaumEcsCommandResponse::Error(LuaBridgeError::NoSuchType(n)) && n@
            == name,
        Some(key) => {
            if !has_entity(sv, e) {
                resp == AethaumEcsCommandResponse::Error(LuaBridgeError::EntityAbsent(e))
            } else {
                resp == AethaumEcsCommandResponse::RemoveComponent
            }
        },
    }
}

/// The exact response owed for each command against a given store state.
pub open spec fn response_ok(
    sv: Seq<SlotModel>,
    types: Seq<TypeRegistration>,
    convs: Seq<LuaReflectInit>,
    cmd: AethaumEcsCommandType,
    resp: AethaumEcsCommandResponse,
) -> bool {
    match cmd {
        AethaumEcsCommandType::SpawnEntity { proto_name, init_value } => match proto_name {
            None => resp == (AethaumEcsCommandResponse::SpawnEntity { entity: spawn_model(sv).1 }),
            Some(name) => match spawn_proto_outcome(
                sv,
                types,
                convs,
                name@,
                opt_dyn_view(init_value),
            ) {
                Some(p) => resp == (AethaumEcsCommandResponse::SpawnEntity { entity: p.1 }),
                None => resp matches AethaumEcsCommandResponse::Error(err) && spawn_proto_error_ok(
                    types,
                    convs,
                    name@,
                    opt_dyn_view(init_value),
                    err,
                ),
            },
        },
        AethaumEcsCommandType::DespawnEntity { entity } => {
            if has_entity(sv, entity) {
                resp == AethaumEcsCommandResponse::DespawnEntity
            } else {
                resp == AethaumEcsCommandResponse::Error(LuaBridgeError::EntityAbsent(entity))
            }
        },
        AethaumEcsCommandType::GetComponents { entity, components } => {
            if !has_entity(sv, entity) {
                resp == AethaumEcsCommandResponse::Error(LuaBridgeError::EntityAbsent(entity))
            } else {
                match components {
                    Some(names) => resp matches AethaumEcsCommandResponse::GetComponents {
                        components: outs,
                    } && outs@.len() == names@.len() && (forall|i: int|
                        0 <= i < names@.len() ==> #[trigger] single_outcome_ok(
                            sv,
                            types,
                            convs,
                            entity,
                            names@[i]@,
                            outs@[i],
                        )),
                    None => resp matches AethaumEcsCommandResponse::GetComponents {
                        components: outs,
                    } && outs@.len() == slot_components(sv, entity).len() && (forall|i: int|
                        0 <= i < outs@.len() ==> #[trigger] enumerated_outcome_ok(
                            sv,
                            types,
                            convs,
                            entity,
                            i,
                            outs@[i],
                        )),
                }
            }
        },
        AethaumEcsCommandType::AddComponent { entity, component_name, init_value } => {
            component_write_response_ok(
                sv,
                types,
                convs,
                entity,
                component_name@,
                opt_dyn_view(init_value),
                AethaumEcsCommandResponse::AddComponent,
                resp,
            )
        },
        AethaumEcsCommandType::RemoveComponent { entity, component_name } => {
            remove_response_ok(sv, types, entity, component_name@, resp)
        },
        AethaumEcsCommandType::SetComponent { entity, component_name, new_value } => {
            component_write_response_ok(
                sv,
                types,
                convs,
                entity,
                component_name@,
                Some(new_value@),
                AethaumEcsCommandResponse::SetComponent,
                resp,
            )
        },
        AethaumEcsCommandType::HasComponent { entity, component_name } => {
            resp == (AethaumEcsCommandResponse::HasComponent {
                has: match resolve_key(types, component_name@) {
                    Some(key) => has_entity(sv, entity) && has_component_key(
                        slot_components(sv, entity),
                        key,
                    ),
                    None => false,
                },
            })
        },
    }
}

/// Dispatches one command to the operation it names.
fn dispatch_command(
    world: &mut World,
    type_registration: &TypeRegistry,
    lua_bundle_registry: &LuaReflectInitRegistry,
    cmd: &AethaumEcsCommandType,
) -> (resp: AethaumEcsCommandResponse)
    requires
        old(world).wf(),
    ensures
        final(world).wf(),
        final(world)@ == store_after_command(
            old(world)@,
            type_registration@,
            lua_bundle_registry@,
            *cmd,
        ),
        response_ok(old(world)@, type_registration@, lua_bundle_registry@, *cmd, resp),
{
    match cmd {
        AethaumEcsCommandType::SpawnEntity { proto_name, init_value } => match proto_name {
            Some(name) => {
                let init = init_value.as_ref();
                proof {
                    assert(init_view(init) == opt_dyn_view(*init_value));
                }
                match spawn_reflect_fn(
                    world,
                    name.as_str(),
                    init,
                    type_registration,
                    lua_bundle_registry,
                ) {
                    Ok(entity) => AethaumEcsCommandResponse::SpawnEntity { entity },
                    Err(err) => AethaumEcsCommandResponse::Error(err),
                }
            },
            None => {
                let entity = spawn_empty_fn(world);
                AethaumEcsCommandResponse::SpawnEntity { entity }
            },
        },
        AethaumEcsCommandType::DespawnEntity { entity } => {
            if despawn_fn(world, *entity) {
                AethaumEcsCommandResponse::DespawnEntity
            } else {
                AethaumEcsCommandResponse::Error(LuaBridgeError::EntityAbsent(*entity))
            }
        },
        AethaumEcsCommandType::GetComponents { entity, components } => {
            let result = get_components_fn(
                world,
                *entity,
                components.as_ref(),
                type_registration,
                lua_bundle_registry,
            );
            handle_get_component_result(result)
        },
        AethaumEcsCommandType::AddComponent { entity, component_name, init_value } => {
            let init = init_value.as_ref();
            proof {
                assert(init_view(init) == opt_dyn_view(*init_value));
            }
            match add_component_fn(
                world,
                *entity,
                component_name.as_str(),
                init,
                type_registration,
                lua_bundle_registry,
            ) {
                AddComponentResult::Done => AethaumEcsCommandResponse::AddComponent,
                AddComponentResult::EntityDoesNotExist(e) => AethaumEcsCommandResponse::Error(
                    LuaBridgeError::EntityAbsent(e),
                ),
                AddComponentResult::NoSuchComponent(n) => AethaumEcsCommandResponse::Error(
                    LuaBridgeError::NoSuchType(n),
                ),
                AddComponentResult::ConversionErr(reason) => {
                    match get_type_id_by_str(component_name.as_str(), type_registration) {
                        Some(key) => AethaumEcsCommandResponse::Error(
                            LuaBridgeError::ConversionFailure { key, reason },
                        ),
                        None => AethaumEcsCommandResponse::Error(
                            LuaBridgeError::NoSuchType(component_name.clone()),
                        ),
                    }
                },
            }
        },
        AethaumEcsCommandType::RemoveComponent { entity, component_name } => {
            match remove_component_fn(world, *entity, component_name.as_str(), type_registration) {
                RemoveComponentResult::Done => AethaumEcsCommandResponse::RemoveComponent,
                RemoveComponentResult::EntityDoesNotExist(e) => AethaumEcsCommandResponse::Error(
                    LuaBridgeError::EntityAbsent(e),
                ),
                RemoveComponentResult::NoSuchComponent(n) => AethaumEcsCommandResponse::Error(
                    LuaBridgeError::NoSuchType(n),
                ),
            }
        },
        AethaumEcsCommandType::SetComponent { entity, component_name, new_value } => {
            match set_component_fn(
                world,
                *entity,
                component_name.as_str(),
                new_value,
                type_registration,
                lua_bundle_registry,
            ) {
                SetComponentResult::Done => AethaumEcsCommandResponse::SetComponent,
                SetComponentResult::EntityDoesNotExist(e) => AethaumEcsCommandResponse::Error(
                    LuaBridgeError::EntityAbsent(e),
                ),
                SetComponentResult::NoSuchComponent(n) => AethaumEcsCommandResponse::Error(
                    LuaBridgeError::NoSuchType(n),
                ),
                SetComponentResult::ConversionErr(reason) => {
                    match get_type_id_by_str(component_name.as_str(), type_registration) {
                        Some(key) => AethaumEcsCommandResponse::Error(
                            LuaBridgeError::ConversionFailure { key, reason },
                        ),
                        None => AethaumEcsCommandResponse::Error(
                            LuaBridgeError::NoSuchType(component_name.clone()),
                        ),
                    }
                },
            }
        },
        AethaumEcsCommandType::HasComponent { entity, component_name } => {
            let has = crate::ecs::component::has_component_fn(
                world,
                *entity,
                component_name.as_str(),
                type_registration,
            );
            AethaumEcsCommandResponse::HasComponent { has }
        },
    }
}

/// The store after the first `n` of the queued commands have run, in order.
pub open spec fn store_after_commands(
    sv: Seq<SlotModel>,
    types: Seq<TypeRegistration>,
    convs: Seq<LuaReflectInit>,
    cmds: Seq<AethaumEcsCommand>,
    n: int,
) -> Seq<SlotModel>
    decreases n,
{
    if n <= 0 {
        sv
    } else {
        store_after_command(
            store_after_commands(sv, types, convs, cmds, n - 1),
            types,
            convs,
            cmds[n - 1].command,
        )
    }
}

/// One tick of the processor: drains every command present in the bus at the
/// start of the tick, dispatches each to its operation in enqueue order, and
/// yields exactly one response per command — none dropped — under the
/// command's own ticket, each correct against the store state its command
/// ran in. Commands submitted after the drain wait for the next tick.
pub fn process_aethaum_ecs_command(
    world: &mut World,
    type_registration: &TypeRegistry,
    lua_bundle_registry: &LuaReflectInitRegistry,
    bus: &mut CommandBus,
) -> (deliveries: Vec<Delivery>)
    requires
        old(world).wf(),
        old(bus).wf(),
    ensures
        final(world).wf(),
        final(bus).wf(),
        final(bus)@.len() == 0,
        final(bus).spec_next_ticket() == old(bus).spec_next_ticket(),
        deliveries@.len() == old(bus)@.len(),
        forall|i: int|
            0 <= i < deliveries@.len() ==> (#[trigger] deliveries@[i]).ticket
                == old(bus)@[i].ticket,
        final(world)@ == store_after_commands(
            old(world)@,
            type_registration@,
            lua_bundle_registry@,
            old(bus)@,
            old(bus)@.len() as int,
        ),
        forall|i: int|
            0 <= i < deliveries@.len() ==> #[trigger] response_ok(
                store_after_commands(
                    old(world)@,
                    type_registration@,
                    lua_bundle_registry@,
                    old(bus)@,
                    i,
                ),
                type_registration@,
                lua_bundle_registry@,
                old(bus)@[i].command,
                deliveries@[i].response,
            ),
{
    let cmds = bus.drain();
    let n = cmds.len();
    let mut deliveries: Vec<Delivery> = Vec::new();
    let mut i: usize = 0;
    while i < n
        invariant
            0 <= i <= n,
            old(world).wf(),
            world.wf(),
            n == cmds@.len(),
            cmds@ == old(bus)@,
            deliveries@.len() == i,
            world@ == store_after_commands(
                old(world)@,
                type_registration@,
                lua_bundle_registry@,
                cmds@,
                i as int,
            ),
            forall|j: int|
                0 <= j < i ==> (#[trigger] deliveries@[j]).ticket == cmds@[j].ticket,
            forall|j: int|
                0 <= j < i ==> #[trigger] response_ok(
                    store_after_commands(
                        old(world)@,
                        type_registration@,
                        lua_bundle_registry@,
                        cmds@,
                        j,
                    ),
                    type_registration@,
                    lua_bundle_registry@,
                    cmds@[j].command,
                    deliveries@[j].response,
                ),
        decreases n - i,
    {
        let response = dispatch_command(
            world,
            type_registration,
            lua_bundle_registry,
            &cmds[i].command,
        );
        deliveries.push(Delivery { ticket: cmds[i].ticket, response });
        proof {
            assert(store_after_commands(
                old(world)@,
                type_registration@,
                lua_bundle_registry@,
                cmds@,
                i + 1,
            ) == store_after_command(
                store_after_commands(
                    old(world)@,
                    type_registration@,
                    lua_bundle_registry@,
                    cmds@,
                    i as int,
                ),
                type_registration@,
                lua_bundle_registry@,
                cmds@[i as int].command,
            ));
        }
        i += 1;
    }
    deliveries
}

} // verus!
