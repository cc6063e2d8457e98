use aethaum_core::bus::{CommandBus, ResponseMailbox};
use aethaum_core::dynamic::{dyn_value_eq, DynValue, FieldTag, FieldValue};
use aethaum_core::ecs::component::{
    get_components_fn, has_component_fn, GetComponentResult,
};
use aethaum_core::ecs::entity::{despawn_fn, spawn_empty_fn, spawn_fn, spawn_reflect_fn};
use aethaum_core::execution_context::NativeInstance;
use aethaum_core::ecs::{
    process_aethaum_ecs_command, validate_registrations, AethaumEcsCommandResponse,
    AethaumEcsCommandType, LuaBridgeError,
};
use aethaum_core::execution_context::{
    FieldSchema, LuaReflectInit, LuaReflectInitRegistry,
};
use aethaum_core::reflection::{get_type_id_by_str, TypeKey, TypeRegistry};
use aethaum_core::store::World;

fn int_field(name: &str, default: i64) -> FieldSchema {
    FieldSchema {
        name: name.to_string(),
        tag: FieldTag::Int,
        default: FieldValue::Int(default),
    }
}

fn position_entry() -> LuaReflectInit {
    LuaReflectInit {
        key: TypeKey(1),
        fields: vec![int_field("x", 0), int_field("y", 0)],
    }
}

fn setup() -> (World, TypeRegistry, LuaReflectInitRegistry) {
    let world = World::new();
    let mut types = TypeRegistry::new();
    assert!(types.register_type(
        "game::components::Position".to_string(),
        "Position".to_string(),
        TypeKey(1),
    ));
    let mut convs = LuaReflectInitRegistry::new();
    convs.register_constructor(position_entry());
    (world, types, convs)
}

fn position_payload(x: i64, y: i64) -> DynValue {
    DynValue::Table(vec![
        ("x".to_string(), FieldValue::Int(x)),
        ("y".to_string(), FieldValue::Int(y)),
    ])
}

#[test]
fn spawn_from_prototype_then_read_back() {
    let (mut world, types, convs) = setup();
    let mut bus = CommandBus::new();
    let mut mailbox = ResponseMailbox::new();

    let spawn_ticket = bus.submit(AethaumEcsCommandType::SpawnEntity {
        proto_name: Some("Position".to_string()),
        init_value: None,
    });
    let deliveries = process_aethaum_ecs_command(&mut world, &types, &convs, &mut bus);
    mailbox.deliver_all(deliveries);
    let entity = match mailbox.take(spawn_ticket) {
        Some(AethaumEcsCommandResponse::SpawnEntity { entity }) => entity,
        other => panic!("expected a spawn response, got {:?}", other),
    };

    let get_ticket = bus.submit(AethaumEcsCommandType::GetComponents {
        entity,
        components: Some(vec!["Position".to_string()]),
    });
    let deliveries = process_aethaum_ecs_command(&mut world, &types, &convs, &mut bus);
    mailbox.deliver_all(deliveries);
    match mailbox.take(get_ticket) {
        Some(AethaumEcsCommandResponse::GetComponents { components }) => {
            assert_eq!(components.len(), 1);
            match &components[0] {
                GetComponentResult::Value(v) => {
                    assert!(dyn_value_eq(v, &position_payload(0, 0)));
                }
                other => panic!("expected the projected value, got {:?}", other),
            }
        }
        other => panic!("expected a component list, got {:?}", other),
    }
}

#[test]
fn spawn_unknown_prototype_creates_nothing() {
    let (mut world, types, convs) = setup();
    let mut bus = CommandBus::new();
    let before = world.entity_count();

    let ticket = bus.submit(AethaumEcsCommandType::SpawnEntity {
        proto_name: Some("Ghost".to_string()),
        init_value: None,
    });
    let mut deliveries = process_aethaum_ecs_command(&mut world, &types, &convs, &mut bus);
    assert_eq!(deliveries.len(), 1);
    let delivery = deliveries.remove(0);
    assert_eq!(delivery.ticket, ticket);
    match delivery.response {
        AethaumEcsCommandResponse::Error(LuaBridgeError::NoSuchType(name)) => {
            assert_eq!(name, "Ghost");
        }
        other => panic!("expected an unknown-type error, got {:?}", other),
    }
    assert_eq!(world.entity_count(), before);
}

#[test]
fn spawn_rejected_payload_creates_nothing() {
    let (mut world, types, convs) = setup();
    let bad = DynValue::Table(vec![
        ("x".to_string(), FieldValue::Str("no".to_string())),
        ("y".to_string(), FieldValue::Int(2)),
    ]);
    let before = world.entity_count();
    let r = spawn_reflect_fn(&mut world, "Position", Some(&bad), &types, &convs);
    match r {
        Err(LuaBridgeError::ConversionFailure { key, .. }) => assert_eq!(key, TypeKey(1)),
        other => panic!("expected a conversion failure, got {:?}", other),
    }
    assert_eq!(world.entity_count(), before);
}

#[test]
fn despawn_twice_reports_absent() {
    let (mut world, types, convs) = setup();
    let mut bus = CommandBus::new();
    let mut mailbox = ResponseMailbox::new();
    let entity = spawn_empty_fn(&mut world);

    let t1 = bus.submit(AethaumEcsCommandType::DespawnEntity { entity });
    let t2 = bus.submit(AethaumEcsCommandType::DespawnEntity { entity });
    let deliveries = process_aethaum_ecs_command(&mut world, &types, &convs, &mut bus);
    mailbox.deliver_all(deliveries);
    assert!(matches!(
        mailbox.take(t1),
        Some(AethaumEcsCommandResponse::DespawnEntity)
    ));
    match mailbox.take(t2) {
        Some(AethaumEcsCommandResponse::Error(LuaBridgeError::EntityAbsent(e))) => {
            assert_eq!(e, entity);
        }
        other => panic!("expected an entity-absent error, got {:?}", other),
    }
}

#[test]
fn add_component_with_unregistered_type() {
    let (mut world, types, convs) = setup();
    let mut bus = CommandBus::new();
    let mut mailbox = ResponseMailbox::new();
    let entity = spawn_empty_fn(&mut world);

    let ticket = bus.submit(AethaumEcsCommandType::AddComponent {
        entity,
        component_name: "Velocity".to_string(),
        init_value: Some(DynValue::Table(vec![
            ("dx".to_string(), FieldValue::Int(1)),
            ("dy".to_string(), FieldValue::Int(2)),
        ])),
    });
    let deliveries = process_aethaum_ecs_command(&mut world, &types, &convs, &mut bus);
    mailbox.deliver_all(deliveries);
    match mailbox.take(ticket) {
        Some(AethaumEcsCommandResponse::Error(LuaBridgeError::NoSuchType(name))) => {
            assert_eq!(name, "Velocity");
        }
        other => panic!("expected an unknown-type error, got {:?}", other),
    }
}

#[test]
fn has_component_is_false_for_unknown_and_missing_alike() {
    let (mut world, types, convs) = setup();
    let with_position =
        spawn_reflect_fn(&mut world, "Position", None, &types, &convs).expect("spawn");
    let bare = spawn_empty_fn(&mut world);

    assert!(has_component_fn(&world, with_position, "Position", &types));
    let unknown_name = has_component_fn(&world, with_position, "Nonexistent", &types);
    let missing_component = has_component_fn(&world, bare, "Position", &types);
    assert!(!unknown_name);
    assert!(!missing_component);
    assert_eq!(unknown_name, missing_component);
}

#[test]
fn get_components_short_circuits_on_absent_entity() {
    let (mut world, types, convs) = setup();
    let entity = spawn_empty_fn(&mut world);
    assert!(despawn_fn(&mut world, entity));

    let names = vec!["A".to_string(), "B".to_string()];
    let r = get_components_fn(&world, entity, Some(&names), &types, &convs);
    match r {
        GetComponentResult::EntityNotExist(e) => assert_eq!(e, entity),
        other => panic!("expected the single entity-absent outcome, got {:?}", other),
    }
}

#[test]
fn get_components_does_not_short_circuit_per_name() {
    let (mut world, types, convs) = setup();
    let entity = spawn_reflect_fn(
        &mut world,
        "Position",
        Some(&position_payload(3, 4)),
        &types,
        &convs,
    )
    .expect("spawn");

    let names = vec!["Position".to_string(), "Unregistered".to_string()];
    let r = get_components_fn(&world, entity, Some(&names), &types, &convs);
    match r {
        GetComponentResult::Multiple(outs) => {
            assert_eq!(outs.len(), 2);
            match &outs[0] {
                GetComponentResult::Value(v) => {
                    assert!(dyn_value_eq(v, &position_payload(3, 4)));
                }
                other => panic!("expected the projected value, got {:?}", other),
            }
            match &outs[1] {
                GetComponentResult::NoSuchComponent(name) => assert_eq!(name, "Unregistered"),
                other => panic!("expected an unknown-name outcome, got {:?}", other),
            }
        }
        other => panic!("expected a two-outcome list, got {:?}", other),
    }
}

#[test]
fn get_components_enumerates_empty_entity_as_empty_list() {
    let (mut world, types, convs) = setup();
    let entity = spawn_empty_fn(&mut world);
    let r = get_components_fn(&world, entity, None, &types, &convs);
    match r {
        GetComponentResult::Multiple(outs) => assert!(outs.is_empty()),
        other => panic!("expected an empty list, got {:?}", other),
    }
}

#[test]
fn every_command_before_a_tick_is_answered() {
    let (mut world, types, convs) = setup();
    let mut bus = CommandBus::new();

    let mut tickets = Vec::new();
    for _ in 0..5 {
        tickets.push(bus.submit(AethaumEcsCommandType::SpawnEntity {
            proto_name: None,
            init_value: None,
        }));
    }
    let deliveries = process_aethaum_ecs_command(&mut world, &types, &convs, &mut bus);
    assert_eq!(deliveries.len(), 5);
    for (i, d) in deliveries.iter().enumerate() {
        assert_eq!(d.ticket, tickets[i]);
        assert!(matches!(
            d.response,
            AethaumEcsCommandResponse::SpawnEntity { .. }
        ));
    }
    assert_eq!(bus.len(), 0);
    assert_eq!(world.entity_count(), 5);
}

#[test]
fn empty_tick_yields_no_deliveries() {
    let (mut world, types, convs) = setup();
    let mut bus = CommandBus::new();
    let deliveries = process_aethaum_ecs_command(&mut world, &types, &convs, &mut bus);
    assert!(deliveries.is_empty());
}

#[test]
fn a_ticket_resolves_exactly_once() {
    let (mut world, types, convs) = setup();
    let mut bus = CommandBus::new();
    let mut mailbox = ResponseMailbox::new();
    let ticket = bus.submit(AethaumEcsCommandType::SpawnEntity {
        proto_name: None,
        init_value: None,
    });
    let deliveries = process_aethaum_ecs_command(&mut world, &types, &convs, &mut bus);
    mailbox.deliver_all(deliveries);
    assert!(mailbox.take(ticket).is_some());
    assert!(mailbox.take(ticket).is_none());
}

#[test]
fn set_component_creates_when_absent_and_overwrites() {
    let (mut world, types, convs) = setup();
    let mut bus = CommandBus::new();
    let mut mailbox = ResponseMailbox::new();
    let entity = spawn_empty_fn(&mut world);

    let t_set = bus.submit(AethaumEcsCommandType::SetComponent {
        entity,
        component_name: "Position".to_string(),
        new_value: position_payload(7, 8),
    });
    let t_get = bus.submit(AethaumEcsCommandType::GetComponents {
        entity,
        components: Some(vec!["Position".to_string()]),
    });
    let deliveries = process_aethaum_ecs_command(&mut world, &types, &convs, &mut bus);
    mailbox.deliver_all(deliveries);
    assert!(matches!(
        mailbox.take(t_set),
        Some(AethaumEcsCommandResponse::SetComponent)
    ));
    match mailbox.take(t_get) {
        Some(AethaumEcsCommandResponse::GetComponents { components }) => {
            assert_eq!(components.len(), 1);
            match &components[0] {
                GetComponentResult::Value(v) => {
                    assert!(dyn_value_eq(v, &position_payload(7, 8)));
                }
                other => panic!("expected the set value, got {:?}", other),
            }
        }
        other => panic!("expected a component list, got {:?}", other),
    }
}

#[test]
fn remove_component_tolerates_absence() {
    let (mut world, types, convs) = setup();
    let mut bus = CommandBus::new();
    let mut mailbox = ResponseMailbox::new();
    let entity = spawn_empty_fn(&mut world);

    let t_remove = bus.submit(AethaumEcsCommandType::RemoveComponent {
        entity,
        component_name: "Position".to_string(),
    });
    let t_unknown = bus.submit(AethaumEcsCommandType::RemoveComponent {
        entity,
        component_name: "Ghost".to_string(),
    });
    let deliveries = process_aethaum_ecs_command(&mut world, &types, &convs, &mut bus);
    mailbox.deliver_all(deliveries);
    assert!(matches!(
        mailbox.take(t_remove),
        Some(AethaumEcsCommandResponse::RemoveComponent)
    ));
    assert!(matches!(
        mailbox.take(t_unknown),
        Some(AethaumEcsCommandResponse::Error(LuaBridgeError::NoSuchType(_)))
    ));
}

#[test]
fn stale_handle_stays_stale_after_reuse() {
    let (mut world, _types, _convs) = setup();
    let first = spawn_empty_fn(&mut world);
    assert!(despawn_fn(&mut world, first));
    let second = spawn_empty_fn(&mut world);
    assert_eq!(second.index, first.index);
    assert_ne!(second.generation, first.generation);
    assert!(!world.contains(first));
    assert!(world.contains(second));
}

#[test]
fn full_path_resolution_beats_short_path() {
    let mut types = TypeRegistry::new();
    assert!(types.register_type(
        "game::components::Position".to_string(),
        "Position".to_string(),
        TypeKey(1),
    ));
    assert!(types.register_type(
        "Position".to_string(),
        "P".to_string(),
        TypeKey(2),
    ));
    assert_eq!(get_type_id_by_str("Position", &types), Some(TypeKey(2)));
    assert_eq!(get_type_id_by_str("game::components::Position", &types), Some(TypeKey(1)));
    assert_eq!(get_type_id_by_str("P", &types), Some(TypeKey(2)));
    assert_eq!(get_type_id_by_str("Ghost", &types), None);
}

#[test]
fn enumeration_names_a_component_without_a_conversion_entry() {
    let (mut world, types, convs) = setup();
    let bundle = NativeInstance {
        key: TypeKey(2),
        values: vec![FieldValue::Int(1)],
    };
    let entity = spawn_fn(&mut world, bundle);

    // The key is known to the type registry but has no conversion entry.
    let mut types_with_velocity = types;
    assert!(types_with_velocity.register_type(
        "game::components::Velocity".to_string(),
        "Velocity".to_string(),
        TypeKey(2),
    ));
    let r = get_components_fn(&world, entity, None, &types_with_velocity, &convs);
    match r {
        GetComponentResult::Multiple(outs) => {
            assert_eq!(outs.len(), 1);
            match &outs[0] {
                GetComponentResult::NoSuchComponent(name) => {
                    assert_eq!(name, "game::components::Velocity");
                }
                other => panic!("expected the unconverted-type outcome, got {:?}", other),
            }
        }
        other => panic!("expected a one-outcome list, got {:?}", other),
    }
}

#[test]
fn startup_validation_reports_the_first_missing_conversion() {
    let (_world, types, convs) = setup();
    assert!(validate_registrations(&types, &convs).is_ok());

    let mut incomplete = types;
    assert!(incomplete.register_type(
        "game::components::Velocity".to_string(),
        "Velocity".to_string(),
        TypeKey(2),
    ));
    match validate_registrations(&incomplete, &convs) {
        Err(name) => assert_eq!(name, "game::components::Velocity"),
        Ok(()) => panic!("expected the missing registration to be reported"),
    }
}

#[test]
fn reregistration_overwrites_the_conversion_entry() {
    let mut convs = LuaReflectInitRegistry::new();
    convs.register_constructor(position_entry());
    let wider = LuaReflectInit {
        key: TypeKey(1),
        fields: vec![int_field("x", 0), int_field("y", 0), int_field("z", 0)],
    };
    convs.register_constructor(wider);
    let entry = convs.get_constructor(TypeKey(1)).expect("registered");
    assert_eq!(entry.fields.len(), 3);
}
