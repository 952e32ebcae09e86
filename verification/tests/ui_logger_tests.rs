use threadcity::ui::drawing::SceneState;
use threadcity::ui::event_queue::{EntityKind, EventQueue, UiEvent};
use threadcity::ui::layout::{apply_event, UiEffect};
use threadcity::ui::ui_logger::{
    enqueue_full_boat_path_upwards, enqueue_path, extract_bracket_id, extract_coord_from, extract_id,
    extract_origin_dest, extract_single_coord, try_parse_and_enqueue,
};

fn drain(q: &mut EventQueue) -> Vec<UiEvent> {
    let mut v = Vec::new();
    while let Some(e) = q.pop() {
        v.push(e);
    }
    v
}

fn moves(evs: &[UiEvent]) -> Vec<(u32, u32)> {
    evs.iter()
        .filter_map(|e| match e {
            UiEvent::Move { to, .. } => Some(*to),
            _ => None,
        })
        .collect()
}

#[test]
fn ids_are_read_after_their_prefix() {
    let line = "🚗 Carro-12 creado: Coord { x: 1, y: 3 } -> Coord { x: 4, y: 0 }";
    assert_eq!(extract_id(line, "Carro-"), Some(12));
    assert_eq!(extract_id(line, "Barco-"), None);
    assert_eq!(extract_id("Carro-x", "Carro-"), None);
    assert_eq!(extract_id("Carro-99999999999", "Carro-"), None);
    assert_eq!(extract_id("Carro-4294967295", "Carro-"), Some(4294967295));
}

#[test]
fn coordinates_are_read_from_debug_text() {
    let line = "🚗 Carro-12 creado: Coord { x: 1, y: 3 } -> Coord { x: 4, y: 0 }";
    assert_eq!(extract_coord_from(line), Some((1, 3)));
    assert_eq!(extract_single_coord(line), Some((1, 3)));
    assert_eq!(extract_origin_dest(line), Some(((1, 3), (4, 0))));
    assert_eq!(extract_origin_dest("Coord { x: 1, y: 3 }"), None);
    assert_eq!(extract_coord_from("no coordinates"), None);
}

#[test]
fn bracket_ids_allow_white_space_and_a_plus_sign() {
    assert_eq!(extract_bracket_id("[ 42 ] ✅ Llegó a destino"), Some(42));
    assert_eq!(extract_bracket_id("[+7]"), Some(7));
    assert_eq!(extract_bracket_id("[-7]"), None);
    assert_eq!(extract_bracket_id("[\u{3000}9\u{a0}]"), Some(9));
    assert_eq!(extract_bracket_id("[Truck-5]"), None);
    assert_eq!(extract_bracket_id("no brackets"), None);
    assert_eq!(extract_bracket_id("[12"), None);
}

#[test]
fn a_car_crosses_at_the_nearest_bridge() {
    let mut q = EventQueue::new();
    enqueue_path(&mut q, 12, (1, 3), (4, 0));
    let evs = drain(&mut q);
    assert_eq!(moves(&evs), vec![(2, 3), (2, 1), (2, 0), (3, 0), (4, 0)]);
    assert!(matches!(evs.last(), Some(UiEvent::Remove { id: 12 })));
}

#[test]
fn a_car_on_one_side_goes_columns_first() {
    let mut q = EventQueue::new();
    enqueue_path(&mut q, 3, (0, 0), (2, 1));
    let evs = drain(&mut q);
    assert_eq!(moves(&evs), vec![(0, 1), (1, 1), (2, 1)]);
    assert!(matches!(evs.last(), Some(UiEvent::Remove { id: 3 })));
}

#[test]
fn a_boat_passes_the_raised_bridge() {
    let mut q = EventQueue::new();
    enqueue_full_boat_path_upwards(&mut q, 300, (21, 2), (17, 2));
    let evs = drain(&mut q);
    assert_eq!(moves(&evs), vec![(20, 2), (19, 2), (18, 2), (17, 2)]);
    assert!(matches!(evs.last(), Some(UiEvent::Remove { id: 300 })));
}

#[test]
fn log_lines_become_events() {
    let mut q = EventQueue::new();
    try_parse_and_enqueue(&mut q, "🚗 Carro-12 creado: Coord { x: 1, y: 3 } -> Coord { x: 4, y: 0 }");
    let evs = drain(&mut q);
    assert!(matches!(evs[0], UiEvent::Spawn { id: 12, kind: EntityKind::Car, pos: (1, 3) }));
    assert_eq!(evs.len(), 7);

    try_parse_and_enqueue(&mut q, "⛵ Barco-300 creado: Coord { x: 4, y: 2 } -> Coord { x: 3, y: 2 }");
    let evs = drain(&mut q);
    assert!(matches!(evs[0], UiEvent::Spawn { id: 300, kind: EntityKind::Boat, pos: (4, 2) }));
    assert_eq!(moves(&evs), vec![(3, 2)]);

    try_parse_and_enqueue(
        &mut q,
        "\n☢️☢️☢️ ¡EXPLOSIÓN! Planta 1 falló por falta de Water en tiempo 20000ms (Límite era: 15000ms)",
    );
    assert!(matches!(drain(&mut q)[..], [UiEvent::PlantExploded { id: 1 }]));

    try_parse_and_enqueue(&mut q, "Planta 2 reiniciándose");
    assert!(matches!(drain(&mut q)[..], [UiEvent::PlantRecovered { id: 2 }]));

    try_parse_and_enqueue(&mut q, "[5] ✅ Llegó a destino Coord { x: 0, y: 3 }");
    assert!(matches!(drain(&mut q)[..], [UiEvent::Remove { id: 5 }]));

    try_parse_and_enqueue(&mut q, "[300] ✅ Llegó a destino");
    assert!(drain(&mut q).is_empty());

    try_parse_and_enqueue(&mut q, "Iniciando simulación...");
    assert!(matches!(&drain(&mut q)[..], [UiEvent::Log(s)] if s == "Iniciando simulación..."));
}

#[test]
fn events_are_played_on_the_scene() {
    let mut scene = SceneState::default();
    assert_eq!(apply_event(&mut scene, UiEvent::Spawn { id: 1, kind: EntityKind::Car, pos: (0, 0) }), UiEffect::Redraw);
    assert_eq!(apply_event(&mut scene, UiEvent::Move { id: 1, to: (0, 1) }), UiEffect::Redraw);
    assert_eq!(scene.entities.get(&1).map(|e| e.pos), Some((0, 1)));
    assert_eq!(apply_event(&mut scene, UiEvent::Log("x".to_string())), UiEffect::Nothing);
    assert_eq!(apply_event(&mut scene, UiEvent::Remove { id: 1 }), UiEffect::Redraw);
    assert!(scene.entities.is_empty());
    assert_eq!(apply_event(&mut scene, UiEvent::SimulationFinished), UiEffect::ShowEnd);
}
