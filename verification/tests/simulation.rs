use ncollide2d::pipeline::CollisionObjectSlabHandle;
use some_platformer::components::collider::Collider;
use some_platformer::components::moving::{GravityAffected, Moving};
use some_platformer::components::transform::Transform;
use some_platformer::components::{Components, Vector2};
use some_platformer::game::{Game, GameError};
use some_platformer::sync::message::{Client, Server};
use some_platformer::sync::state::{Broadcast, State};
use some_platformer::systems::sys_colliding::SysCollide;
use some_platformer::systems::sys_moving::{SysMoving, SysMovingGravity};
use some_platformer::world::gameworld::{Entity, GameWorld};
use std::sync::mpsc::channel;

fn sum(a: f32, b: f32) -> f32 {
    a + b
}

fn scale(gravity: f32, delta_ns: u64) -> f32 {
    gravity * (delta_ns as f32 / 1000.0)
}

fn place(x: f32, y: f32) -> Transform<f32> {
    Transform::new(Vector2::new(x, y), 0.25, Vector2::new(32.0, 16.0))
}

fn speed(x: f32, y: f32) -> Moving<f32> {
    Moving::new(Vector2::new(x, y))
}

fn entity(
    transform: Option<Transform<f32>>,
    moving: Option<Moving<f32>>,
    pulled: bool,
    collider: Option<usize>,
) -> Components<f32> {
    let mut components = Components::new();
    components.transform = transform;
    components.moving = moving;
    components.gravity_affected = if pulled { Some(GravityAffected::new()) } else { None };
    components.collider = collider.map(|slot| Collider::new(CollisionObjectSlabHandle(slot)));
    components
}

fn handles(positions: &[(Collider, Transform<f32>)]) -> Vec<(usize, Transform<f32>)> {
    positions.iter().map(|(collider, at)| (collider.collision_object_handle.0, *at)).collect()
}

#[test]
fn vector_sum_goes_coordinate_by_coordinate() {
    let a = Vector2::new(1.0f32, 2.0);
    let b = Vector2::new(10.0f32, -20.0);
    assert_eq!(a.plus(&b, &sum), Vector2 { x: 11.0, y: -18.0 });
    let difference = |x: f32, y: f32| x - y;
    assert_eq!(a.plus(&b, &difference), Vector2 { x: -9.0, y: 22.0 });
}

#[test]
fn transform_keeps_what_it_is_given() {
    let transform = Transform::new(Vector2::new(1.0f32, 2.0), 0.5, Vector2::new(3.0, 4.0));
    assert_eq!(transform.position, Vector2 { x: 1.0, y: 2.0 });
    assert_eq!(transform.rotation, 0.5);
    assert_eq!(transform.size, Vector2 { x: 3.0, y: 4.0 });
}

#[test]
fn apply_force_adds_the_force_to_the_velocity() {
    let mut moving = speed(1.0, 2.0);
    moving.apply_force(Vector2::new(0.5, -4.0), &sum);
    assert_eq!(moving.velocity, Vector2 { x: 1.5, y: -2.0 });
}

#[test]
fn components_start_empty() {
    let components: Components<f32> = Components::new();
    assert!(components.transform.is_none());
    assert!(components.moving.is_none());
    assert!(components.gravity_affected.is_none());
    assert!(components.collider.is_none());
}

#[test]
fn collider_keeps_its_handle() {
    let collider = Collider::new(CollisionObjectSlabHandle(7));
    assert_eq!(collider.collision_object_handle, CollisionObjectSlabHandle(7));
}

#[test]
fn gravity_system_keeps_its_vector() {
    let system = SysMovingGravity::new_custom(0.0f32, 9.81);
    assert_eq!(system.gravity_vec(), Vector2 { x: 0.0, y: 9.81 });
}

#[test]
fn new_world_is_empty() {
    let world: GameWorld<f32> = GameWorld::new(SysMovingGravity::new_custom(0.0, 9.81));
    assert_eq!(world.len(), 0);
    assert_eq!(world.delta_ns(), 0);
    assert!(world.components(Entity { id: 0 }).is_none());
}

#[test]
fn entities_get_handles_in_order() {
    let mut world: GameWorld<f32> = GameWorld::new(SysMovingGravity::new_custom(0.0, 9.81));
    let first = world.add_game_entity(entity(Some(place(1.0, 2.0)), None, false, None));
    let second = world.add_game_entity(entity(None, Some(speed(3.0, 4.0)), true, None));
    assert_eq!(first, Entity { id: 0 });
    assert_eq!(second, Entity { id: 1 });
    assert_eq!(world.len(), 2);
    assert_eq!(world.components(first).unwrap().transform, Some(place(1.0, 2.0)));
    assert!(world.components(first).unwrap().moving.is_none());
    assert_eq!(world.components(second).unwrap().moving, Some(speed(3.0, 4.0)));
    assert!(world.components(second).unwrap().gravity_affected.is_some());
    assert!(world.components(Entity { id: 2 }).is_none());
}

#[test]
fn gravity_changes_the_velocity_of_what_it_pulls() {
    let mut entities = vec![
        entity(None, Some(speed(1.0, 2.0)), true, None),
        entity(None, Some(speed(1.0, 2.0)), false, None),
        entity(Some(place(5.0, 5.0)), None, true, None),
    ];
    SysMovingGravity::new_custom(0.5, 9.81).run(&mut entities, 2_000, &sum, &scale);
    assert_eq!(entities[0].moving, Some(speed(1.0 + 0.5, 2.0 + 9.81 * 2.0)));
    assert_eq!(entities[1].moving, Some(speed(1.0, 2.0)));
    assert!(entities[2].moving.is_none());
    assert_eq!(entities[2].transform, Some(place(5.0, 5.0)));
    assert!(entities[0].transform.is_none());
}

#[test]
fn gravity_scales_downwards_only() {
    let mut slow = vec![entity(None, Some(speed(0.0, 0.0)), true, None)];
    let mut fast = vec![entity(None, Some(speed(0.0, 0.0)), true, None)];
    let mut system = SysMovingGravity::new_custom(3.0, 2.0);
    system.run(&mut slow, 1_000, &sum, &scale);
    system.run(&mut fast, 5_000, &sum, &scale);
    assert_eq!(slow[0].moving, Some(speed(3.0, 2.0)));
    assert_eq!(fast[0].moving, Some(speed(3.0, 10.0)));
}

#[test]
fn gravity_with_no_time_passed_pulls_sideways_only() {
    let mut entities = vec![entity(None, Some(speed(1.0, 2.0)), true, None)];
    SysMovingGravity::new_custom(0.5, 9.81).run(&mut entities, 0, &sum, &scale);
    assert_eq!(entities[0].moving, Some(speed(1.5, 2.0)));
}

#[test]
fn movement_adds_the_velocity_to_the_position() {
    let mut entities = vec![
        entity(Some(place(10.0, 20.0)), Some(speed(1.5, -2.0)), false, None),
        entity(Some(place(10.0, 20.0)), None, false, None),
        entity(None, Some(speed(1.5, -2.0)), true, None),
    ];
    SysMoving {}.run(&mut entities, &sum);
    assert_eq!(entities[0].transform, Some(place(11.5, 18.0)));
    assert_eq!(entities[0].moving, Some(speed(1.5, -2.0)));
    assert_eq!(entities[1].transform, Some(place(10.0, 20.0)));
    assert!(entities[2].transform.is_none());
    assert_eq!(entities[2].moving, Some(speed(1.5, -2.0)));
}

#[test]
fn collision_gathers_the_places_of_the_colliders_in_order() {
    let entities = vec![
        entity(Some(place(1.0, 1.0)), None, false, Some(4)),
        entity(Some(place(2.0, 2.0)), None, false, None),
        entity(None, None, false, Some(5)),
        entity(Some(place(3.0, 3.0)), Some(speed(0.0, 0.0)), true, Some(6)),
    ];
    let positions = SysCollide {}.run(&entities);
    assert_eq!(handles(&positions), vec![(4, place(1.0, 1.0)), (6, place(3.0, 3.0))]);
}

#[test]
fn collision_of_an_empty_world_gathers_nothing() {
    let entities: Vec<Components<f32>> = Vec::new();
    assert!(SysCollide {}.run(&entities).is_empty());
}

#[test]
fn update_pulls_then_moves_then_gathers() {
    let mut world: GameWorld<f32> = GameWorld::new(SysMovingGravity::new_custom(0.5, 9.81));
    let falling =
        world.add_game_entity(entity(Some(place(100.0, 100.0)), Some(speed(1.0, 0.0)), true, Some(0)));
    let gliding =
        world.add_game_entity(entity(Some(place(0.0, 0.0)), Some(speed(2.0, 3.0)), false, None));
    let resting = world.add_game_entity(entity(Some(place(7.0, 8.0)), None, true, Some(1)));
    let hidden = world.add_game_entity(entity(None, Some(speed(0.0, 1.0)), true, None));
    let began = std::time::Instant::now();
    while began.elapsed() < std::time::Duration::from_millis(1) {}

    let positions = world.update(&sum, &scale);

    let delta_ns = world.delta_ns();
    assert!(delta_ns >= 1_000_000);
    let delta_ms = delta_ns as f32 / 1000.0;
    let velocity = speed(1.0 + 0.5, 0.0 + 9.81 * delta_ms);
    let landed = place(100.0 + 1.5, 100.0 + (0.0 + 9.81 * delta_ms));
    assert_eq!(world.components(falling).unwrap().moving, Some(velocity));
    assert_eq!(world.components(falling).unwrap().transform, Some(landed));
    assert_eq!(world.components(gliding).unwrap().moving, Some(speed(2.0, 3.0)));
    assert_eq!(world.components(gliding).unwrap().transform, Some(place(2.0, 3.0)));
    assert_eq!(world.components(resting).unwrap().transform, Some(place(7.0, 8.0)));
    assert!(world.components(resting).unwrap().moving.is_none());
    assert_eq!(
        world.components(hidden).unwrap().moving,
        Some(speed(0.0 + 0.5, 1.0 + 9.81 * delta_ms))
    );
    assert!(world.components(hidden).unwrap().transform.is_none());
    assert_eq!(world.len(), 4);
    assert_eq!(handles(&positions), vec![(0, landed), (1, place(7.0, 8.0))]);
}

#[test]
fn update_twice_moves_twice() {
    let mut world: GameWorld<f32> = GameWorld::new(SysMovingGravity::new_custom(0.0, 9.81));
    let gliding =
        world.add_game_entity(entity(Some(place(0.0, 0.0)), Some(speed(2.0, 3.0)), false, None));
    let _ = world.update(&sum, &scale);
    let _ = world.update(&sum, &scale);
    assert_eq!(world.components(gliding).unwrap().transform, Some(place(4.0, 6.0)));
}

#[test]
fn tick_steps_the_world_once_after_draining() {
    let state = State::new();
    let (to_game, from_sessions) = channel();
    let mut world: GameWorld<f32> = GameWorld::new(SysMovingGravity::new_custom(0.0, 9.81));
    let gliding =
        world.add_game_entity(entity(Some(place(0.0, 0.0)), Some(speed(2.0, 3.0)), false, Some(9)));
    let mut game = Game::new(from_sessions, world);
    to_game.send((Client::Test, 1)).unwrap();
    to_game.send((Client::Test, 2)).unwrap();

    let tick = game.update(&state, &sum, &scale).unwrap();

    assert_eq!(tick.handled, 2);
    assert_eq!(
        tick.broadcasts,
        vec![
            Broadcast { message: Server::Test, excluded: 1, report: Vec::new() },
            Broadcast { message: Server::Test, excluded: 2, report: Vec::new() },
        ]
    );
    assert_eq!(handles(&tick.positions), vec![(9, place(2.0, 3.0))]);
    assert_eq!(game.world().components(gliding).unwrap().transform, Some(place(2.0, 3.0)));
    assert_eq!(game.drain(&state), Ok(Vec::new()));
    assert_eq!(game.world().components(gliding).unwrap().transform, Some(place(2.0, 3.0)));
}

#[test]
fn tick_with_a_violation_leaves_the_world_alone() {
    let state = State::new();
    let (to_game, from_sessions) = channel();
    let mut world: GameWorld<f32> = GameWorld::new(SysMovingGravity::new_custom(0.0, 9.81));
    let gliding =
        world.add_game_entity(entity(Some(place(0.0, 0.0)), Some(speed(2.0, 3.0)), false, None));
    let mut game = Game::new(from_sessions, world);
    to_game.send((Client::Ping(std::time::SystemTime::now()), 4)).unwrap();

    let tick = game.update(&state, &sum, &scale);

    assert!(matches!(tick, Err(GameError::UnexpectedPing(4))));
    assert_eq!(game.world().components(gliding).unwrap().transform, Some(place(0.0, 0.0)));
    assert_eq!(game.world().delta_ns(), 0);
}

#[test]
fn conclude_steps_the_world_once_where_draining_went_well() {
    let (_to_game, from_sessions) = channel::<(Client, u64)>();
    let mut world: GameWorld<f32> = GameWorld::new(SysMovingGravity::new_custom(0.0, 9.81));
    let gliding =
        world.add_game_entity(entity(Some(place(0.0, 0.0)), Some(speed(2.0, 3.0)), false, Some(3)));
    let mut game = Game::new(from_sessions, world);
    let sent = vec![Broadcast { message: Server::Test, excluded: 8, report: Vec::new() }];

    let tick = game.conclude(Ok(sent), &sum, &scale).unwrap();

    assert_eq!(tick.handled, 1);
    assert_eq!(
        tick.broadcasts,
        vec![Broadcast { message: Server::Test, excluded: 8, report: Vec::new() }]
    );
    assert_eq!(handles(&tick.positions), vec![(3, place(2.0, 3.0))]);
    assert_eq!(game.world().components(gliding).unwrap().transform, Some(place(2.0, 3.0)));
}

#[test]
fn conclude_hands_on_a_violation_and_leaves_the_world_alone() {
    let (_to_game, from_sessions) = channel::<(Client, u64)>();
    let mut world: GameWorld<f32> = GameWorld::new(SysMovingGravity::new_custom(0.0, 9.81));
    let gliding =
        world.add_game_entity(entity(Some(place(0.0, 0.0)), Some(speed(2.0, 3.0)), false, None));
    let mut game = Game::new(from_sessions, world);

    let tick = game.conclude(Err(GameError::UnexpectedPing(12)), &sum, &scale);

    assert!(matches!(tick, Err(GameError::UnexpectedPing(12))));
    assert_eq!(game.world().components(gliding).unwrap().transform, Some(place(0.0, 0.0)));
    assert_eq!(game.world().delta_ns(), 0);
}
