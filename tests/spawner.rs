use dungeon_spawner::occupancy::{MapBuilder, Point};
use dungeon_spawner::spawner::{
    advance_level, despawn_all_with_position, monster_for_roll, outcome_for_roll, populate,
    spawn_amulet_of_yala, spawn_enemies, spawn_healing_potion, spawn_magic_mapper, spawn_monster,
    spawn_outcome, spawn_player, MonsterKind, Outcome, SpawnerPlugin, Transition,
};
use dungeon_spawner::world::{Entity, EntityKind, FieldOfView, Health, ItemKind, Position, World};
use rand::rngs::StdRng;
use rand::SeedableRng;

fn builder(enemies: &[(i32, i32)]) -> MapBuilder {
    MapBuilder::new(
        Point::new(1, 1),
        enemies.iter().map(|&(x, y)| Point::new(x, y)).collect(),
        Point::new(9, 9),
    )
}

fn players(world: &World) -> usize {
    world
        .entities()
        .iter()
        .filter(|e| matches!(e.kind, EntityKind::Player { .. }))
        .count()
}

fn positioned(world: &World) -> usize {
    world.entities().iter().filter(|e| e.position.is_some()).count()
}

fn bare(kind: EntityKind, position: Option<Position>, fov: Option<FieldOfView>) -> Entity {
    Entity {
        id: 0,
        kind,
        name: "Thing".to_string(),
        description: None,
        glyph: 't',
        visible: true,
        chases_player: false,
        position,
        health: None,
        fov,
    }
}

#[test]
fn player_has_fixed_starting_attributes() {
    let mut world = World::new();
    let mut mb = builder(&[]);
    let id = spawn_player(&mut world, &mut mb);
    let e = &world.entities()[0];
    assert_eq!(e.id, id);
    assert_eq!(e.kind, EntityKind::Player { map_level: 0 });
    assert_eq!(e.name, "Player");
    assert_eq!(e.glyph, '@');
    assert!(e.visible);
    assert_eq!(e.position, Some(Position { x: 1, y: 1, z: 2 }));
    assert_eq!(e.health, Some(Health { current: 10, max: 20 }));
    assert_eq!(e.fov, Some(FieldOfView { radius: 8, is_dirty: true }));
    assert_eq!(mb.occupancy.occupant(Point::new(1, 1)), Some(id));
}

#[test]
fn orc_and_goblin_stats() {
    let mut world = World::new();
    let mut mb = builder(&[]);
    let orc = spawn_monster(&mut world, &mut mb, MonsterKind::Orc, &Point::new(3, 4));
    let goblin = spawn_monster(&mut world, &mut mb, MonsterKind::Goblin, &Point::new(4, 4));
    let o = &world.entities()[0];
    assert_eq!(o.name, "Orc");
    assert_eq!(o.glyph, 'o');
    assert_eq!(o.health, Some(Health { current: 2, max: 2 }));
    assert_eq!(o.kind, EntityKind::Enemy);
    assert!(o.chases_player);
    assert!(!o.visible);
    assert_eq!(o.fov, Some(FieldOfView { radius: 8, is_dirty: true }));
    let g = &world.entities()[1];
    assert_eq!(g.name, "Goblin");
    assert_eq!(g.glyph, 'g');
    assert_eq!(g.health, Some(Health { current: 1, max: 1 }));
    assert_eq!(mb.occupancy.occupant(Point::new(3, 4)), Some(orc));
    assert_eq!(mb.occupancy.occupant(Point::new(4, 4)), Some(goblin));
}

#[test]
fn items_are_hidden_and_not_registered() {
    let mut world = World::new();
    let mut mb = builder(&[]);
    spawn_healing_potion(&mut world, &Point::new(2, 3));
    spawn_magic_mapper(&mut world, &Point::new(3, 3));
    spawn_amulet_of_yala(&mut world, &mb);
    let es = world.entities();
    assert_eq!(es[0].kind, EntityKind::Item(ItemKind::HealingPotion { amount: 6 }));
    assert_eq!(es[0].name, "Healing Potion");
    assert_eq!(es[0].description.as_deref(), Some("Heals 6 Health Points."));
    assert_eq!(es[1].kind, EntityKind::Item(ItemKind::DungeonMap));
    assert_eq!(es[1].name, "Dungeon Map");
    assert_eq!(es[1].description.as_deref(), Some("Reveals all the map tiles."));
    assert_eq!(es[2].kind, EntityKind::Item(ItemKind::AmuletOfYala));
    assert_eq!(es[2].name, "Amulet of Yala");
    assert_eq!(es[2].position, Some(Position { x: 9, y: 9, z: 2 }));
    assert!(es.iter().all(|e| !e.visible && e.health.is_none() && e.fov.is_none()));
    assert_eq!(mb.occupancy.occupant(Point::new(2, 3)), None);
    assert_eq!(mb.occupancy.occupant(Point::new(3, 3)), None);
    spawn_player(&mut world, &mut mb);
    assert_eq!(world.len(), 4);
}

#[test]
fn roll_tables() {
    assert_eq!(outcome_for_roll(0), Outcome::HealingPotion);
    assert_eq!(outcome_for_roll(1), Outcome::DungeonMap);
    assert_eq!(outcome_for_roll(2), Outcome::Monster);
    assert_eq!(monster_for_roll(0), MonsterKind::Orc);
    assert_eq!(monster_for_roll(1), MonsterKind::Goblin);
    assert_eq!(monster_for_roll(3), MonsterKind::Goblin);
    assert_eq!(monster_for_roll(17), MonsterKind::Goblin);
}

#[test]
fn spawn_outcome_registers_only_monsters() {
    let mut world = World::new();
    let mut mb = builder(&[]);
    spawn_outcome(&mut world, &mut mb, &Point::new(5, 5), Outcome::HealingPotion, MonsterKind::Orc);
    let m = spawn_outcome(&mut world, &mut mb, &Point::new(6, 5), Outcome::Monster, MonsterKind::Orc);
    assert_eq!(world.entities()[0].name, "Healing Potion");
    assert_eq!(world.entities()[1].name, "Orc");
    assert_eq!(mb.occupancy.occupant(Point::new(5, 5)), None);
    assert_eq!(mb.occupancy.occupant(Point::new(6, 5)), Some(m));
}

#[test]
fn population_yields_exactly_one_player() {
    let mut world = World::new();
    let mut mb = builder(&[(5, 5), (6, 5), (7, 5), (8, 5)]);
    let mut rng = StdRng::seed_from_u64(7);
    populate(&mut world, &mut mb, &mut rng);
    assert_eq!(players(&world), 1);
    assert_eq!(world.len(), 5);
    advance_level(&mut world);
    spawn_enemies(&mut world, &mut mb, &mut rng);
    assert_eq!(players(&world), 1);
}

#[test]
fn outcomes_are_uniform_over_a_large_sample() {
    let tiles: Vec<(i32, i32)> = (0..30000).map(|i| (i % 100, i / 100)).collect();
    let mut world = World::new();
    let mut mb = builder(&tiles);
    let mut rng = StdRng::seed_from_u64(2024);
    spawn_enemies(&mut world, &mut mb, &mut rng);
    let count = |name: &str| world.entities().iter().filter(|e| e.name == name).count() as f64;
    let n = 30000.0;
    let potions = count("Healing Potion") / n;
    let maps = count("Dungeon Map") / n;
    let orcs = count("Orc");
    let goblins = count("Goblin");
    let monsters = (orcs + goblins) / n;
    for share in [potions, maps, monsters] {
        assert!((share - 1.0 / 3.0).abs() < 0.02, "share {share}");
    }
    let orc_share = orcs / (orcs + goblins);
    assert!((orc_share - 0.25).abs() < 0.02, "orc share {orc_share}");
}

#[test]
fn monsters_are_registered_on_their_tiles() {
    let tiles: Vec<(i32, i32)> = (0..60).map(|i| (i, 2)).collect();
    let mut world = World::new();
    let mut mb = builder(&tiles);
    let mut rng = StdRng::seed_from_u64(11);
    spawn_enemies(&mut world, &mut mb, &mut rng);
    let mut monsters = 0;
    for e in world.entities() {
        let p = e.position.unwrap();
        let occupant = mb.occupancy.occupant(Point::new(p.x, p.y));
        if e.kind == EntityKind::Enemy {
            monsters += 1;
            assert_eq!(occupant, Some(e.id));
        } else {
            assert_eq!(occupant, None);
        }
    }
    assert!(monsters > 0);
}

#[test]
fn despawn_all_removes_every_positioned_entity() {
    let mut world = World::new();
    let mut mb = builder(&[(5, 5), (6, 5), (7, 5)]);
    let mut rng = StdRng::seed_from_u64(3);
    populate(&mut world, &mut mb, &mut rng);
    world.spawn(bare(EntityKind::Enemy, None, None));
    despawn_all_with_position(&mut world);
    assert_eq!(positioned(&world), 0);
    assert_eq!(world.len(), 1);
    assert_eq!(players(&world), 0);
}

#[test]
fn despawn_all_twice_is_harmless() {
    let mut world = World::new();
    let mut mb = builder(&[(5, 5), (6, 5)]);
    let mut rng = StdRng::seed_from_u64(5);
    populate(&mut world, &mut mb, &mut rng);
    despawn_all_with_position(&mut world);
    despawn_all_with_position(&mut world);
    assert_eq!(positioned(&world), 0);
    assert_eq!(world.len(), 0);
    let mut empty = World::new();
    despawn_all_with_position(&mut empty);
    assert_eq!(empty.len(), 0);
}

#[test]
fn advance_level_keeps_only_the_player_and_dirties_views() {
    let mut world = World::new();
    let clean = Some(FieldOfView { radius: 8, is_dirty: false });
    let here = Some(Position { x: 4, y: 7, z: 2 });
    let player = world.spawn(bare(EntityKind::Player { map_level: 0 }, here, clean));
    world.spawn(bare(EntityKind::Enemy, Some(Position { x: 5, y: 7, z: 2 }), clean));
    let unplaced = world.spawn(bare(EntityKind::Item(ItemKind::DungeonMap), None, clean));
    let mut mb = builder(&[(5, 5), (6, 5), (7, 5)]);
    let mut rng = StdRng::seed_from_u64(9);
    spawn_enemies(&mut world, &mut mb, &mut rng);
    advance_level(&mut world);
    let es = world.entities();
    assert_eq!(es.len(), 2);
    assert_eq!(es[0].id, player);
    assert_eq!(es[0].position, here);
    assert_eq!(es[1].id, unplaced);
    assert!(es.iter().all(|e| e.fov.map_or(true, |f| f.is_dirty)));
    assert!(es
        .iter()
        .all(|e| e.position.is_none() || matches!(e.kind, EntityKind::Player { .. })));
}

fn outcomes_for_seed(seed: u64) -> Vec<(String, char)> {
    let mut world = World::new();
    let mut mb = builder(&[(5, 5), (6, 5), (7, 5)]);
    let mut rng = StdRng::seed_from_u64(seed);
    spawn_enemies(&mut world, &mut mb, &mut rng);
    world.entities().iter().map(|e| (e.name.clone(), e.glyph)).collect()
}

#[test]
fn fixed_seed_reproduces_outcomes() {
    for seed in [0u64, 1, 42, 1234] {
        let first = outcomes_for_seed(seed);
        assert_eq!(first.len(), 3);
        assert_eq!(first, outcomes_for_seed(seed));
    }
}

#[test]
fn plugin_populates_then_resets() {
    let plugin = SpawnerPlugin;
    let mut world = World::new();
    let mut mb = builder(&[(5, 5), (6, 5), (7, 5)]);
    let mut rng = StdRng::seed_from_u64(21);
    plugin.on_transition(Transition::ExitStartScreen, &mut world, &mut mb, &mut rng);
    assert_eq!(world.len(), 4);
    assert_eq!(players(&world), 1);
    plugin.on_transition(Transition::EnterGameOver, &mut world, &mut mb, &mut rng);
    assert_eq!(world.len(), 0);
    plugin.on_transition(Transition::ExitStartScreen, &mut world, &mut mb, &mut rng);
    plugin.on_transition(Transition::EnterVictory, &mut world, &mut mb, &mut rng);
    assert_eq!(positioned(&world), 0);
}

#[test]
fn occupancy_last_writer_wins() {
    let mut mb = builder(&[]);
    assert_eq!(mb.occupancy.occupant(Point::new(0, 0)), None);
    mb.entity_occupy_tile(3, Point::new(0, 0));
    mb.entity_occupy_tile(4, Point::new(1, 0));
    mb.entity_occupy_tile(5, Point::new(0, 0));
    assert_eq!(mb.occupancy.occupant(Point::new(0, 0)), Some(5));
    assert_eq!(mb.occupancy.occupant(Point::new(1, 0)), Some(4));
}

#[test]
fn spawned_ids_are_fresh() {
    let mut world = World::new();
    let a = world.spawn(bare(EntityKind::Enemy, None, None));
    let b = world.spawn(bare(EntityKind::Enemy, None, None));
    despawn_all_with_position(&mut world);
    let c = world.spawn(bare(EntityKind::Enemy, None, None));
    assert_eq!((a, b, c), (0, 1, 2));
}
