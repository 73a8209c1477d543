use vstd::prelude::*;
use rand::rngs::StdRng;
use rand::Rng;
use crate::occupancy::{EntityId, MapBuilder, Point, same_layout};
use crate::world::{
    advanced, despawned_all, lemma_advance_keeps_player_count, lemma_player_count_push,
    player_count, Entity, EntityKind, FieldOfView, Health, ItemKind, Position, World,
};

verus! {

/// rand's seedable generator, carried through as an opaque value: a fixed
/// seed gives a fixed sequence of rolls.
#[verifier::external_type_specification]
#[verifier::external_body]
pub struct ExStdRng(StdRng);

/// Relies on rand's `Rng::gen_range`: a value drawn from the half-open range
/// `0..n`; the range must not be empty, else the call panics.
#[verifier::external_body]
fn roll_below(rng: &mut StdRng, n: u32) -> (r: u32)
    requires
        0 < n,
    ensures
        r < n,
{
    rng.gen_range(0..n)
}

/// The two monsters of the spawn table.
#[derive(Clone, Copy, Debug, PartialEq, Eq, Structural)]
pub enum MonsterKind {
    Goblin,
    Orc,
}

/// What appears on an enemy start tile.
#[derive(Clone, Copy, Debug, PartialEq, Eq, Structural)]
pub enum Outcome {
    HealingPotion,
    DungeonMap,
    Monster,
}

pub open spec fn monster_hp(k: MonsterKind) -> i32 {
    match k {
        MonsterKind::Goblin => 1,
        MonsterKind::Orc => 2,
    }
}

pub open spec fn monster_name(k: MonsterKind) -> Seq<char> {
    match k {
        MonsterKind::Goblin => "Goblin"@,
        MonsterKind::Orc => "Orc"@,
    }
}

pub open spec fn monster_glyph(k: MonsterKind) -> char {
    match k {
        MonsterKind::Goblin => 'g',
        MonsterKind::Orc => 'o',
    }
}

/// The position component of an entity standing on `p`.
pub open spec fn placed(p: Point) -> Option<Position> {
    Some(Position { x: p.x, y: p.y, z: 2 })
}

/// A field of view of radius eight that still has to be computed.
pub open spec fn fresh_fov() -> Option<FieldOfView> {
    Some(FieldOfView { radius: 8, is_dirty: true })
}

pub open spec fn is_player_at(e: Entity, p: Point) -> bool {
    &&& e.kind == (EntityKind::Player { map_level: 0 })
    &&& e.name@ == "Player"@
    &&& e.description is None
    &&& e.glyph == '@'
    &&& e.visible
    &&& !e.chases_player
    &&& e.position == placed(p)
    &&& e.health == Some(Health { current: 10, max: 20 })
    &&& e.fov == fresh_fov()
}

pub open spec fn is_monster_at(e: Entity, k: MonsterKind, p: Point) -> bool {
    &&& e.kind == EntityKind::Enemy
    &&& e.name@ == monster_name(k)
    &&& e.description is None
    &&& e.glyph == monster_glyph(k)
    &&& !e.visible
    &&& e.chases_player
    &&& e.position == placed(p)
    &&& e.health == Some(Health { current: monster_hp(k), max: monster_hp(k) })
    &&& e.fov == fresh_fov()
}

/// The attributes that every item shares: hidden, inert, without health or
/// sight.
pub open spec fn is_item_at(e: Entity, k: ItemKind, p: Point) -> bool {
    &&& e.kind == EntityKind::Item(k)
    &&& !e.visible
    &&& !e.chases_player
    &&& e.position == placed(p)
    &&& e.health is None
    &&& e.fov is None
}

pub open spec fn is_healing_potion_at(e: Entity, p: Point) -> bool {
    &&& is_item_at(e, ItemKind::HealingPotion { amount: 6 }, p)
    &&& e.name@ == "Healing Potion"@
    &&& e.description is Some
    &&& e.description.unwrap()@ == "Heals 6 Health Points."@
    &&& e.glyph == 'p'
}

pub open spec fn is_dungeon_map_at(e: Entity, p: Point) -> bool {
    &&& is_item_at(e, ItemKind::DungeonMap, p)
    &&& e.name@ == "Dungeon Map"@
    &&& e.description is Some
    &&& e.description.unwrap()@ == "Reveals all the map tiles."@
    &&& e.glyph == 'm'
}

pub open spec fn is_amulet_at(e: Entity, p: Point) -> bool {
    &&& is_item_at(e, ItemKind::AmuletOfYala, p)
    &&& e.name@ == "Amulet of Yala"@
    &&& e.description is None
    &&& e.glyph == '\u{6}'
}

/// Max hit points, name and glyph of a goblin.
fn goblin() -> (r: (i32, String, char))
    ensures
        r.0 == monster_hp(MonsterKind::Goblin),
        r.1@ == monster_name(MonsterKind::Goblin),
        r.2 == monster_glyph(MonsterKind::Goblin),
{
    (1, "Goblin".to_owned(), 'g')
}

/// Max hit points, name and glyph of an orc.
fn orc() -> (r: (i32, String, char))
    ensures
        r.0 == monster_hp(MonsterKind::Orc),
        r.1@ == monster_name(MonsterKind::Orc),
        r.2 == monster_glyph(MonsterKind::Orc),
{
    (2, "Orc".to_owned(), 'o')
}

/// The monster that a roll of the monster table stands for.
pub open spec fn monster_of(roll: u32) -> MonsterKind {
    if roll == 0 {
        MonsterKind::Orc
    } else {
        MonsterKind::Goblin
    }
}

/// The outcome that a roll of the tile table stands for.
pub open spec fn outcome_of(roll: u32) -> Outcome {
    if roll == 0 {
        Outcome::HealingPotion
    } else if roll == 1 {
        Outcome::DungeonMap
    } else {
        Outcome::Monster
    }
}

/// The monster for a roll of `0..4`: an orc on zero, a goblin otherwise,
/// out-of-range rolls included.
pub fn monster_for_roll(roll: u32) -> (k: MonsterKind)
    ensures
        k == monster_of(roll),
{
    if roll == 0 {
        MonsterKind::Orc
    } else {
        MonsterKind::Goblin
    }
}

/// The outcome for a roll of `0..3`: a healing potion on zero, a dungeon map
/// on one, a monster otherwise.
pub fn outcome_for_roll(roll: u32) -> (o: Outcome)
    ensures
        o == outcome_of(roll),
{
    if roll == 0 {
        Outcome::HealingPotion
    } else if roll == 1 {
        Outcome::DungeonMap
    } else {
        Outcome::Monster
    }
}

/// Creates the player on the start tile of `mb` and registers it there.
pub fn spawn_player(world: &mut World, mb: &mut MapBuilder) -> (id: EntityId)
    requires
        old(world).wf(),
        old(world).next_id() < u64::MAX,
    ensures
        final(world).wf(),
        id == old(world).next_id(),
        final(world).next_id() == id + 1,
        final(world)@.drop_last() == old(world)@,
        final(world)@.len() == old(world)@.len() + 1,
        final(world)@.last().id == id,
        is_player_at(final(world)@.last(), old(mb).player_start),
        same_layout(final(mb), old(mb)),
        final(mb).occupancy@ == old(mb).occupancy@.insert(old(mb).player_start, id),
{
    let player_start = mb.player_start;
    let entity = world.spawn(
        Entity {
            id: 0,
            kind: EntityKind::Player { map_level: 0 },
            name: "Player".to_owned(),
            description: None,
            glyph: '@',
            visible: true,
            chases_player: false,
            position: Some(Position { x: player_start.x, y: player_start.y, z: 2 }),
            health: Some(Health { current: 10, max: 20 }),
            fov: Some(FieldOfView::new(8)),
        },
    );
    mb.entity_occupy_tile(entity, player_start);
    entity
}

/// Creates a hidden monster that chases the player, with `hp` as both its
/// current and maximum hit points.
fn spawn_enemy(world: &mut World, glyph: char, name: &String, hp: i32, position: &Point) -> (id:
    EntityId)
    requires
        old(world).wf(),
        old(world).next_id() < u64::MAX,
    ensures
        final(world).wf(),
        id == old(world).next_id(),
        final(world).next_id() == id + 1,
        final(world)@.drop_last() == old(world)@,
        final(world)@.len() == old(world)@.len() + 1,
        final(world)@.last().id == id,
        final(world)@.last().kind == EntityKind::Enemy,
        final(world)@.last().name@ == name@,
        final(world)@.last().description is None,
        final(world)@.last().glyph == glyph,
        !final(world)@.last().visible,
        final(world)@.last().chases_player,
        final(world)@.last().position == placed(*position),
        final(world)@.last().health == Some(Health { current: hp, max: hp }),
        final(world)@.last().fov == fresh_fov(),
{
    world.spawn(
        Entity {
            id: 0,
            kind: EntityKind::Enemy,
            name: name.clone(),
            description: None,
            glyph,
            visible: false,
            chases_player: true,
            position: Some(Position { x: position.x, y: position.y, z: 2 }),
            health: Some(Health { current: hp, max: hp }),
            fov: Some(FieldOfView::new(8)),
        },
    )
}

/// Creates a monster of kind `kind` on `position` and registers it in the
/// occupancy index there.
pub fn spawn_monster(world: &mut World, mb: &mut MapBuilder, kind: MonsterKind, position: &Point) -> (id: EntityId)
    requires
        old(world).wf(),
        old(world).next_id() < u64::MAX,
    ensures
        final(world).wf(),
        id == old(world).next_id(),
        final(world).next_id() == id + 1,
        final(world)@.drop_last() == old(world)@,
        final(world)@.len() == old(world)@.len() + 1,
        final(world)@.last().id == id,
        is_monster_at(final(world)@.last(), kind, *position),
        same_layout(final(mb), old(mb)),
        final(mb).occupancy@ == old(mb).occupancy@.insert(*position, id),
{
    let (hp, name, glyph) = match kind {
        MonsterKind::Orc => orc(),
        MonsterKind::Goblin => goblin(),
    };
    let monster_entity = spawn_enemy(world, glyph, &name, hp, position);
    mb.entity_occupy_tile(monster_entity, *position);
    monster_entity
}

/// Creates a hidden healing potion that heals six points on `position`.
pub fn spawn_healing_potion(world: &mut World, position: &Point) -> (id: EntityId)
    requires
        old(world).wf(),
        old(world).next_id() < u64::MAX,
    ensures
        final(world).wf(),
        id == old(world).next_id(),
        final(world).next_id() == id + 1,
        final(world)@.drop_last() == old(world)@,
        final(world)@.len() == old(world)@.len() + 1,
        final(world)@.last().id == id,
        is_healing_potion_at(final(world)@.last(), *position),
{
    world.spawn(
        Entity {
            id: 0,
            kind: EntityKind::Item(ItemKind::HealingPotion { amount: 6 }),
            name: "Healing Potion".to_owned(),
            description: Some("Heals 6 Health Points.".to_owned()),
            glyph: 'p',
            visible: false,
            chases_player: false,
            position: Some(Position { x: position.x, y: position.y, z: 2 }),
            health: None,
            fov: None,
        },
    )
}

/// Creates a hidden dungeon map, which reveals every tile, on `position`.
pub fn spawn_magic_mapper(world: &mut World, position: &Point) -> (id: EntityId)
    requires
        old(world).wf(),
        old(world).next_id() < u64::MAX,
    ensures
        final(world).wf(),
        id == old(world).next_id(),
        final(world).next_id() == id + 1,
        final(world)@.drop_last() == old(world)@,
        final(world)@.len() == old(world)@.len() + 1,
        final(world)@.last().id == id,
        is_dungeon_map_at(final(world)@.last(), *position),
{
    world.spawn(
        Entity {
            id: 0,
            kind: EntityKind::Item(ItemKind::DungeonMap),
            name: "Dungeon Map".to_owned(),
            description: Some("Reveals all the map tiles.".to_owned()),
            glyph: 'm',
            visible: false,
            chases_player: false,
            position: Some(Position { x: position.x, y: position.y, z: 2 }),
            health: None,
            fov: None,
        },
    )
}

/// Creates the hidden Amulet of Yala on the amulet tile of `mb`.
pub fn spawn_amulet_of_yala(world: &mut World, mb: &MapBuilder) -> (id: EntityId)
    requires
        old(world).wf(),
        old(world).next_id() < u64::MAX,
    ensures
        final(world).wf(),
        id == old(world).next_id(),
        final(world).next_id() == id + 1,
        final(world)@.drop_last() == old(world)@,
        final(world)@.len() == old(world)@.len() + 1,
        final(world)@.last().id == id,
        is_amulet_at(final(world)@.last(), mb.amulet_start),
{
    let amulet_start = mb.amulet_start;
    world.spawn(
        Entity {
            id: 0,
            kind: EntityKind::Item(ItemKind::AmuletOfYala),
            name: "Amulet of Yala".to_owned(),
            description: None,
            glyph: '\u{6}',
            visible: false,
            chases_player: false,
            position: Some(Position { x: amulet_start.x, y: amulet_start.y, z: 2 }),
            health: None,
            fov: None,
        },
    )
}

/// `e` is what `outcome` puts on `p`, `k` being the monster drawn in case
/// of a monster.
pub open spec fn is_outcome_at(e: Entity, outcome: Outcome, k: MonsterKind, p: Point) -> bool {
    match outcome {
        Outcome::HealingPotion => is_healing_potion_at(e, p),
        Outcome::DungeonMap => is_dungeon_map_at(e, p),
        Outcome::Monster => is_monster_at(e, k, p),
    }
}

/// `e` is one of the things that may appear on the enemy start tile `p`.
pub open spec fn is_content_at(e: Entity, p: Point) -> bool {
    ||| is_healing_potion_at(e, p)
    ||| is_dungeon_map_at(e, p)
    ||| is_monster_at(e, MonsterKind::Goblin, p)
    ||| is_monster_at(e, MonsterKind::Orc, p)
}

/// The occupancy map `m` after the monsters among `ents`, standing on the
/// matching `tiles`, have been registered in order.
pub open spec fn registered(m: Map<Point, EntityId>, tiles: Seq<Point>, ents: Seq<Entity>) -> Map<
    Point,
    EntityId,
>
    decreases tiles.len(),
{
    if tiles.len() == 0 || ents.len() == 0 {
        m
    } else {
        let prev = registered(m, tiles.drop_last(), ents.drop_last());
        if ents.last().kind is Enemy {
            prev.insert(tiles.last(), ents.last().id)
        } else {
            prev
        }
    }
}

/// Puts what `outcome` names on `position`: a healing potion, a dungeon map,
/// or a monster of kind `kind`; only a monster is registered in the
/// occupancy index.
pub fn spawn_outcome(
    world: &mut World,
    mb: &mut MapBuilder,
    position: &Point,
    outcome: Outcome,
    kind: MonsterKind,
) -> (id: EntityId)
    requires
        old(world).wf(),
        old(world).next_id() < u64::MAX,
    ensures
        final(world).wf(),
        id == old(world).next_id(),
        final(world).next_id() == id + 1,
        final(world)@.drop_last() == old(world)@,
        final(world)@.len() == old(world)@.len() + 1,
        final(world)@.last().id == id,
        is_outcome_at(final(world)@.last(), outcome, kind, *position),
        same_layout(final(mb), old(mb)),
        final(mb).occupancy@ == (if outcome == Outcome::Monster {
            old(mb).occupancy@.insert(*position, id)
        } else {
            old(mb).occupancy@
        }),
{
    match outcome {
        Outcome::HealingPotion => spawn_healing_potion(world, position),
        Outcome::DungeonMap => spawn_magic_mapper(world, position),
        Outcome::Monster => spawn_monster(world, mb, kind, position),
    }
}

/// Fills every enemy start tile of `mb` with a healing potion, a dungeon map
/// or a monster, each with chance one in three; a monster is an orc with
/// chance one in four and a goblin otherwise. Monsters are registered in the
/// occupancy index, items are not.
pub fn spawn_enemies(world: &mut World, mb: &mut MapBuilder, rng: &mut StdRng)
    requires
        old(world).wf(),
        old(world).next_id() + old(mb).enemies_start@.len() <= u64::MAX,
    ensures
        final(world).wf(),
        final(world).next_id() == old(world).next_id() + old(mb).enemies_start@.len(),
        final(world)@.len() == old(world)@.len() + old(mb).enemies_start@.len(),
        final(world)@.subrange(0, old(world)@.len() as int) == old(world)@,
        forall|j: int|
            0 <= j < old(mb).enemies_start@.len() ==> {
                &&& (#[trigger] final(world)@[old(world)@.len() + j]).id == old(world).next_id() + j
                &&& is_content_at(final(world)@[old(world)@.len() + j], old(mb).enemies_start@[j])
            },
        same_layout(final(mb), old(mb)),
        final(mb).occupancy@ == registered(
            old(mb).occupancy@,
            old(mb).enemies_start@,
            final(world)@.subrange(old(world)@.len() as int, final(world)@.len() as int),
        ),
        player_count(final(world)@) == player_count(old(world)@),
{
    let n = mb.enemies_start.len();
    let ghost base = old(world)@.len() as int;
    let ghost tiles = old(mb).enemies_start@;
    let mut i: usize = 0;
    assert(world@.subrange(base, base) =~= Seq::<Entity>::empty());
    assert(world@.subrange(0, base) =~= old(world)@);
    while i < n
        invariant
            n == tiles.len(),
            tiles == old(mb).enemies_start@,
            base == old(world)@.len(),
            same_layout(mb, old(mb)),
            0 <= i <= n,
            world.wf(),
            old(world).next_id() + n <= u64::MAX,
            world.next_id() == old(world).next_id() + i,
            world@.len() == base + i,
            world@.subrange(0, base) == old(world)@,
            forall|j: int|
                0 <= j < i ==> {
                    &&& (#[trigger] world@[base + j]).id == old(world).next_id() + j
                    &&& is_content_at(world@[base + j], tiles[j])
                },
            mb.occupancy@ == registered(
                old(mb).occupancy@,
                tiles.subrange(0, i as int),
                world@.subrange(base, world@.len() as int),
            ),
            player_count(world@) == player_count(old(world)@),
        decreases n - i,
    {
        let position = mb.enemies_start[i];
        let roll = roll_below(rng, 3);
        let outcome = outcome_for_roll(roll);
        let kind = match outcome {
            Outcome::Monster => monster_for_roll(roll_below(rng, 4)),
            _ => MonsterKind::Goblin,
        };
        let ghost before = world@;
        let ghost occ_before = mb.occupancy@;
        let id = spawn_outcome(world, mb, &position, outcome, kind);
        proof {
            let e = world@.last();
            assert(world@ =~= before.push(e));
            lemma_player_count_push(before, e);
            assert(world@.subrange(0, base) =~= before.subrange(0, base));
            let ents = world@.subrange(base, world@.len() as int);
            assert(ents.drop_last() =~= before.subrange(base, before.len() as int));
            assert(tiles.subrange(0, i + 1).drop_last() =~= tiles.subrange(0, i as int));
            assert(ents.last() == e);
            assert(tiles.subrange(0, i + 1).last() == tiles[i as int]);
            assert(world@[base + i] == e);
            assert forall|j: int| 0 <= j < i + 1 implies {
                &&& (#[trigger] world@[base + j]).id == old(world).next_id() + j
                &&& is_content_at(world@[base + j], tiles[j])
            } by {
                if j < i {
                    assert(world@[base + j] == before[base + j]);
                }
            }
        }
        i = i + 1;
    }
    proof {
        assert(tiles.subrange(0, n as int) =~= tiles);
    }
}

/// Destroys every positioned entity, the player included: the clean-up on
/// game over and on victory.
pub fn despawn_all_with_position(world: &mut World)
    requires
        old(world).wf(),
    ensures
        final(world).wf(),
        final(world).next_id() == old(world).next_id(),
        final(world)@ == despawned_all(old(world)@),
{
    world.sweep(false);
}

/// Destroys every positioned entity but the player and marks every field of
/// view that is left for recomputation: the clean-up before a new level.
pub fn advance_level(world: &mut World)
    requires
        old(world).wf(),
    ensures
        final(world).wf(),
        final(world).next_id() == old(world).next_id(),
        final(world)@ == advanced(old(world)@),
        player_count(final(world)@) == player_count(old(world)@),
{
    world.sweep(true);
    proof {
        lemma_advance_keeps_player_count(old(world)@);
    }
}

/// `w1` and `mb1` are `w0` and `mb0` after a level has been populated: the
/// player first, on the player start tile, then one potion, map or monster
/// on each enemy start tile, each registered in the occupancy index but the
/// items.
pub open spec fn populated(w0: &World, mb0: &MapBuilder, w1: &World, mb1: &MapBuilder) -> bool {
    let base = w0@.len() as int;
    let n = mb0.enemies_start@.len() as int;
    let player_id = w0.next_id();
    &&& w1.next_id() == w0.next_id() + 1 + n
    &&& w1@.len() == base + 1 + n
    &&& w1@.subrange(0, base) == w0@
    &&& w1@[base].id == player_id
    &&& is_player_at(w1@[base], mb0.player_start)
    &&& forall|j: int|
        0 <= j < n ==> {
            &&& (#[trigger] w1@[base + 1 + j]).id == player_id + 1 + j
            &&& is_content_at(w1@[base + 1 + j], mb0.enemies_start@[j])
        }
    &&& same_layout(mb1, mb0)
    &&& mb1.occupancy@ == registered(
        mb0.occupancy@.insert(mb0.player_start, player_id),
        mb0.enemies_start@,
        w1@.subrange(base + 1, w1@.len() as int),
    )
}

/// Populates a fresh level: the player, then the enemy start tiles. The
/// world gains exactly one player.
pub fn populate(world: &mut World, mb: &mut MapBuilder, rng: &mut StdRng)
    requires
        old(world).wf(),
        old(world).next_id() + 1 + old(mb).enemies_start@.len() <= u64::MAX,
    ensures
        final(world).wf(),
        populated(old(world), old(mb), final(world), final(mb)),
        player_count(final(world)@) == player_count(old(world)@) + 1,
{
    let ghost w0 = world@;
    spawn_player(world, mb);
    let ghost w1 = world@;
    proof {
        assert(w1 =~= w0.push(w1.last()));
        lemma_player_count_push(w0, w1.last());
    }
    spawn_enemies(world, mb, rng);
    proof {
        let base = w0.len() as int;
        assert(world@[base] == w1[base]);
        assert(world@.subrange(0, base) =~= w1.subrange(0, base));
        assert(w1.subrange(0, base) =~= w0);
        assert forall|j: int| 0 <= j < mb.enemies_start@.len() implies {
            &&& (#[trigger] world@[base + 1 + j]).id == old(world).next_id() + 1 + j
            &&& is_content_at(world@[base + 1 + j], old(mb).enemies_start@[j])
        } by {
            assert(world@[w1.len() + j] == world@[base + 1 + j]);
        }
    }
}

/// The hooks that tie population and clean-up to the game's turn states.
#[derive(Clone, Copy, Debug, PartialEq, Eq, Structural)]
pub enum Transition {
    /// Leaving the start screen: a new game begins.
    ExitStartScreen,
    /// Entering game over.
    EnterGameOver,
    /// Entering victory.
    EnterVictory,
}

/// Runs the spawner's systems on turn-state transitions: population when the
/// start screen is left, a full clean-up on game over and on victory.
#[derive(Clone, Copy, Debug)]
pub struct SpawnerPlugin;

impl SpawnerPlugin {
    pub fn on_transition(&self, transition: Transition, world: &mut World, mb: &mut MapBuilder, rng: &mut StdRng)
        requires
            old(world).wf(),
            transition == Transition::ExitStartScreen ==> old(world).next_id() + 1
                + old(mb).enemies_start@.len() <= u64::MAX,
        ensures
            final(world).wf(),
            transition == Transition::ExitStartScreen ==> populated(old(world), old(mb), final(world), final(mb)),
            transition != Transition::ExitStartScreen ==> {
                &&& final(world)@ == despawned_all(old(world)@)
                &&& final(world).next_id() == old(world).next_id()
                &&& same_layout(final(mb), old(mb))
                &&& final(mb).occupancy@ == old(mb).occupancy@
            },
    {
        match transition {
            Transition::ExitStartScreen => populate(world, mb, rng),
            Transition::EnterGameOver => despawn_all_with_position(world),
            Transition::EnterVictory => despawn_all_with_position(world),
        }
    }
}

/// Every monster placed on the enemy start tiles stands in the occupancy
/// index on its own tile, provided no two start tiles coincide (a later
/// registration on a shared tile overwrites an earlier one).
pub proof fn lemma_monsters_are_registered(m: Map<Point, EntityId>, tiles: Seq<Point>, ents: Seq<Entity>)
    requires
        tiles.len() == ents.len(),
        tiles.no_duplicates(),
    ensures
        forall|j: int|
            0 <= j < ents.len() && (#[trigger] ents[j]).kind is Enemy ==> {
                &&& registered(m, tiles, ents).contains_key(tiles[j])
                &&& registered(m, tiles, ents)[tiles[j]] == ents[j].id
            },
    decreases tiles.len(),
{
    if tiles.len() > 0 {
        let t = tiles.drop_last();
        let es = ents.drop_last();
        lemma_monsters_are_registered(m, t, es);
        assert forall|j: int|
            0 <= j < ents.len() && (#[trigger] ents[j]).kind is Enemy implies {
                &&& registered(m, tiles, ents).contains_key(tiles[j])
                &&& registered(m, tiles, ents)[tiles[j]] == ents[j].id
            } by {
            if j < ents.len() - 1 {
                assert(es[j] == ents[j]);
                assert(t[j] == tiles[j]);
                assert(tiles[j] != tiles.last());
            }
        }
    }
}

/// The tile table is uniform: each of the three outcomes comes from exactly
/// one of the three equally likely rolls. The monster table gives an orc on
/// exactly one of its four equally likely rolls and a goblin on the other
/// three.
pub proof fn lemma_spawn_tables(roll: u32)
    ensures
        roll < 3 ==> (outcome_of(roll) == Outcome::HealingPotion <==> roll == 0),
        roll < 3 ==> (outcome_of(roll) == Outcome::DungeonMap <==> roll == 1),
        roll < 3 ==> (outcome_of(roll) == Outcome::Monster <==> roll == 2),
        roll < 4 ==> (monster_of(roll) == MonsterKind::Orc <==> roll == 0),
        roll < 4 ==> (monster_of(roll) == MonsterKind::Goblin <==> (1 <= roll && roll <= 3)),
{
}

} // verus!
