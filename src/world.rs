use vstd::prelude::*;
use crate::occupancy::EntityId;

verus! {

/// Where an entity stands: a tile and a drawing layer.
#[derive(Clone, Copy, Debug, PartialEq, Eq, Structural)]
pub struct Position {
    pub x: i32,
    pub y: i32,
    pub z: i32,
}

/// Current and maximum hit points.
#[derive(Clone, Copy, Debug, PartialEq, Eq, Structural)]
pub struct Health {
    pub current: i32,
    pub max: i32,
}

/// The cached field of view of an entity: only its radius and whether it
/// must be computed again are kept here.
#[derive(Clone, Copy, Debug, PartialEq, Eq, Structural)]
pub struct FieldOfView {
    pub radius: i32,
    pub is_dirty: bool,
}

impl FieldOfView {
    /// A field of view that has not been computed yet.
    pub fn new(radius: i32) -> (f: FieldOfView)
        ensures
            f == (FieldOfView { radius, is_dirty: true }),
    {
        FieldOfView { radius, is_dirty: true }
    }
}

/// What an item does once picked up.
#[derive(Clone, Copy, Debug, PartialEq, Eq, Structural)]
pub enum ItemKind {
    HealingPotion { amount: i32 },
    DungeonMap,
    AmuletOfYala,
}

/// The closed set of entity kinds.
#[derive(Clone, Copy, Debug, PartialEq, Eq, Structural)]
pub enum EntityKind {
    Player { map_level: u32 },
    Enemy,
    Item(ItemKind),
}

/// One game entity with the attributes that population and level
/// transitions read or write.
#[derive(Debug)]
pub struct Entity {
    pub id: EntityId,
    pub kind: EntityKind,
    pub name: String,
    pub description: Option<String>,
    pub glyph: char,
    pub visible: bool,
    pub chases_player: bool,
    pub position: Option<Position>,
    pub health: Option<Health>,
    pub fov: Option<FieldOfView>,
}

/// `e` with its field of view, if it has one, marked for recomputation.
pub open spec fn with_dirty_fov(e: Entity) -> Entity {
    Entity {
        fov: match e.fov {
            Some(f) => Some(FieldOfView { is_dirty: true, ..f }),
            None => None,
        },
        ..e
    }
}

/// The entities that survive a game reset: those without a position.
pub open spec fn despawned_all(s: Seq<Entity>) -> Seq<Entity> {
    s.filter(|e: Entity| e.position is None)
}

/// The entities that survive a level change (the player and whatever has no
/// position), each with its field of view marked for recomputation.
pub open spec fn advanced(s: Seq<Entity>) -> Seq<Entity> {
    s.filter(|e: Entity| e.position is None || e.kind is Player).map_values(|e: Entity| with_dirty_fov(e))
}

/// What a level transition leaves: `advanced` on a level change,
/// `despawned_all` on a game reset.
pub open spec fn swept(s: Seq<Entity>, advancing: bool) -> Seq<Entity> {
    if advancing {
        advanced(s)
    } else {
        despawned_all(s)
    }
}

/// The number of entities of `s` that carry the player marker.
pub open spec fn player_count(s: Seq<Entity>) -> nat
    decreases s.len(),
{
    if s.len() == 0 {
        0
    } else {
        player_count(s.drop_last()) + if s.last().kind is Player { 1nat } else { 0nat }
    }
}

proof fn lemma_filter_step(s: Seq<Entity>, k: int, pred: spec_fn(Entity) -> bool)
    requires
        0 <= k < s.len(),
    ensures
        s.subrange(0, k + 1).filter(pred) == (if pred(s[k]) {
            s.subrange(0, k).filter(pred).push(s[k])
        } else {
            s.subrange(0, k).filter(pred)
        }),
{
    reveal(Seq::filter);
    assert(s.subrange(0, k + 1).drop_last() =~= s.subrange(0, k));
}

proof fn lemma_advanced_push(s: Seq<Entity>)
    requires
        s.len() > 0,
    ensures
        advanced(s) == (if s.last().position is None || s.last().kind is Player {
            advanced(s.drop_last()).push(with_dirty_fov(s.last()))
        } else {
            advanced(s.drop_last())
        }),
{
    reveal(Seq::filter);
    let pred = |e: Entity| e.position is None || e.kind is Player;
    let f = |e: Entity| with_dirty_fov(e);
    let a = s.drop_last().filter(pred);
    assert(a.push(s.last()).map_values(f) =~= a.map_values(f).push(f(s.last())));
}

pub proof fn lemma_player_count_push(s: Seq<Entity>, e: Entity)
    ensures
        player_count(s.push(e)) == player_count(s) + if e.kind is Player { 1nat } else { 0nat },
{
    assert(s.push(e).drop_last() =~= s);
}

/// A level change keeps every player, so the number of players stays the
/// same.
pub proof fn lemma_advance_keeps_player_count(s: Seq<Entity>)
    ensures
        player_count(advanced(s)) == player_count(s),
    decreases s.len(),
{
    if s.len() > 0 {
        lemma_advance_keeps_player_count(s.drop_last());
        lemma_advanced_push(s);
        if s.last().position is None || s.last().kind is Player {
            lemma_player_count_push(advanced(s.drop_last()), with_dirty_fov(s.last()));
        }
    }
}

/// After a game reset no entity with a position is left.
pub proof fn lemma_despawn_all_leaves_no_position(s: Seq<Entity>)
    ensures
        forall|i: int| 0 <= i < despawned_all(s).len() ==> (#[trigger] despawned_all(s)[i]).position is None,
{
    broadcast use Seq::lemma_filter_pred;
}

proof fn lemma_filter_keeps_all(s: Seq<Entity>, pred: spec_fn(Entity) -> bool)
    requires
        forall|i: int| 0 <= i < s.len() ==> pred(#[trigger] s[i]),
    ensures
        s.filter(pred) == s,
    decreases s.len(),
{
    reveal(Seq::filter);
    if s.len() > 0 {
        lemma_filter_keeps_all(s.drop_last(), pred);
        assert(s.drop_last().push(s.last()) =~= s);
    }
}

/// Resetting a game that has just been reset changes nothing, and still
/// leaves no positioned entity.
pub proof fn lemma_despawn_all_idempotent(s: Seq<Entity>)
    ensures
        despawned_all(despawned_all(s)) == despawned_all(s),
        forall|i: int|
            0 <= i < despawned_all(despawned_all(s)).len() ==> (#[trigger] despawned_all(
                despawned_all(s),
            )[i]).position is None,
{
    lemma_despawn_all_leaves_no_position(s);
    lemma_filter_keeps_all(despawned_all(s), |e: Entity| e.position is None);
}

/// After a level change the only positioned entity kind left is the player,
/// every field of view left is marked for recomputation, and every player of
/// before is still there with its identifier, kind and position.
pub proof fn lemma_advance_level_outcome(s: Seq<Entity>)
    ensures
        forall|i: int|
            0 <= i < advanced(s).len() && (#[trigger] advanced(s)[i]).position is Some
                ==> advanced(s)[i].kind is Player,
        forall|i: int|
            0 <= i < advanced(s).len() && (#[trigger] advanced(s)[i]).fov is Some
                ==> advanced(s)[i].fov.unwrap().is_dirty,
        forall|j: int|
            0 <= j < s.len() && (#[trigger] s[j]).kind is Player ==> exists|i: int|
                0 <= i < advanced(s).len() && (#[trigger] advanced(s)[i]).id == s[j].id
                    && advanced(s)[i].kind == s[j].kind && advanced(s)[i].position == s[j].position,
{
    broadcast use Seq::lemma_filter_pred, Seq::lemma_filter_contains;
    let pred = |e: Entity| e.position is None || e.kind is Player;
    let kept = s.filter(pred);
    assert forall|j: int| 0 <= j < s.len() && (#[trigger] s[j]).kind is Player implies exists|i: int|
        0 <= i < advanced(s).len() && (#[trigger] advanced(s)[i]).id == s[j].id
            && advanced(s)[i].kind == s[j].kind && advanced(s)[i].position == s[j].position by {
        assert(pred(s[j]));
        assert(kept.contains(s[j]));
        let i = choose|i: int| 0 <= i < kept.len() && kept[i] == s[j];
        assert(advanced(s)[i] == with_dirty_fov(kept[i]));
    }
}

/// The store of all entities of a game, each with an identifier that is
/// never handed out twice.
pub struct World {
    entities: Vec<Entity>,
    next_id: EntityId,
}

impl View for World {
    type V = Seq<Entity>;

    closed spec fn view(&self) -> Seq<Entity> {
        self.entities@
    }
}

impl World {
    /// The identifier that the next spawned entity receives.
    pub closed spec fn next_id(&self) -> EntityId {
        self.next_id
    }

    /// Identifiers increase along the store and stay below `next_id`.
    pub closed spec fn wf(&self) -> bool {
        &&& forall|i: int, j: int|
            0 <= i < j < self.entities@.len() ==> self.entities@[i].id < self.entities@[j].id
        &&& forall|i: int| 0 <= i < self.entities@.len() ==> self.entities@[i].id < self.next_id
    }

    pub fn new() -> (w: World)
        ensures
            w.wf(),
            w@ == Seq::<Entity>::empty(),
            w.next_id() == 0,
    {
        World { entities: Vec::new(), next_id: 0 }
    }

    /// Adds `e` under a fresh identifier, which is returned; the `id` that
    /// `e` carries is replaced.
    pub fn spawn(&mut self, e: Entity) -> (id: EntityId)
        requires
            old(self).wf(),
            old(self).next_id() < u64::MAX,
        ensures
            final(self).wf(),
            id == old(self).next_id(),
            final(self).next_id() == id + 1,
            final(self)@ == old(self)@.push(Entity { id, ..e }),
    {
        let id = self.next_id;
        let mut e = e;
        e.id = id;
        self.entities.push(e);
        self.next_id = id + 1;
        id
    }

    /// Removes the entities that `swept` drops, in one pass that keeps the
    /// order of the rest.
    pub(crate) fn sweep(&mut self, advancing: bool)
        requires
            old(self).wf(),
        ensures
            final(self).wf(),
            final(self).next_id() == old(self).next_id(),
            final(self)@ == swept(old(self)@, advancing),
    {
        let mut taken: Vec<Entity> = Vec::new();
        std::mem::swap(&mut self.entities, &mut taken);
        let ghost orig = taken@;
        let ghost bound = self.next_id;
        let ghost mut k: int = 0;
        let mut kept: Vec<Entity> = Vec::new();
        assert(orig.subrange(0, 0).filter(|e: Entity| e.position is None || e.kind is Player)
            =~= Seq::<Entity>::empty()) by {
            reveal(Seq::filter);
        }
        assert(orig.subrange(0, 0).filter(|e: Entity| e.position is None) =~= Seq::<Entity>::empty()) by {
            reveal(Seq::filter);
        }
        assert(advanced(orig.subrange(0, 0)) =~= Seq::<Entity>::empty());
        assert(taken@ =~= orig.subrange(0, orig.len() as int));
        while taken.len() > 0
            invariant
                0 <= k <= orig.len(),
                self.next_id == bound,
                taken@ == orig.subrange(k, orig.len() as int),
                kept@ == swept(orig.subrange(0, k), advancing),
                forall|i: int, j: int| 0 <= i < j < orig.len() ==> orig[i].id < orig[j].id,
                forall|i: int| 0 <= i < orig.len() ==> orig[i].id < bound,
                forall|i: int, j: int| 0 <= i < j < kept@.len() ==> kept@[i].id < kept@[j].id,
                forall|i: int| 0 <= i < kept@.len() ==> kept@[i].id < bound,
                forall|i: int, j: int|
                    0 <= i < kept@.len() && 0 <= j < taken@.len() ==> kept@[i].id < taken@[j].id,
            decreases taken.len(),
        {
            let mut e = taken.remove(0);
            assert(e == orig[k]);
            proof {
                lemma_filter_step(orig, k, |e: Entity| e.position is None || e.kind is Player);
                lemma_filter_step(orig, k, |e: Entity| e.position is None);
            }
            let ghost prev = kept@;
            let retained = match e.position {
                None => true,
                Some(_) => advancing && match e.kind {
                    EntityKind::Player { .. } => true,
                    _ => false,
                },
            };
            if retained {
                if advancing {
                    e.fov = match e.fov {
                        Some(f) => Some(FieldOfView { radius: f.radius, is_dirty: true }),
                        None => None,
                    };
                }
                kept.push(e);
                proof {
                    let pred = |e: Entity| e.position is None || e.kind is Player;
                    let f = |e: Entity| with_dirty_fov(e);
                    let a = orig.subrange(0, k).filter(pred);
                    assert(a.push(orig[k]).map_values(f) =~= a.map_values(f).push(f(orig[k])));
                }
            }
            proof {
                k = k + 1;
            }
            assert(taken@ =~= orig.subrange(k, orig.len() as int));
        }
        assert(orig.subrange(0, k) =~= orig);
        self.entities = kept;
    }

    /// The identifier that the next spawned entity receives.
    pub fn next_entity_id(&self) -> (r: EntityId)
        ensures
            r == self.next_id(),
    {
        self.next_id
    }

    pub fn entities(&self) -> (r: &Vec<Entity>)
        ensures
            r@ == self@,
    {
        &self.entities
    }

    pub fn len(&self) -> (r: usize)
        ensures
            r == self@.len(),
    {
        self.entities.len()
    }
}

} // verus!
