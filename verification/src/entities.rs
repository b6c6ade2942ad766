use vstd::prelude::*;
use std::collections::HashMap;
use crate::map::{xy_to_i, DogIndex, GameMap, MapView};
use crate::tile::TileKind;
use crate::xy::{X, Y};

verus! {

/// Switches for looking up what a cell holds.
pub type TileFlags = u8;

/// Look through the roster: see what lies under whoever stands on the cell.
pub const NO_MOBS: TileFlags = 0x01;

/// How many the roster holds: the player, six others by name, and the dogs.
pub const MOB_COUNT: usize = 29;

/// Where each of the roster stands in `EntitiesView::mobs`.
pub const PLAYER: usize = 0;
pub const TURTLE: usize = 1;
pub const CRAB: usize = 2;
pub const PHANTOM: usize = 3;
pub const LARGE_POT: usize = 4;
pub const PANOPTIKHAN: usize = 5;
pub const ZOMBIE: usize = 6;
/// The first dog; the others follow it.
pub const FIRST_DOG: usize = 7;

/// Something that occupies a cell.
#[derive(Clone, Copy, Debug)]
pub struct Entity {
    pub kind: TileKind,
    pub x: X,
    pub y: Y,
}

/// An `Entity` as the contracts see it.
pub struct EntityView {
    pub kind: TileKind,
    pub x: int,
    pub y: int,
}

impl EntityView {
    /// Whether it occupies the cell `(x, y)`.
    pub open spec fn at(self, x: int, y: int) -> bool {
        self.x == x && self.y == y
    }

    /// The same thing in the cell `(x, y)`.
    pub open spec fn moved_to(self, x: int, y: int) -> EntityView {
        EntityView { kind: self.kind, x, y }
    }
}

impl View for Entity {
    type V = EntityView;

    open spec fn view(&self) -> EntityView {
        EntityView { kind: self.kind, x: self.x@, y: self.y@ }
    }
}

impl Default for Entity {
    fn default() -> (r: Entity)
        ensures
            r@ == (EntityView { kind: 0, x: 0, y: 0 }),
    {
        Entity { kind: 0, x: X::zero(), y: Y::zero() }
    }
}

/// A tile to draw, at a place on the screen.
#[derive(Clone, Copy, Debug)]
pub struct Tile {
    pub kind: TileKind,
    pub x: X,
    pub y: Y,
}

/// A `Tile` as the contracts see it.
pub struct TileView {
    pub kind: TileKind,
    pub x: int,
    pub y: int,
}

impl View for Tile {
    type V = TileView;

    open spec fn view(&self) -> TileView {
        TileView { kind: self.kind, x: self.x@, y: self.y@ }
    }
}

impl Default for Tile {
    fn default() -> (r: Tile)
        ensures
            r@ == (TileView { kind: 0, x: 0, y: 0 }),
    {
        Tile { kind: 0, x: X::zero(), y: Y::zero() }
    }
}

/// Everything that occupies cells: the overlay of placed tiles, by the index of their cell, and
/// the roster, each in a slot of its own.
pub struct Entities {
    pub dynamic: HashMap<usize, Entity>,
    pub player: Entity,
    pub turtle: Entity,
    pub crab: Entity,
    pub phantom: Entity,
    pub large_pot: Entity,
    pub panoptikhan: Entity,
    pub zombie: Entity,
    pub dogs: [Entity; 22],
}

/// `Entities` as the contracts see them.
pub struct EntitiesView {
    /// The overlay, by the index of the cell.
    pub dynamic: Map<usize, EntityView>,
    /// The roster, in the order in which a cell is searched for its occupant.
    pub mobs: Seq<EntityView>,
}

impl View for Entities {
    type V = EntitiesView;

    open spec fn view(&self) -> EntitiesView {
        EntitiesView {
            dynamic: self.dynamic@.map_values(|e: Entity| e@),
            mobs: seq![
                self.player@,
                self.turtle@,
                self.crab@,
                self.phantom@,
                self.large_pot@,
                self.panoptikhan@,
                self.zombie@,
            ] + Seq::new(22, |i: int| self.dogs[i]@),
        }
    }
}

/// The first of `mobs` from index `from` on that occupies `(x, y)`.
pub open spec fn first_from(mobs: Seq<EntityView>, x: int, y: int, from: int) -> Option<int>
    decreases mobs.len() - from,
{
    if from < 0 || from >= mobs.len() {
        None
    } else if mobs[from].at(x, y) {
        Some(from)
    } else {
        first_from(mobs, x, y, from + 1)
    }
}

impl EntitiesView {
    /// Whether the roster is complete.
    pub open spec fn valid(self) -> bool {
        self.mobs.len() == MOB_COUNT
    }

    /// The first of the roster that occupies `(x, y)`.
    pub open spec fn first_mob_at(self, x: int, y: int) -> Option<int> {
        first_from(self.mobs, x, y, 0)
    }

    /// What the cell `(x, y)` holds: one of the roster that occupies it, unless `flags` say to
    /// look through them; else what the overlay has for the cell; else the map's tile; and
    /// nothing where the map has no tile.
    pub open spec fn effective_tile(self, map: MapView, x: int, y: int, flags: TileFlags) -> Option<
        TileKind,
    > {
        let index = map.index_of(x, y);
        if flags & NO_MOBS == 0 && self.first_mob_at(x, y) is Some {
            Some(self.mobs[self.first_mob_at(x, y)->0].kind)
        } else if self.dynamic.dom().contains(index as usize) {
            Some(self.dynamic[index as usize].kind)
        } else if 0 <= index < map.tiles.len() {
            Some(map.tiles[index])
        } else {
            None
        }
    }

    /// The overlay with `entity` put at the index of its cell.
    pub open spec fn with_entity(self, map: MapView, entity: EntityView) -> EntitiesView {
        EntitiesView {
            dynamic: self.dynamic.insert(map.index_of(entity.x, entity.y) as usize, entity),
            mobs: self.mobs,
        }
    }

    /// The overlay without an entry for the cell `(x, y)`.
    pub open spec fn without_entity(self, map: MapView, x: int, y: int) -> EntitiesView {
        EntitiesView { dynamic: self.dynamic.remove(map.index_of(x, y) as usize), mobs: self.mobs }
    }

    /// The occupant of `(old_x, old_y)` moved to `(new_x, new_y)`: the first of the roster there,
    /// else the overlay's entry for that cell, which keeps its index; nothing changes where there
    /// is neither.
    pub open spec fn with_occupant_moved(
        self,
        map: MapView,
        old_x: int,
        old_y: int,
        new_x: int,
        new_y: int,
    ) -> EntitiesView {
        let index = map.index_of(old_x, old_y) as usize;
        match self.first_mob_at(old_x, old_y) {
            Some(i) => EntitiesView {
                dynamic: self.dynamic,
                mobs: self.mobs.update(i, self.mobs[i].moved_to(new_x, new_y)),
            },
            None => if self.dynamic.dom().contains(index) {
                EntitiesView {
                    dynamic: self.dynamic.insert(index, self.dynamic[index].moved_to(new_x, new_y)),
                    mobs: self.mobs,
                }
            } else {
                self
            },
        }
    }
}

/// `first_from` finds the first occupant: none before it occupies the cell, and nothing is found
/// only where none does.
pub proof fn lemma_first_from(mobs: Seq<EntityView>, x: int, y: int, from: int)
    requires
        0 <= from,
    ensures
        match first_from(mobs, x, y, from) {
            Some(i) => from <= i < mobs.len() && mobs[i].at(x, y) && forall|j: int|
                from <= j < i ==> !(#[trigger] mobs[j]).at(x, y),
            None => forall|j: int| from <= j < mobs.len() ==> !(#[trigger] mobs[j]).at(x, y),
        },
    decreases mobs.len() - from,
{
    if from < mobs.len() && !mobs[from].at(x, y) {
        lemma_first_from(mobs, x, y, from + 1);
    }
}

/// Whoever occupies a cell with none of the roster before it on that cell is the one found.
pub proof fn lemma_first_is_found(mobs: Seq<EntityView>, x: int, y: int, from: int, i: int)
    requires
        0 <= from <= i < mobs.len(),
        mobs[i].at(x, y),
        forall|j: int| from <= j < i ==> !(#[trigger] mobs[j]).at(x, y),
    ensures
        first_from(mobs, x, y, from) == Some(i),
    decreases i - from,
{
    if from < i {
        lemma_first_is_found(mobs, x, y, from + 1, i);
    }
}

impl Default for Entities {
    fn default() -> (r: Entities)
        ensures
            r@.dynamic == Map::<usize, EntityView>::empty(),
            r@.mobs == Seq::new(MOB_COUNT as nat, |i: int| EntityView { kind: 0, x: 0, y: 0 }),
    {
        let blank = Entity::default();
        let r = Entities {
            dynamic: HashMap::new(),
            player: blank,
            turtle: blank,
            crab: blank,
            phantom: blank,
            large_pot: blank,
            panoptikhan: blank,
            zombie: blank,
            dogs: [blank; 22],
        };
        assert(r@.dynamic =~= Map::<usize, EntityView>::empty());
        assert(r@.mobs =~= Seq::new(MOB_COUNT as nat, |i: int| EntityView { kind: 0, x: 0, y: 0 }));
        r
    }
}

impl Entities {
    /// The dog of that number, if there is one.
    pub fn get_dog(&self, index: DogIndex) -> (r: Option<&Entity>)
        ensures
            r is Some == (index < 22),
            r matches Some(dog) ==> dog@ == self@.mobs[FIRST_DOG + index],
    {
        if index < 22 {
            Some(&self.dogs[index as usize])
        } else {
            None
        }
    }

    /// Which of the roster is the first to occupy `(x, y)`.
    pub fn find_mob(&self, x: X, y: Y) -> (r: Option<usize>)
        ensures
            r is Some == self@.first_mob_at(x@, y@) is Some,
            r matches Some(i) ==> self@.first_mob_at(x@, y@) == Some(i as int),
    {
        proof {
            reveal_with_fuel(first_from, 8);
        }
        if self.player.x == x && self.player.y == y {
            return Some(PLAYER);
        }
        if self.turtle.x == x && self.turtle.y == y {
            return Some(TURTLE);
        }
        if self.crab.x == x && self.crab.y == y {
            return Some(CRAB);
        }
        if self.phantom.x == x && self.phantom.y == y {
            return Some(PHANTOM);
        }
        if self.large_pot.x == x && self.large_pot.y == y {
            return Some(LARGE_POT);
        }
        if self.panoptikhan.x == x && self.panoptikhan.y == y {
            return Some(PANOPTIKHAN);
        }
        if self.zombie.x == x && self.zombie.y == y {
            return Some(ZOMBIE);
        }
        let mut i: usize = 0;
        while i < 22
            invariant
                i <= 22,
                first_from(self@.mobs, x@, y@, 7 + i) == self@.first_mob_at(x@, y@),
            decreases 22 - i,
        {
            assert(self@.mobs[7 + i] == self.dogs[i as int]@);
            if self.dogs[i].x == x && self.dogs[i].y == y {
                return Some(FIRST_DOG + i);
            }
            i += 1;
        }
        None
    }

    /// The one of the roster at `slot`.
    pub fn mob(&self, slot: usize) -> (r: Entity)
        requires
            slot < MOB_COUNT,
        ensures
            r@ == self@.mobs[slot as int],
    {
        if slot == PLAYER {
            self.player
        } else if slot == TURTLE {
            self.turtle
        } else if slot == CRAB {
            self.crab
        } else if slot == PHANTOM {
            self.phantom
        } else if slot == LARGE_POT {
            self.large_pot
        } else if slot == PANOPTIKHAN {
            self.panoptikhan
        } else if slot == ZOMBIE {
            self.zombie
        } else {
            self.dogs[slot - FIRST_DOG]
        }
    }

    /// Puts the one of the roster at `slot` in the cell `(x, y)`.
    pub fn place_mob(&mut self, slot: usize, x: X, y: Y)
        requires
            slot < MOB_COUNT,
        ensures
            final(self)@.dynamic == old(self)@.dynamic,
            final(self)@.mobs == old(self)@.mobs.update(
                slot as int,
                old(self)@.mobs[slot as int].moved_to(x@, y@),
            ),
    {
        if slot == PLAYER {
            self.player.x = x;
            self.player.y = y;
        } else if slot == TURTLE {
            self.turtle.x = x;
            self.turtle.y = y;
        } else if slot == CRAB {
            self.crab.x = x;
            self.crab.y = y;
        } else if slot == PHANTOM {
            self.phantom.x = x;
            self.phantom.y = y;
        } else if slot == LARGE_POT {
            self.large_pot.x = x;
            self.large_pot.y = y;
        } else if slot == PANOPTIKHAN {
            self.panoptikhan.x = x;
            self.panoptikhan.y = y;
        } else if slot == ZOMBIE {
            self.zombie.x = x;
            self.zombie.y = y;
        } else {
            self.dogs[slot - FIRST_DOG].x = x;
            self.dogs[slot - FIRST_DOG].y = y;
        }
        assert(self@.mobs =~= old(self)@.mobs.update(
            slot as int,
            old(self)@.mobs[slot as int].moved_to(x@, y@),
        ));
    }

    /// Puts `entity` in the overlay, at the index of its cell; what was there is replaced.
    pub fn put(&mut self, map: &GameMap, entity: Entity)
        ensures
            final(self)@ == old(self)@.with_entity(map@, entity@),
    {
        broadcast use vstd::std_specs::hash::group_hash_axioms;

        let index: usize = xy_to_i(map, entity.x, entity.y);
        self.dynamic.insert(index, entity);
        assert(self@.dynamic =~= old(self)@.dynamic.insert(index, entity@));
    }

    /// Takes the entry for the cell `(x, y)` out of the overlay.
    pub fn take(&mut self, map: &GameMap, x: X, y: Y) -> (r: Option<Entity>)
        ensures
            final(self)@ == old(self)@.without_entity(map@, x@, y@),
            match r {
                Some(entity) => old(self)@.dynamic.dom().contains(map@.index_of(x@, y@) as usize)
                    && entity@ == old(self)@.dynamic[map@.index_of(x@, y@) as usize],
                None => !old(self)@.dynamic.dom().contains(map@.index_of(x@, y@) as usize),
            },
    {
        broadcast use vstd::std_specs::hash::group_hash_axioms;

        let index: usize = xy_to_i(map, x, y);
        let taken = self.dynamic.remove(&index);
        assert(self@.dynamic =~= old(self)@.dynamic.remove(index));
        taken
    }

    /// Moves the occupant of `(old_x, old_y)` to `(new_x, new_y)`, and says whether there was one.
    pub fn move_occupant(&mut self, map: &GameMap, old_x: X, old_y: Y, new_x: X, new_y: Y) -> (r:
        bool)
        ensures
            final(self)@ == old(self)@.with_occupant_moved(map@, old_x@, old_y@, new_x@, new_y@),
            r == (old(self)@.first_mob_at(old_x@, old_y@) is Some || old(self)@.dynamic.dom().contains(
                map@.index_of(old_x@, old_y@) as usize,
            )),
    {
        broadcast use vstd::std_specs::hash::group_hash_axioms;

        match self.find_mob(old_x, old_y) {
            Some(slot) => {
                proof {
                    lemma_first_from(self@.mobs, old_x@, old_y@, 0);
                }
                self.place_mob(slot, new_x, new_y);
                assert(self@.dynamic =~= old(self)@.dynamic);
                true
            },
            None => {
                let index: usize = xy_to_i(map, old_x, old_y);
                let found: Option<Entity> = match self.dynamic.get(&index) {
                    Some(entity) => Some(*entity),
                    None => None,
                };
                match found {
                    Some(entity) => {
                        let moved = Entity { kind: entity.kind, x: new_x, y: new_y };
                        self.dynamic.insert(index, moved);
                        assert(self@.dynamic =~= old(self)@.dynamic.insert(
                            index,
                            old(self)@.dynamic[index].moved_to(new_x@, new_y@),
                        ));
                        true
                    },
                    None => false,
                }
            },
        }
    }
}

/// What the cell `(x, y)` holds, with the roster in sight.
pub fn get_effective_tile(map: &GameMap, entities: &Entities, x: X, y: Y) -> (r: Option<TileKind>)
    ensures
        r == entities@.effective_tile(map@, x@, y@, 0),
{
    get_effective_tile_custom(map, entities, x, y, 0)
}

/// What the cell `(x, y)` holds.
pub fn get_effective_tile_custom(
    map: &GameMap,
    entities: &Entities,
    x: X,
    y: Y,
    flags: TileFlags,
) -> (r: Option<TileKind>)
    ensures
        r == entities@.effective_tile(map@, x@, y@, flags),
{
    broadcast use vstd::std_specs::hash::group_hash_axioms;

    if flags & NO_MOBS == 0 {
        match entities.find_mob(x, y) {
            Some(slot) => {
                proof {
                    lemma_first_from(entities@.mobs, x@, y@, 0);
                }
                return Some(entities.mob(slot).kind);
            },
            None => {},
        }
    }
    let index: usize = xy_to_i(map, x, y);
    match entities.dynamic.get(&index) {
        Some(entity) => Some(entity.kind),
        None => {
            let data = map.data();
            if index < data.tiles.len() {
                Some(data.tiles[index])
            } else {
                None
            }
        },
    }
}

} // verus!
