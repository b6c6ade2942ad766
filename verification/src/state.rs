use vstd::prelude::*;
use crate::entities::{get_effective_tile, Entities, EntitiesView, Entity, EntityView, TileFlags};
use crate::lock::{ButtonIndex, LockView, Outcome, PasswordLock};
use crate::map::{GameMap, Label, MapView, DOG_SLOTS};
use crate::platform::SFX;
use crate::rng::{
    drawn_seed, from_seed, lemma_stepped_by_more, new_seed, range, ranged, seeded, shuffled,
    shuffled_from, stepped, stepped_by, Seed, Xs,
};
use crate::tile::{
    dog_kind, dog_kind_of, TileKind, BUTTON_DARK, CRAB, DOG_KIND_COUNT, GHOST_1, KEY, LARGE_POT,
    PANOPTIKHAN, PERSON_5, TURTLE, ZOMBIE,
};
use crate::xy::{X, Y};

verus! {

/// What the game shows.
#[derive(Clone, Copy, Debug, PartialEq, Eq, Structural)]
pub enum Screen {
    Gameplay,
    Congraturation,
}

impl Default for Screen {
    fn default() -> (r: Screen)
        ensures
            r == Screen::Gameplay,
    {
        Screen::Gameplay
    }
}

/// Which part of the ramble.
pub type RambleIndex = u8;

/// How many parts the ramble has.
pub const RAMBLE_COUNT: RambleIndex = 10;

/// The message on show, if any.
#[derive(Clone, Copy, Debug, PartialEq, Eq, Structural)]
pub enum MessageInfo {
    NoMessage,
    PasswordReveal { index: ButtonIndex },
    PasswordRevealRefused,
    ForgotPassword,
    Ramble(RambleIndex),
    GhostOoo,
}

impl Default for MessageInfo {
    fn default() -> (r: MessageInfo)
        ensures
            r == MessageInfo::NoMessage,
    {
        MessageInfo::NoMessage
    }
}

/// Counts the frames; 65536 distinct frames ought to be enough for anybody.
pub type FrameCount = u16;

/// What a dog is about.
#[derive(Clone, Copy, Debug)]
pub enum DogState {
    /// About to sniff; keeps the sniffing sign from flickering.
    PreSniffing,
    Sniffing,
    MovingTowards(X, Y),
}

/// A `DogState` as the contracts see it.
pub enum DogStateView {
    PreSniffing,
    Sniffing,
    MovingTowards(int, int),
}

impl View for DogState {
    type V = DogStateView;

    open spec fn view(&self) -> DogStateView {
        match self {
            DogState::PreSniffing => DogStateView::PreSniffing,
            DogState::Sniffing => DogStateView::Sniffing,
            DogState::MovingTowards(x, y) => DogStateView::MovingTowards(x@, y@),
        }
    }
}

impl Default for DogState {
    fn default() -> (r: DogState)
        ensures
            r@ == DogStateView::PreSniffing,
    {
        DogState::PreSniffing
    }
}

/// A line of raw text for the head-up display, and where it goes on the screen.
#[derive(Clone, Copy, Debug)]
pub struct Print {
    pub text: [u8; 16],
    pub x: u16,
    pub y: u16,
}

/// A `Print` as the contracts see it.
pub struct PrintView {
    pub text: Seq<u8>,
    pub x: u16,
    pub y: u16,
}

impl View for Print {
    type V = PrintView;

    open spec fn view(&self) -> PrintView {
        PrintView { text: self.text@, x: self.x, y: self.y }
    }
}

impl Default for Print {
    fn default() -> (r: Print)
        ensures
            r@ == (PrintView { text: Seq::new(16, |i: int| 0u8), x: 0, y: 0 }),
    {
        let r = Print { text: [0; 16], x: 0, y: 0 };
        assert(r@.text =~= Seq::new(16, |i: int| 0u8));
        r
    }
}

/// The whole world of one game.
pub struct State<'a> {
    pub frame_count: FrameCount,
    pub rng: Xs,
    pub map: &'a GameMap,
    pub screen: Screen,
    pub entities: Entities,
    pub password_lock: PasswordLock<4>,
    pub message_info: MessageInfo,
    pub previous_password_reveal_index: Option<usize>,
    pub hud_prints: [Print; 1],
    pub invert_panoptikhan_moves: bool,
    pub invert_zombie_moves: bool,
    pub dog_states: [DogState; 22],
    pub dog_tile_kinds: DogTileKinds,
}

/// The tile kind that each dog is drawn with.
pub type DogTileKinds = [TileKind; 22];

/// A `State` as the contracts see it.
pub struct StateView {
    pub frame_count: FrameCount,
    pub rng: Xs,
    pub map: MapView,
    pub screen: Screen,
    pub entities: EntitiesView,
    pub lock: LockView,
    pub message_info: MessageInfo,
    pub previous_password_reveal_index: Option<usize>,
    pub hud: PrintView,
    pub invert_panoptikhan_moves: bool,
    pub invert_zombie_moves: bool,
    pub dog_states: Seq<DogStateView>,
    pub dog_tile_kinds: Seq<TileKind>,
}

impl<'a> View for State<'a> {
    type V = StateView;

    open spec fn view(&self) -> StateView {
        StateView {
            frame_count: self.frame_count,
            rng: self.rng,
            map: self.map@,
            screen: self.screen,
            entities: self.entities@,
            lock: self.password_lock@,
            message_info: self.message_info,
            previous_password_reveal_index: self.previous_password_reveal_index,
            hud: self.hud_prints[0]@,
            invert_panoptikhan_moves: self.invert_panoptikhan_moves,
            invert_zombie_moves: self.invert_zombie_moves,
            dog_states: Seq::new(22, |i: int| self.dog_states[i]@),
            dog_tile_kinds: self.dog_tile_kinds@,
        }
    }
}

/// The entity of kind `kind` in the cell `cell`.
pub open spec fn entity_at(kind: TileKind, cell: (int, int)) -> EntityView {
    EntityView { kind, x: cell.0, y: cell.1 }
}

/// The roster as a world begins with it: each in the cell that the map names for it, the
/// dogs drawn with `dog_tile_kinds`.
pub open spec fn roster_of(map: MapView, dog_tile_kinds: Seq<TileKind>) -> Seq<EntityView> {
    seq![
        entity_at(PERSON_5, map.player_cell),
        entity_at(TURTLE, map.turtle_cell),
        entity_at(CRAB, map.crab_cell),
        entity_at(GHOST_1, map.ghost_cell),
        entity_at(LARGE_POT, map.large_pot_cell),
        entity_at(PANOPTIKHAN, map.panoptikhan_cell),
        entity_at(ZOMBIE, map.zombie_cell),
    ] + Seq::new(22, |i: int| entity_at(dog_tile_kinds[i], map.dogs[i]))
}

/// The lock as the contracts see it, of buttons given by their cells' coordinates.
pub open spec fn lock_view_of(buttons: Seq<(int, int, Label)>) -> LockView {
    LockView {
        xs: Seq::new(buttons.len(), |i: int| buttons[i].0),
        ys: Seq::new(buttons.len(), |i: int| buttons[i].1),
        names: Seq::new(buttons.len(), |i: int| buttons[i].2),
        open: Seq::new(buttons.len(), |i: int| false),
        press_count: 0,
    }
}

/// The world as it begins on `map` with the generator `rng`: frame 0, the roster in its cells,
/// an empty overlay, no message, and a lock of the map's buttons in the order that draws from
/// `rng` shuffle them into. The world's generator is `rng` itself, as it was before those draws.
pub open spec fn fresh(map: MapView, rng: Xs, dog_tile_kinds: Seq<TileKind>) -> StateView {
    StateView {
        frame_count: 0,
        rng,
        map,
        screen: Screen::Gameplay,
        entities: EntitiesView {
            dynamic: Map::empty(),
            mobs: roster_of(map, dog_tile_kinds),
        },
        lock: lock_view_of(shuffled(rng, map.buttons).1),
        message_info: MessageInfo::NoMessage,
        previous_password_reveal_index: None,
        hud: PrintView { text: Seq::new(16, |i: int| 0u8), x: 0, y: 0 },
        invert_panoptikhan_moves: false,
        invert_zombie_moves: false,
        dog_states: Seq::new(22, |i: int| DogStateView::PreSniffing),
        dog_tile_kinds,
    }
}

/// The tile kinds drawn for the dogs, one draw from `rng` each.
pub open spec fn drawn_dog_kinds(rng: Xs) -> Seq<TileKind> {
    Seq::new(22, |i: int| dog_kind_of(ranged(stepped_by(rng, i as nat), 0, DOG_KIND_COUNT)))
}

impl StateView {
    /// What holds of every world: its map is one, the roster is complete, the lock has the
    /// map's number of buttons, and every dog has a state and a tile kind.
    pub open spec fn valid(self) -> bool {
        &&& self.map.valid()
        &&& self.entities.valid()
        &&& self.lock.valid(4)
        &&& self.dog_states.len() == DOG_SLOTS
        &&& self.dog_tile_kinds.len() == DOG_SLOTS
        &&& self.hud.text.len() == 16
    }

    /// The world with `entity` put into the overlay.
    pub open spec fn with_entity(self, entity: EntityView) -> StateView {
        StateView { entities: self.entities.with_entity(self.map, entity), ..self }
    }

    /// The world without an overlay entry for the cell `(x, y)`.
    pub open spec fn without_entity(self, x: int, y: int) -> StateView {
        StateView { entities: self.entities.without_entity(self.map, x, y), ..self }
    }

    /// What the cell `(x, y)` holds.
    pub open spec fn effective_tile(self, x: int, y: int, flags: TileFlags) -> Option<TileKind> {
        self.entities.effective_tile(self.map, x, y, flags)
    }

    /// The entities without overlay entries for the cells of the first `upto` buttons.
    pub open spec fn without_buttons(self, entities: EntitiesView, upto: int) -> EntitiesView
        decreases upto,
    {
        if upto <= 0 {
            entities
        } else {
            self.without_buttons(entities, upto - 1).without_entity(
                self.map,
                self.lock.xs[upto - 1],
                self.lock.ys[upto - 1],
            )
        }
    }

    /// The world after something has stepped on the lit button in the cell `(x, y)`. The first
    /// closed button of the lock there is pressed and shows dark from then on. If that opens the
    /// last button, the key appears in its cell. If it uses up the attempt, every button closes
    /// and all of them show lit again.
    pub open spec fn with_button_pressed(self, x: int, y: int) -> StateView {
        let darkened = if self.lock.closed_at(x, y, 0) is Some {
            self.entities.with_entity(self.map, entity_at(BUTTON_DARK, (x, y)))
        } else {
            self.entities
        };
        StateView {
            lock: self.lock.settled(x, y),
            entities: match self.lock.pressed(x, y).outcome() {
                Outcome::Unlocked => darkened.with_entity(self.map, entity_at(KEY, self.map.key)),
                Outcome::Failed => self.without_buttons(darkened, self.lock.len() as int),
                Outcome::Pending => darkened,
            },
            ..self
        }
    }

    /// The world built anew for another run through time: as it begins with a generator seeded
    /// by draws from this one's, but with this world's lock, its buttons where they are, all
    /// closed, no press counted.
    pub open spec fn rewound(self) -> StateView {
        StateView {
            lock: self.lock.cleared(),
            ..fresh(self.map, seeded(drawn_seed(self.rng)), self.dog_tile_kinds)
        }
    }
}

impl<'a> State<'a> {
    /// A world on `map`, made from `seed`.
    pub fn new(map: &'a GameMap, seed: Seed) -> (r: State<'a>)
        ensures
            r@ == fresh(
                map@,
                stepped_by(seeded(seed@), DOG_SLOTS as nat),
                drawn_dog_kinds(seeded(seed@)),
            ),
            r@.valid(),
    {
        let mut rng: Xs = from_seed(seed);
        let ghost start = rng;
        let mut dog_tile_kinds: DogTileKinds = [0; 22];
        let mut i: usize = 0;
        while i < 22
            invariant
                i <= 22,
                rng == stepped_by(start, i as nat),
                forall|k: int|
                    0 <= k < i ==> #[trigger] dog_tile_kinds@[k] == drawn_dog_kinds(start)[k],
            decreases 22 - i,
        {
            let choice: u32 = range(&mut rng, 0, DOG_KIND_COUNT);
            dog_tile_kinds[i] = dog_kind(choice);
            proof {
                lemma_stepped_by_more(start, i as nat);
            }
            i += 1;
        }
        assert(dog_tile_kinds@ =~= drawn_dog_kinds(start));
        State::new_inner(map, rng, dog_tile_kinds)
    }

    /// A world on `map` with the generator `rng`, its dogs drawn with `dog_tile_kinds`.
    pub fn new_inner(map: &'a GameMap, rng: Xs, dog_tile_kinds: DogTileKinds) -> (r: State<'a>)
        ensures
            r@ == fresh(map@, rng, dog_tile_kinds@),
            r@.valid(),
    {
        let data = map.data();
        let mut entities = Entities::default();
        entities.player = Entity { kind: PERSON_5, x: data.player_x, y: data.player_y };
        entities.turtle = Entity { kind: TURTLE, x: data.turtle_x, y: data.turtle_y };
        entities.crab = Entity { kind: CRAB, x: data.crab_x, y: data.crab_y };
        entities.phantom = Entity { kind: GHOST_1, x: data.ghost_x, y: data.ghost_y };
        entities.panoptikhan = Entity {
            kind: PANOPTIKHAN,
            x: data.panoptikhan_x,
            y: data.panoptikhan_y,
        };
        entities.large_pot = Entity { kind: LARGE_POT, x: data.large_pot_x, y: data.large_pot_y };
        entities.zombie = Entity { kind: ZOMBIE, x: data.zombie_x, y: data.zombie_y };
        let mut i: usize = 0;
        while i < 22
            invariant
                i <= 22,
                data@ == map@,
                entities@.dynamic == Map::<usize, EntityView>::empty(),
                entities.player@ == entity_at(PERSON_5, map@.player_cell),
                entities.turtle@ == entity_at(TURTLE, map@.turtle_cell),
                entities.crab@ == entity_at(CRAB, map@.crab_cell),
                entities.phantom@ == entity_at(GHOST_1, map@.ghost_cell),
                entities.large_pot@ == entity_at(LARGE_POT, map@.large_pot_cell),
                entities.panoptikhan@ == entity_at(PANOPTIKHAN, map@.panoptikhan_cell),
                entities.zombie@ == entity_at(ZOMBIE, map@.zombie_cell),
                forall|k: int|
                    0 <= k < i ==> (#[trigger] entities.dogs@[k])@ == entity_at(
                        dog_tile_kinds@[k],
                        map@.dogs[k],
                    ),
            decreases 22 - i,
        {
            entities.dogs[i] = Entity {
                kind: dog_tile_kinds[i],
                x: data.dogs[i].0,
                y: data.dogs[i].1,
            };
            assert(map@.dogs[i as int] == (data.dogs[i as int].0@, data.dogs[i as int].1@));
            i += 1;
        }
        let mut shuffling: Xs = rng;
        let password_lock = PasswordLock::new(data.buttons, &mut shuffling);
        let r = State {
            frame_count: 0,
            rng,
            map,
            screen: Screen::default(),
            entities,
            password_lock,
            message_info: MessageInfo::default(),
            previous_password_reveal_index: None,
            hud_prints: [Print::default()],
            invert_panoptikhan_moves: false,
            invert_zombie_moves: false,
            dog_states: [DogState::default(); 22],
            dog_tile_kinds,
        };
        proof {
            assert(r@.entities.mobs =~= roster_of(map@, dog_tile_kinds@));
            assert(r@.dog_states =~= fresh(map@, rng, dog_tile_kinds@).dog_states);
            lemma_shuffled_views(rng, data.buttons@, map@.buttons, 1);
            assert(r@.lock =~= fresh(map@, rng, dog_tile_kinds@).lock) by {
                let mixed = shuffled(rng, data.buttons@).1;
                let plain = shuffled(rng, map@.buttons).1;
                assert(r@.lock.xs =~= lock_view_of(plain).xs);
                assert(r@.lock.ys =~= lock_view_of(plain).ys);
                assert(r@.lock.names =~= lock_view_of(plain).names);
                assert(r@.lock.open =~= lock_view_of(plain).open);
            }
        }
        r
    }

    /// What may be taken for granted of every world.
    pub fn validity(&self)
        ensures
            self@.valid(),
    {
        let data = self.map.data();
        self.password_lock.validity();
    }

    /// Puts `entity` into the overlay, at the index of its cell.
    pub fn add_entity(&mut self, entity: Entity)
        ensures
            final(self)@ == old(self)@.with_entity(entity@),
    {
        self.entities.put(self.map, entity);
    }

    /// Takes the entry for the cell `(x, y)` out of the overlay.
    pub fn remove_entity(&mut self, x: X, y: Y) -> (r: Option<Entity>)
        ensures
            final(self)@ == old(self)@.without_entity(x@, y@),
            match r {
                Some(entity) => old(self)@.entities.dynamic.dom().contains(
                    old(self)@.map.index_of(x@, y@) as usize,
                ) && entity@ == old(self)@.entities.dynamic[old(self)@.map.index_of(x@, y@) as usize],
                None => !old(self)@.entities.dynamic.dom().contains(
                    old(self)@.map.index_of(x@, y@) as usize,
                ),
            },
    {
        self.entities.take(self.map, x, y)
    }

    /// What the cell `(x, y)` holds, with the roster in sight: the tile after anything that
    /// stands or was put there has replaced the map's.
    pub fn get_effective_tile(&self, x: X, y: Y) -> (r: Option<TileKind>)
        ensures
            r == self@.effective_tile(x@, y@, 0),
    {
        get_effective_tile(self.map, &self.entities, x, y)
    }

    /// Something has stepped on the lit button in the cell `(x, y)`.
    #[must_use]
    pub fn entity_on_button(&mut self, x: X, y: Y) -> (r: Option<SFX>)
        ensures
            final(self)@ == old(self)@.with_button_pressed(x@, y@),
            r == Some(SFX::ButtonPress),
    {
        self.password_lock.validity();
        let press = self.password_lock.press(x, y);
        assert(self@.lock.xs == old(self)@.lock.xs);
        assert(self@.lock.ys == old(self)@.lock.ys);
        assert(old(self)@.lock.len() == 4);
        if press.found {
            self.add_entity(Entity { kind: BUTTON_DARK, x, y });
        }
        let ghost darkened = self@.entities;
        match press.outcome {
            Outcome::Unlocked => {
                let data = self.map.data();
                self.add_entity(Entity { kind: KEY, x: data.key_x, y: data.key_y });
            },
            Outcome::Failed => {
                let button_count = self.password_lock.button_count();
                let mut i: usize = 0;
                while i < button_count
                    invariant
                        i <= button_count == 4,
                        self@.lock == old(self)@.lock.settled(x@, y@),
                        self@.lock.valid(4),
                        self@.entities == old(self)@.without_buttons(darkened, i as int),
                        self@ == (StateView { entities: self@.entities, lock: self@.lock, ..old(self)@ }),
                    decreases button_count - i,
                {
                    let (button_x, button_y) = self.password_lock.button_xy(i);
                    self.remove_entity(button_x, button_y);
                    i += 1;
                }
            },
            Outcome::Pending => {},
        }
        Some(SFX::ButtonPress)
    }

    /// Builds the world anew for another run through time; the lock keeps its buttons where
    /// they are.
    pub fn reset_time(&mut self)
        ensures
            final(self)@ == old(self)@.rewound(),
            final(self)@.valid(),
    {
        let mut password_lock = self.password_lock;
        // The combination stays for this game, whatever else is rebuilt.
        password_lock.reset();
        let seed = new_seed(&mut self.rng);
        *self = State::new_inner(self.map, from_seed(seed), self.dog_tile_kinds);
        self.password_lock = password_lock;
    }
}

/// Shuffling buttons and then looking at their cells is looking at their cells and then
/// shuffling: the draws do not depend on what is shuffled.
pub proof fn lemma_shuffled_views(
    rng: Xs,
    buttons: Seq<(X, Y, Label)>,
    plain: Seq<(int, int, Label)>,
    i: int,
)
    requires
        buttons.len() == plain.len(),
        forall|k: int|
            0 <= k < buttons.len() ==> (#[trigger] plain[k]) == (
                buttons[k].0@,
                buttons[k].1@,
                buttons[k].2,
            ),
    ensures
        shuffled_from(rng, buttons, i).0 == shuffled_from(rng, plain, i).0,
        shuffled_from(rng, buttons, i).1.len() == buttons.len(),
        shuffled_from(rng, plain, i).1.len() == buttons.len(),
        forall|k: int|
            0 <= k < buttons.len() ==> (#[trigger] shuffled_from(rng, plain, i).1[k])
                == ({
                let b = shuffled_from(rng, buttons, i).1[k];
                (b.0@, b.1@, b.2)
            }),
    decreases buttons.len() - i,
{
    if 1 <= i < buttons.len() && i < u32::MAX {
        let r = ranged(rng, 0, (i + 1) as u32) as int;
        vstd::arithmetic::div_mod::lemma_mod_bound(stepped(rng).a as int, i + 1);
        let swapped = buttons.update(i, buttons[r]).update(r, buttons[i]);
        let swapped_plain = plain.update(i, plain[r]).update(r, plain[i]);
        lemma_shuffled_views(stepped(rng), swapped, swapped_plain, i + 1);
    }
}

} // verus!
