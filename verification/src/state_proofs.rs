use vstd::prelude::*;
use crate::entities::{EntitiesView, PLAYER};
use crate::lock::{Outcome};
use crate::lock_proofs::{each_once, in_turn};
use crate::map::DOG_COUNT;
use crate::mobs::Moment;
use crate::movement::Dir;
use crate::platform::{Input, SFX};
use crate::player::asked;
use crate::state::{entity_at, FrameCount, MessageInfo, Screen, StateView};
use crate::tile::{TileKind, KEY, PERSON_0, PERSON_1};

verus! {

impl StateView {
    /// The world after something has stepped on the first `upto` buttons that `order` names,
    /// one after the other.
    pub open spec fn after_presses(self, order: Seq<int>, upto: int) -> StateView
        decreases upto,
    {
        if upto <= 0 {
            self
        } else {
            let before = self.after_presses(order, upto - 1);
            before.with_button_pressed(
                before.lock.xs[order[upto - 1]],
                before.lock.ys[order[upto - 1]],
            )
        }
    }

    /// The index of the overlay entry for the cell of the button `button`.
    pub open spec fn button_index(self, button: int) -> usize {
        self.map.index_of(self.lock.xs[button], self.lock.ys[button]) as usize
    }

    /// The index of the overlay entry for the cell of the key.
    pub open spec fn key_index(self) -> usize {
        self.map.index_of(self.map.key.0, self.map.key.1) as usize
    }

    /// Taking the overlay entries of the buttons away leaves none for the cells of the first
    /// `upto` buttons, and the roster as it is.
    pub proof fn lemma_without_buttons(self, entities: EntitiesView, upto: int)
        requires
            0 <= upto <= self.lock.xs.len(),
            self.lock.xs.len() == self.lock.ys.len(),
        ensures
            self.without_buttons(entities, upto).mobs == entities.mobs,
            forall|i: int|
                0 <= i < upto ==> !self.without_buttons(entities, upto).dynamic.dom().contains(
                    #[trigger] self.button_index(i),
                ),
            forall|k: usize| #[trigger]
                self.without_buttons(entities, upto).dynamic.dom().contains(k)
                    ==> entities.dynamic.dom().contains(k) && self.without_buttons(
                    entities,
                    upto,
                ).dynamic[k] == entities.dynamic[k],
        decreases upto,
    {
        if upto > 0 {
            self.lemma_without_buttons(entities, upto - 1);
            let fewer = self.without_buttons(entities, upto - 1);
            let gone = self.button_index(upto - 1);
            assert(self.without_buttons(entities, upto).dynamic == fewer.dynamic.remove(gone));
            assert forall|k: usize| #[trigger]
                self.without_buttons(entities, upto).dynamic.dom().contains(
                    k,
                ) implies entities.dynamic.dom().contains(k) && self.without_buttons(
                entities,
                upto,
            ).dynamic[k] == entities.dynamic[k] by {
                assert(fewer.dynamic.dom().contains(k));
            }
        }
    }

    /// Presses change the lock as `pressed_through` says, and neither the map nor the roster.
    pub proof fn lemma_after_presses(self, order: Seq<int>, upto: int)
        requires
            0 <= upto,
        ensures
            self.after_presses(order, upto).lock == self.lock.pressed_through(order, upto),
            self.after_presses(order, upto).map == self.map,
        decreases upto,
    {
        if upto > 0 {
            self.lemma_after_presses(order, upto - 1);
        }
    }
}

/// Whether every overlay entry of `later` was in the overlay of `s` already, or is a dark
/// button, or is the key in its cell.
pub open spec fn only_buttons_and_key_added(s: StateView, later: StateView) -> bool {
    forall|k: usize| #[trigger]
        later.entities.dynamic.dom().contains(k) ==> {
            ||| s.entities.dynamic.dom().contains(k) && later.entities.dynamic[k]
                == s.entities.dynamic[k]
            ||| later.entities.dynamic[k].kind == crate::tile::BUTTON_DARK
            ||| k == s.key_index() && later.entities.dynamic[k] == entity_at(KEY, s.map.key)
        }
}

/// A press adds nothing to the overlay but a dark button and the key in its cell.
pub proof fn lemma_press_adds_buttons_and_key(s: StateView, x: int, y: int)
    requires
        s.lock.valid(4),
    ensures
        only_buttons_and_key_added(s, s.with_button_pressed(x, y)),
{
    let darkened = if s.lock.closed_at(x, y, 0) is Some {
        s.entities.with_entity(s.map, entity_at(crate::tile::BUTTON_DARK, (x, y)))
    } else {
        s.entities
    };
    s.lemma_without_buttons(darkened, 4);
}

/// Presses add nothing to the overlay but dark buttons and the key in its cell.
pub proof fn lemma_presses_add_buttons_and_key(s: StateView, order: Seq<int>, upto: int)
    requires
        s.lock.valid(4),
        0 <= upto,
    ensures
        only_buttons_and_key_added(s, s.after_presses(order, upto)),
        s.after_presses(order, upto).lock.valid(4),
        s.after_presses(order, upto).map == s.map,
    decreases upto,
{
    if upto > 0 {
        lemma_presses_add_buttons_and_key(s, order, upto - 1);
        let before = s.after_presses(order, upto - 1);
        let x = before.lock.xs[order[upto - 1]];
        let y = before.lock.ys[order[upto - 1]];
        lemma_press_adds_buttons_and_key(before, x, y);
        before.lock.lemma_settled(4, x, y);
        assert(before.key_index() == s.key_index());
    }
}

/// Stepping on the buttons of an untouched lock in their turn opens every button and puts the
/// key in its cell: the one key that the presses bring.
pub proof fn pressing_in_turn_unlocks(s: StateView, order: Seq<int>)
    requires
        s.valid(),
        s.lock.apart(),
        s.lock.untouched(),
        each_once(order, 4),
        in_turn(order),
    ensures
        s.after_presses(order, 4).lock.all_open(),
        s.after_presses(order, 4).lock.same_buttons(s.lock),
        s.after_presses(order, 4).entities.dynamic.dom().contains(s.key_index()),
        s.after_presses(order, 4).entities.dynamic[s.key_index()] == entity_at(KEY, s.map.key),
        forall|k: usize|
            k != s.key_index() && #[trigger] s.after_presses(
                order,
                4,
            ).entities.dynamic.dom().contains(k) && s.after_presses(order, 4).entities.dynamic[k].kind
                == KEY ==> s.entities.dynamic.dom().contains(k) && s.entities.dynamic[k].kind == KEY,
{
    lemma_presses_add_buttons_and_key(s, order, 4);
    s.lemma_after_presses(order, 3);
    s.lemma_after_presses(order, 4);
    s.lock.lemma_pressed_through(4, order, 3);
    s.lock.lemma_pressed_through(4, order, 4);
}

/// Stepping on each button of an untouched lock once, in any order but theirs, leaves every
/// button closed, no press counted, and no overlay entry for the cell of any button.
pub proof fn pressing_out_of_turn_clears(s: StateView, order: Seq<int>)
    requires
        s.valid(),
        s.lock.apart(),
        s.lock.untouched(),
        each_once(order, 4),
        !in_turn(order),
    ensures
        s.after_presses(order, 4).lock == s.lock.cleared(),
        s.after_presses(order, 4).lock.untouched(),
        s.after_presses(order, 4).lock.same_buttons(s.lock),
        forall|button: int|
            0 <= button < 4 ==> !s.after_presses(order, 4).entities.dynamic.dom().contains(
                #[trigger] s.button_index(button),
            ),
{
    s.lemma_after_presses(order, 3);
    s.lemma_after_presses(order, 4);
    s.lock.lemma_pressed_through(4, order, 3);
    s.lock.lemma_pressed_through(4, order, 4);
    let before = s.after_presses(order, 3);
    let x = before.lock.xs[order[3]];
    let y = before.lock.ys[order[3]];
    assert(before.lock.pressed(x, y).outcome() == Outcome::Failed);
    let darkened = before.entities.with_entity(
        before.map,
        entity_at(crate::tile::BUTTON_DARK, (x, y)),
    );
    before.lemma_without_buttons(darkened, 4);
    assert forall|button: int| 0 <= button < 4 implies !s.after_presses(
        order,
        4,
    ).entities.dynamic.dom().contains(#[trigger] s.button_index(button)) by {
        assert(before.button_index(button) == s.button_index(button));
    }
}

/// Which part of the password the person drawn as `kind` knows, if any.
pub open spec fn part_known(kind: TileKind) -> Option<usize> {
    if kind == PERSON_0 {
        Some(0)
    } else if kind == PERSON_1 {
        Some(1)
    } else {
        None
    }
}

/// When nobody has told yet, the person asked first tells their part; another person asked
/// after that refuses.
pub proof fn second_person_refuses(s: StateView, first: Dir, second: Dir)
    requires
        s.previous_password_reveal_index is None,
        s.effective_tile(s.facing(first).0, s.facing(first).1, 0) is Some,
        part_known(s.effective_tile(s.facing(first).0, s.facing(first).1, 0)->0) is Some,
        s.effective_tile(s.facing(second).0, s.facing(second).1, 0) is Some,
        part_known(s.effective_tile(s.facing(second).0, s.facing(second).1, 0)->0) is Some,
        part_known(s.effective_tile(s.facing(first).0, s.facing(first).1, 0)->0) != part_known(
            s.effective_tile(s.facing(second).0, s.facing(second).1, 0)->0,
        ),
    ensures
        s.after_interact(first).message_info == (MessageInfo::PasswordReveal {
            index: part_known(s.effective_tile(s.facing(first).0, s.facing(first).1, 0)->0)->0,
        }),
        s.after_interact(first).after_interact(second).message_info
            == MessageInfo::PasswordRevealRefused,
{
    let told = s.after_interact(first);
    assert(told.entities == s.entities);
    assert(told.map == s.map);
    assert(told.facing(second) == s.facing(second));
}

/// When nobody has told yet, a person asked twice tells the same part both times.
pub proof fn same_person_tells_again(s: StateView, dir: Dir)
    requires
        s.previous_password_reveal_index is None,
        s.effective_tile(s.facing(dir).0, s.facing(dir).1, 0) is Some,
        part_known(s.effective_tile(s.facing(dir).0, s.facing(dir).1, 0)->0) is Some,
    ensures
        s.after_interact(dir).message_info == (MessageInfo::PasswordReveal {
            index: part_known(s.effective_tile(s.facing(dir).0, s.facing(dir).1, 0)->0)->0,
        }),
        s.after_interact(dir).after_interact(dir).message_info == s.after_interact(
            dir,
        ).message_info,
{
    let told = s.after_interact(dir);
    assert(told.entities == s.entities);
    assert(told.map == s.map);
    assert(told.facing(dir) == s.facing(dir));
}

/// Whether from `s` to `later` the map and the buttons of the lock have stayed as they were,
/// and the lock is a lock of four buttons still.
pub open spec fn same_puzzle(s: StateView, later: StateView) -> bool {
    later.map == s.map && later.lock.same_buttons(s.lock) && later.lock.valid(4)
}

/// A press leaves the map and the buttons as they are.
pub proof fn lemma_press_keeps_puzzle(s: StateView, x: int, y: int)
    requires
        s.lock.valid(4),
    ensures
        same_puzzle(s, s.with_button_pressed(x, y)),
{
    s.lock.lemma_settled(4, x, y);
}

/// Building the world anew leaves the map and the buttons as they are.
pub proof fn lemma_rewound_keeps_puzzle(s: StateView)
    requires
        s.lock.valid(4),
    ensures
        same_puzzle(s, s.rewound()),
        s.rewound().lock.untouched(),
        s.rewound().lock == s.lock.cleared(),
        s.rewound().frame_count == 0,
{
}

/// The check of the button under one of the roster leaves the map and the buttons as they are.
pub proof fn lemma_check_keeps_puzzle(m: Moment, slot: int)
    requires
        m.state.lock.valid(4),
    ensures
        same_puzzle(m.state, m.after_button_check(slot).state),
{
    let mob = m.state.entities.mobs[slot];
    lemma_press_keeps_puzzle(m.state, mob.x, mob.y);
}

/// A step of one of the roster leaves the map and the buttons as they are.
pub proof fn lemma_walk_keeps_puzzle(m: Moment, slot: int, dir: Dir, flags: crate::movement::Flags)
    requires
        m.state.lock.valid(4),
    ensures
        same_puzzle(m.state, m.after_walk(slot, dir, flags).state),
{
    let plans = m.state.mob_plans(slot, dir, flags);
    lemma_check_keeps_puzzle(m.with_state(m.state.with_moves(plans)), slot);
}

/// The turn of a dog leaves the map and the buttons as they are.
pub proof fn lemma_dog_keeps_puzzle(m: Moment, dog: int)
    requires
        m.state.lock.valid(4),
    ensures
        same_puzzle(m.state, m.after_dog(dog).state),
{
    let state = m.state;
    let slot = crate::entities::FIRST_DOG + dog;
    let before = state.entities.mobs[slot];
    match state.dog_states[dog] {
        crate::state::DogStateView::MovingTowards(target_x, target_y) => {
            let plans = crate::path::planned_towards(
                before.x,
                before.y,
                state.entities,
                state.map,
                target_x,
                target_y,
            );
            lemma_check_keeps_puzzle(m.with_state(state.with_moves(plans)), slot);
        },
        _ => {},
    }
}

/// The turns of the dogs leave the map and the buttons as they are.
pub proof fn lemma_dogs_keep_puzzle(m: Moment, from: int)
    requires
        m.state.lock.valid(4),
    ensures
        same_puzzle(m.state, m.after_dogs(from).state),
    decreases DOG_COUNT - from,
{
    if 0 <= from < DOG_COUNT {
        lemma_dog_keeps_puzzle(m, from);
        lemma_dogs_keep_puzzle(m.after_dog(from), from + 1);
    }
}

/// The turns of the roster leave the map and the buttons as they are.
pub proof fn lemma_roster_keeps_puzzle(m: Moment)
    requires
        m.state.lock.valid(4),
    ensures
        same_puzzle(m.state, m.after_roster().state),
{
    let a = m.after_turtle();
    lemma_walk_keeps_puzzle(
        m,
        crate::entities::TURTLE as int,
        crate::mobs::turtle_dir(m.state.frame_count),
        0,
    );
    assert(same_puzzle(m.state, a.state));
    let b = a.after_crab();
    lemma_walk_keeps_puzzle(
        a,
        crate::entities::CRAB as int,
        crate::mobs::crab_dir(a.state.frame_count),
        0,
    );
    assert(same_puzzle(a.state, b.state));
    let c = b.after_phantom();
    lemma_walk_keeps_puzzle(
        b.with_state(StateView { rng: crate::rng::stepped(b.state.rng), ..b.state }),
        crate::entities::PHANTOM as int,
        crate::movement::dir_of(crate::rng::ranged(b.state.rng, 0, 4)),
        crate::movement::PASS_THROUGH,
    );
    assert(same_puzzle(b.state, c.state));
    let d = c.after_panoptikhan();
    lemma_walk_keeps_puzzle(
        c,
        crate::entities::PANOPTIKHAN as int,
        crate::mobs::turned(
            crate::mobs::panoptikhan_dir(c.state.frame_count),
            c.state.invert_panoptikhan_moves,
        ),
        crate::movement::PASS_THROUGH,
    );
    assert(same_puzzle(c.state, d.state));
    let e = d.after_zombie();
    lemma_walk_keeps_puzzle(
        d,
        crate::entities::ZOMBIE as int,
        crate::mobs::turned(crate::mobs::zombie_dir(d.state.frame_count), d.state.invert_zombie_moves),
        0,
    );
    assert(same_puzzle(d.state, e.state));
    lemma_dogs_keep_puzzle(e, 0);
}

/// The player's step leaves the map and the buttons as they are.
pub proof fn lemma_move_keeps_puzzle(s: StateView, dir: Dir)
    requires
        s.lock.valid(4),
    ensures
        same_puzzle(s, s.after_move(dir).0),
{
    if s.screen != Screen::Congraturation {
        let hushed = s.saying(MessageInfo::NoMessage);
        let before = s.entities.mobs[PLAYER as int];
        let walked = crate::movement::performed(
            s.entities,
            s.map,
            crate::movement::planned(before.x, before.y, s.map, s.entities, dir, 0),
        );
        let player = walked.mobs[PLAYER as int];
        let target = crate::movement::step(dir, player.x, player.y);
        let shoved = if target == s.map.special_grave && walked.effective_tile(
            s.map,
            target.0,
            target.1,
            0,
        ) == Some(crate::tile::SPECIAL_GRAVE) {
            walked.with_entity(
                s.map,
                entity_at(crate::tile::SPECIAL_GRAVE, crate::movement::step(dir, target.0, target.1)),
            ).with_entity(s.map, entity_at(crate::tile::EXCLAMATION_BUBBLE, target))
        } else {
            walked
        };
        let moved = StateView { entities: shoved, ..hushed };
        lemma_rewound_keeps_puzzle(moved);
        lemma_press_keeps_puzzle(moved, player.x, player.y);
    }
}

/// The player's turn to a cell leaves the map and the buttons as they are.
pub proof fn lemma_interact_keeps_puzzle(s: StateView, dir: Dir)
    requires
        s.lock.valid(4),
    ensures
        same_puzzle(s, s.after_interact(dir)),
{
}

/// Dealing with the player's buttons leaves the map and the buttons of the lock as they are.
pub proof fn lemma_buttons_keep_puzzle(s: StateView, input: Input)
    requires
        s.lock.valid(4),
    ensures
        same_puzzle(s, s.after_buttons(input).0),
{
    let moved = if input.pressed(crate::platform::UP) {
        lemma_move_keeps_puzzle(s, Dir::Up);
        s.after_move(Dir::Up).0
    } else if input.pressed(crate::platform::DOWN) {
        lemma_move_keeps_puzzle(s, Dir::Down);
        s.after_move(Dir::Down).0
    } else if input.pressed(crate::platform::LEFT) {
        lemma_move_keeps_puzzle(s, Dir::Left);
        s.after_move(Dir::Left).0
    } else if input.pressed(crate::platform::RIGHT) {
        lemma_move_keeps_puzzle(s, Dir::Right);
        s.after_move(Dir::Right).0
    } else {
        s
    };
    assert(same_puzzle(s, moved));
    lemma_interact_keeps_puzzle(moved, Dir::Up);
    lemma_interact_keeps_puzzle(moved, Dir::Down);
    lemma_interact_keeps_puzzle(moved, Dir::Left);
    lemma_interact_keeps_puzzle(moved, Dir::Right);
}

/// Whatever happens in a frame, the map stays, and the buttons of the lock stay where they
/// are and keep their names and their order.
pub proof fn frame_keeps_puzzle(s: StateView, input: Input, sounds: Seq<SFX>)
    requires
        s.lock.valid(4),
    ensures
        same_puzzle(s, s.after_frame(input, sounds).state),
        same_puzzle(s, before_tick(s, input, sounds)),
{
    let roster_done = (Moment { state: s, sounds }).after_roster();
    lemma_roster_keeps_puzzle(Moment { state: s, sounds });
    lemma_buttons_keep_puzzle(roster_done.state, input);
    let played = roster_done.state.after_buttons(input).0;
    lemma_rewound_keeps_puzzle(played);
}

/// The world of a frame just before its clock goes on.
pub open spec fn before_tick(s: StateView, input: Input, sounds: Seq<SFX>) -> StateView {
    (Moment { state: s, sounds }).after_roster().state.after_buttons(input).0
}

/// When the clock goes on from the last frame that it can count, the world is built anew: at
/// frame 0, with the buttons of the lock where they were, under their names and in their
/// order, but every button closed and no press counted.
pub proof fn wrap_rewinds(s: StateView, input: Input, sounds: Seq<SFX>)
    requires
        s.lock.valid(4),
        before_tick(s, input, sounds).frame_count == FrameCount::MAX,
        before_tick(s, input, sounds).screen == Screen::Gameplay,
    ensures
        s.after_frame(input, sounds).state.frame_count == 0,
        s.after_frame(input, sounds).state.lock.same_buttons(s.lock),
        s.after_frame(input, sounds).state.lock.untouched(),
        s.after_frame(input, sounds).state.lock == before_tick(s, input, sounds).lock.cleared(),
        s.after_frame(input, sounds).state == before_tick(s, input, sounds).rewound().after_hud(),
{
    frame_keeps_puzzle(s, input, sounds);
    lemma_rewound_keeps_puzzle(before_tick(s, input, sounds));
}

/// Any step of the player takes the message away.
pub proof fn move_hushes(s: StateView, dir: Dir)
    ensures
        s.screen == Screen::Congraturation || s.after_move(dir).0.message_info
            == MessageInfo::NoMessage,
        s.after_move(dir).0.message_info == MessageInfo::NoMessage,
{
}

/// Whoever of the roster has stepped, by whatever rules, onto a cell that shows a lit button
/// under it, has pressed that button, with its sound; whoever has not stepped has pressed
/// nothing.
pub proof fn step_onto_lit_button_presses(
    m: Moment,
    slot: int,
    dir: Dir,
    flags: crate::movement::Flags,
)
    ensures
        ({
            let plans = m.state.mob_plans(slot, dir, flags);
            let moved = m.state.with_moves(plans);
            let mob = moved.entities.mobs[slot];
            let after = m.after_walk(slot, dir, flags);
            &&& plans.len() == 0 ==> after == m
            &&& plans.len() > 0 && moved.effective_tile(mob.x, mob.y, crate::entities::NO_MOBS)
                == Some(crate::tile::BUTTON_LIT) ==> after.state == moved.with_button_pressed(
                mob.x,
                mob.y,
            ) && after.sounds == m.sounds.push(SFX::ButtonPress)
            &&& plans.len() > 0 && moved.effective_tile(mob.x, mob.y, crate::entities::NO_MOBS)
                != Some(crate::tile::BUTTON_LIT) ==> after.state == moved && after.sounds
                == m.sounds
        }),
{
}

/// One of the roster that is found in its cell, on the map, and whose step is planned with
/// room left in the plan, is one cell on in the direction of the step after its walk,
/// whatever button it has pressed there.
pub proof fn walk_moves_one_cell(m: Moment, slot: int, dir: Dir, flags: crate::movement::Flags)
    requires
        m.state.map.valid(),
        m.state.lock.valid(4),
        0 <= slot < m.state.entities.mobs.len(),
        m.state.map.inside((m.state.entities.mobs[slot].x, m.state.entities.mobs[slot].y)),
        m.state.entities.first_mob_at(
            m.state.entities.mobs[slot].x,
            m.state.entities.mobs[slot].y,
        ) == Some(slot),
        0 < m.state.mob_plans(slot, dir, flags).len() < crate::movement::PLAN_CAPACITY,
    ensures
        ({
            let mover = m.state.entities.mobs[slot];
            let to = crate::movement::step(dir, mover.x, mover.y);
            &&& m.state.map.inside(to)
            &&& to == crate::movement_proofs::ahead(dir, mover.x, mover.y, 1)
            &&& m.after_walk(slot, dir, flags).state.entities.mobs[slot] == mover.moved_to(
                to.0,
                to.1,
            )
        }),
{
    crate::movement_proofs::planned_step_moves_one_cell(
        m.state.map,
        m.state.entities,
        slot,
        dir,
        flags,
    );
    let plans = m.state.mob_plans(slot, dir, flags);
    let moved = m.state.with_moves(plans);
    let mob = moved.entities.mobs[slot];
    moved.lemma_press_keeps_roster(mob.x, mob.y);
}

impl StateView {
    /// A press leaves the roster where it is.
    pub proof fn lemma_press_keeps_roster(self, x: int, y: int)
        requires
            0 <= self.lock.len() as int <= self.lock.xs.len(),
            self.lock.xs.len() == self.lock.ys.len(),
        ensures
            self.with_button_pressed(x, y).entities.mobs == self.entities.mobs,
    {
        let darkened = if self.lock.closed_at(x, y, 0) is Some {
            self.entities.with_entity(self.map, entity_at(crate::tile::BUTTON_DARK, (x, y)))
        } else {
            self.entities
        };
        self.lemma_without_buttons(darkened, self.lock.len() as int);
    }
}

/// On its turn the zombie turns round exactly when it plans no move, and then it stays where
/// it is; at an edge of the map that its step would cross it plans none. Between its turns
/// nothing changes.
pub proof fn zombie_turns_round_when_stuck(m: Moment)
    requires
        m.state.map.valid(),
    ensures
        ({
            let s = m.state;
            let after = m.after_zombie().state;
            let zombie = s.entities.mobs[crate::entities::ZOMBIE as int];
            let dir = crate::mobs::turned(
                crate::mobs::zombie_dir(s.frame_count),
                s.invert_zombie_moves,
            );
            let plans = s.mob_plans(crate::entities::ZOMBIE as int, dir, 0);
            &&& s.frame_count & 0b111_1111 != 0 ==> m.after_zombie() == m
            &&& s.frame_count & 0b111_1111 == 0 && plans.len() == 0 ==> after.invert_zombie_moves
                == !s.invert_zombie_moves && after.entities == s.entities
            &&& s.frame_count & 0b111_1111 == 0 && plans.len() > 0 ==> after.invert_zombie_moves
                == s.invert_zombie_moves
            &&& crate::movement_proofs::at_edge(s.map, dir, zombie.x, zombie.y) ==> plans.len() == 0
        }),
{
    let s = m.state;
    let zombie = s.entities.mobs[crate::entities::ZOMBIE as int];
    let dir = crate::mobs::turned(crate::mobs::zombie_dir(s.frame_count), s.invert_zombie_moves);
    if crate::movement_proofs::at_edge(s.map, dir, zombie.x, zombie.y) {
        crate::movement_proofs::map_edge_step_moves_nothing(
            s.map,
            s.entities,
            zombie.x,
            zombie.y,
            dir,
            0,
        );
    }
}

/// On its turn the panoptikhan turns round exactly when it plans no move, and then it stays
/// where it is; at an edge of the map that its step would cross it plans none. Between its
/// turns nothing changes.
pub proof fn panoptikhan_turns_round_at_the_edge(m: Moment)
    requires
        m.state.map.valid(),
    ensures
        ({
            let s = m.state;
            let after = m.after_panoptikhan().state;
            let floater = s.entities.mobs[crate::entities::PANOPTIKHAN as int];
            let dir = crate::mobs::turned(
                crate::mobs::panoptikhan_dir(s.frame_count),
                s.invert_panoptikhan_moves,
            );
            let plans = s.mob_plans(
                crate::entities::PANOPTIKHAN as int,
                dir,
                crate::movement::PASS_THROUGH,
            );
            &&& s.frame_count & 0b1_1111 != 0 ==> m.after_panoptikhan() == m
            &&& s.frame_count & 0b1_1111 == 0 && plans.len() == 0
                ==> after.invert_panoptikhan_moves == !s.invert_panoptikhan_moves
                && after.entities == s.entities
            &&& s.frame_count & 0b1_1111 == 0 && plans.len() > 0
                ==> after.invert_panoptikhan_moves == s.invert_panoptikhan_moves
            &&& crate::movement_proofs::at_edge(s.map, dir, floater.x, floater.y) ==> plans.len()
                == 0
        }),
{
    let s = m.state;
    let floater = s.entities.mobs[crate::entities::PANOPTIKHAN as int];
    let dir = crate::mobs::turned(
        crate::mobs::panoptikhan_dir(s.frame_count),
        s.invert_panoptikhan_moves,
    );
    if crate::movement_proofs::at_edge(s.map, dir, floater.x, floater.y) {
        crate::movement_proofs::map_edge_step_moves_nothing(
            s.map,
            s.entities,
            floater.x,
            floater.y,
            dir,
            crate::movement::PASS_THROUGH,
        );
    }
}

} // verus!
