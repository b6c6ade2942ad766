use vstd::prelude::*;
use core::ops::Not;
use crate::entities::{
    get_effective_tile_custom, CRAB, FIRST_DOG, NO_MOBS, PANOPTIKHAN, PHANTOM, TURTLE, ZOMBIE,
};
use crate::map::{is_xy_landmark, picked_landmark, random_landmark, MapView, DOG_COUNT};
use crate::movement::{
    dir_of, gen_dir, opposite, perform, performed, plan_custom, planned, Dir, Flags, PlanView,
    PASS_THROUGH,
};
use crate::path::{plan_entity_on_path_towards, planned_towards};
use crate::platform::{Speaker, SFX};
use crate::rng::{ranged, stepped};
use crate::state::{DogState, DogStateView, FrameCount, State, StateView};
use crate::tile::BUTTON_LIT;
use crate::xy::{eight_neighbors, neighbors_of, X, Y};

verus! {

/// A world in the middle of a frame, and the sounds asked for so far.
pub struct Moment {
    pub state: StateView,
    pub sounds: Seq<SFX>,
}

/// The way the turtle heads in the frame `frame_count`: around a square, a side every 64 frames.
pub open spec fn turtle_dir(frame_count: FrameCount) -> Dir {
    let phase = (frame_count >> 6) & 0b11;
    if phase == 0b01 {
        Dir::Down
    } else if phase == 0b10 {
        Dir::Right
    } else if phase == 0b11 {
        Dir::Up
    } else {
        Dir::Left
    }
}

/// The way the crab heads in the frame `frame_count`: mostly left, right one time in four.
pub open spec fn crab_dir(frame_count: FrameCount) -> Dir {
    if (frame_count >> 6) & 0b11 == 0b01 {
        Dir::Right
    } else {
        Dir::Left
    }
}

/// The way the panoptikhan heads in the frame `frame_count`, before its turning round counts.
pub open spec fn panoptikhan_dir(frame_count: FrameCount) -> Dir {
    let phase = (frame_count >> 5) & 0b111;
    if phase == 0b001 || phase == 0b111 {
        Dir::Up
    } else if phase == 0b011 || phase == 0b101 {
        Dir::Down
    } else {
        Dir::Left
    }
}

/// The way the zombie heads in the frame `frame_count`, before its turning round counts.
pub open spec fn zombie_dir(frame_count: FrameCount) -> Dir {
    let phase = (frame_count >> 7) & 0b1111;
    if phase == 0b0001 || phase == 0b1111 {
        Dir::Right
    } else if phase == 0b0110 || phase == 0b1010 {
        Dir::Left
    } else {
        Dir::Down
    }
}

/// `dir`, or the way back where `inverted` holds.
pub open spec fn turned(dir: Dir, inverted: bool) -> Dir {
    if inverted {
        opposite(dir)
    } else {
        dir
    }
}

/// Whether one of the eight cells around `(x, y)` has a landmark for its tile.
pub open spec fn near_landmark(map: MapView, x: int, y: int) -> bool {
    exists|i: int|
        0 <= i < 8 && map.landmark_at((#[trigger] neighbors_of(x, y)[i]).0, neighbors_of(x, y)[i].1)
}

impl StateView {
    /// The moves that make the one of the roster at `slot` step in `dir`.
    pub open spec fn mob_plans(self, slot: int, dir: Dir, flags: Flags) -> Seq<PlanView> {
        planned(
            self.entities.mobs[slot].x,
            self.entities.mobs[slot].y,
            self.map,
            self.entities,
            dir,
            flags,
        )
    }

    /// The world after the moves of `plans` have been made.
    pub open spec fn with_moves(self, plans: Seq<PlanView>) -> StateView {
        StateView { entities: performed(self.entities, self.map, plans), ..self }
    }

    /// The world in which the dog `dog` is about `about`.
    pub open spec fn with_dog_state(self, dog: int, about: DogStateView) -> StateView {
        StateView { dog_states: self.dog_states.update(dog, about), ..self }
    }
}

impl Moment {
    /// The world with `state` for its state.
    pub open spec fn with_state(self, state: StateView) -> Moment {
        Moment { state, sounds: self.sounds }
    }

    /// The moment after the one of the roster at `slot` has arrived in its cell: if what lies
    /// under it is a lit button, the button is pressed, with its sound.
    pub open spec fn after_button_check(self, slot: int) -> Moment {
        let mob = self.state.entities.mobs[slot];
        if self.state.effective_tile(mob.x, mob.y, NO_MOBS) == Some(BUTTON_LIT) {
            Moment {
                state: self.state.with_button_pressed(mob.x, mob.y),
                sounds: self.sounds.push(SFX::ButtonPress),
            }
        } else {
            self
        }
    }

    /// The moment after the one of the roster at `slot` has stepped in `dir`, if it could, and
    /// had the button under it checked if it did.
    pub open spec fn after_walk(self, slot: int, dir: Dir, flags: Flags) -> Moment {
        let plans = self.state.mob_plans(slot, dir, flags);
        if plans.len() > 0 {
            self.with_state(self.state.with_moves(plans)).after_button_check(slot)
        } else {
            self
        }
    }

    /// The moment after the turtle's turn, which comes every 16 frames.
    pub open spec fn after_turtle(self) -> Moment {
        if self.state.frame_count & 0b1111 == 0 {
            self.after_walk(TURTLE as int, turtle_dir(self.state.frame_count), 0)
        } else {
            self
        }
    }

    /// The moment after the crab's turn, which comes every 8 frames.
    pub open spec fn after_crab(self) -> Moment {
        if self.state.frame_count & 0b111 == 0 {
            self.after_walk(CRAB as int, crab_dir(self.state.frame_count), 0)
        } else {
            self
        }
    }

    /// The moment after the phantom's turn, which comes every 64 frames: it steps a drawn way,
    /// through anything, and has the button under it checked if it stepped.
    pub open spec fn after_phantom(self) -> Moment {
        let state = self.state;
        if state.frame_count & 0b11_1111 == 0 {
            self.with_state(StateView { rng: stepped(state.rng), ..state }).after_walk(
                PHANTOM as int,
                dir_of(ranged(state.rng, 0, 4)),
                PASS_THROUGH,
            )
        } else {
            self
        }
    }

    /// The moment after the panoptikhan's turn, which comes every 32 frames: it steps through
    /// anything and has the button under it checked; when it comes to the edge of the map, it
    /// turns round for its next turns.
    pub open spec fn after_panoptikhan(self) -> Moment {
        let state = self.state;
        if state.frame_count & 0b1_1111 == 0 {
            let dir = turned(panoptikhan_dir(state.frame_count), state.invert_panoptikhan_moves);
            if state.mob_plans(PANOPTIKHAN as int, dir, PASS_THROUGH).len() > 0 {
                self.after_walk(PANOPTIKHAN as int, dir, PASS_THROUGH)
            } else {
                self.with_state(
                    StateView {
                        invert_panoptikhan_moves: !state.invert_panoptikhan_moves,
                        ..state
                    },
                )
            }
        } else {
            self
        }
    }

    /// The moment after the zombie's turn, which comes every 128 frames: it steps by the usual
    /// rules, and turns round for its next turns when it cannot.
    pub open spec fn after_zombie(self) -> Moment {
        let state = self.state;
        if state.frame_count & 0b111_1111 == 0 {
            let dir = turned(zombie_dir(state.frame_count), state.invert_zombie_moves);
            if state.mob_plans(ZOMBIE as int, dir, 0).len() > 0 {
                self.after_walk(ZOMBIE as int, dir, 0)
            } else {
                self.with_state(
                    StateView { invert_zombie_moves: !state.invert_zombie_moves, ..state },
                )
            }
        } else {
            self
        }
    }

    /// The moment after the turn of the dog `dog`.
    ///
    /// A dog on its way steps along a shortest walk to its target, and has the button under it
    /// checked if it stepped; where it has arrived, or has not left its cell, it is about to
    /// sniff. Any other dog sniffs. Every 64 frames, and whenever no landmark is around it,
    /// such a dog picks a landmark away from itself and is on its way there.
    pub open spec fn after_dog(self, dog: int) -> Moment {
        let state = self.state;
        let slot = FIRST_DOG + dog;
        let before = state.entities.mobs[slot];
        match state.dog_states[dog] {
            DogStateView::MovingTowards(target_x, target_y) => {
                let plans = planned_towards(
                    before.x,
                    before.y,
                    state.entities,
                    state.map,
                    target_x,
                    target_y,
                );
                let walked = if plans.len() > 0 {
                    self.with_state(state.with_moves(plans)).after_button_check(slot)
                } else {
                    self
                };
                let now = walked.state.entities.mobs[slot];
                if now.at(target_x, target_y) || now.at(before.x, before.y) {
                    walked.with_state(walked.state.with_dog_state(dog, DogStateView::PreSniffing))
                } else {
                    walked
                }
            },
            _ => {
                if state.frame_count & 0b11_1111 == 0 || !near_landmark(
                    state.map,
                    before.x,
                    before.y,
                ) {
                    let target = picked_landmark(state.rng, state.map, before.x, before.y);
                    self.with_state(
                        StateView { rng: stepped(state.rng), ..state }.with_dog_state(
                            dog,
                            DogStateView::MovingTowards(target.0, target.1),
                        ),
                    )
                } else {
                    self.with_state(state.with_dog_state(dog, DogStateView::Sniffing))
                }
            },
        }
    }

    /// The moment after the turns of the dogs from `from` on, in their order.
    pub open spec fn after_dogs(self, from: int) -> Moment
        decreases DOG_COUNT - from,
    {
        if from < 0 || from >= DOG_COUNT {
            self
        } else {
            self.after_dog(from).after_dogs(from + 1)
        }
    }
}

/// Whether one of the eight cells around `(x, y)` has a landmark for its tile.
pub fn is_near_landmark(map: &crate::map::GameMap, x: X, y: Y) -> (r: bool)
    ensures
        r == near_landmark(map@, x@, y@),
{
    let around = eight_neighbors(x, y);
    let mut i: usize = 0;
    while i < 8
        invariant
            i <= 8,
            forall|k: int| 0 <= k < 8 ==> (#[trigger] around[k]).0@ == neighbors_of(x@, y@)[k].0,
            forall|k: int| 0 <= k < 8 ==> (#[trigger] around[k]).1@ == neighbors_of(x@, y@)[k].1,
            forall|k: int|
                0 <= k < i ==> !map@.landmark_at(
                    (#[trigger] neighbors_of(x@, y@)[k]).0,
                    neighbors_of(x@, y@)[k].1,
                ),
        decreases 8 - i,
    {
        if is_xy_landmark(map, around[i].0, around[i].1) {
            assert(map@.landmark_at(
                neighbors_of(x@, y@)[i as int].0,
                neighbors_of(x@, y@)[i as int].1,
            ));
            return true;
        }
        i += 1;
    }
    false
}

impl<'a> State<'a> {
    /// The moment that this world and the sounds of `speaker` make.
    pub open spec fn moment(&self, speaker: &Speaker) -> Moment {
        Moment { state: self@, sounds: speaker@ }
    }

    /// Something has arrived in the cell `(x, y)`: a lit button under it is pressed.
    fn button_check(&mut self, speaker: &mut Speaker, slot: usize)
        requires
            slot < 29,
        ensures
            final(self).moment(final(speaker)) == old(self).moment(old(speaker)).after_button_check(
                slot as int,
            ),
    {
        let mob = self.entities.mob(slot);
        match get_effective_tile_custom(self.map, &self.entities, mob.x, mob.y, NO_MOBS) {
            Some(kind) => {
                if kind == BUTTON_LIT {
                    match self.entity_on_button(mob.x, mob.y) {
                        Some(sfx) => {
                            speaker.request_sfx(sfx);
                        },
                        None => {},
                    }
                }
            },
            None => {},
        }
    }

    /// The one of the roster at `slot` steps in `dir`, if it can; says whether it did.
    fn walk(&mut self, speaker: &mut Speaker, slot: usize, dir: Dir, flags: Flags) -> (r: bool)
        requires
            slot < 29,
        ensures
            final(self).moment(final(speaker)) == old(self).moment(old(speaker)).after_walk(
                slot as int,
                dir,
                flags,
            ),
            r == (old(self)@.mob_plans(slot as int, dir, flags).len() > 0),
    {
        let mob = self.entities.mob(slot);
        let planned = plan_custom(mob.x, mob.y, self.map, &self.entities, dir, flags);
        if planned.len() > 0 {
            perform(&mut self.entities, self.map, planned);
            self.button_check(speaker, slot);
            true
        } else {
            false
        }
    }

    /// The turtle's turn.
    pub fn turtle_turn(&mut self, speaker: &mut Speaker)
        ensures
            final(self).moment(final(speaker)) == old(self).moment(old(speaker)).after_turtle(),
    {
        if self.frame_count & 0b1111 == 0 {
            let phase: u16 = (self.frame_count >> 6) & 0b11;
            let dir = if phase == 0b01 {
                Dir::Down
            } else if phase == 0b10 {
                Dir::Right
            } else if phase == 0b11 {
                Dir::Up
            } else {
                Dir::Left
            };
            self.walk(speaker, TURTLE, dir, 0);
        }
    }

    /// The crab's turn.
    pub fn crab_turn(&mut self, speaker: &mut Speaker)
        ensures
            final(self).moment(final(speaker)) == old(self).moment(old(speaker)).after_crab(),
    {
        if self.frame_count & 0b111 == 0 {
            let dir = if (self.frame_count >> 6) & 0b11 == 0b01 {
                Dir::Right
            } else {
                Dir::Left
            };
            self.walk(speaker, CRAB, dir, 0);
        }
    }

    /// The phantom's turn.
    pub fn phantom_turn(&mut self, speaker: &mut Speaker)
        ensures
            final(self).moment(final(speaker)) == old(self).moment(old(speaker)).after_phantom(),
    {
        if self.frame_count & 0b11_1111 == 0 {
            let dir = gen_dir(&mut self.rng);
            self.walk(speaker, PHANTOM, dir, PASS_THROUGH);
        }
    }

    /// The panoptikhan's turn.
    pub fn panoptikhan_turn(&mut self, speaker: &mut Speaker)
        ensures
            final(self).moment(final(speaker)) == old(self).moment(old(speaker)).after_panoptikhan(),
    {
        if self.frame_count & 0b1_1111 == 0 {
            let phase: u16 = (self.frame_count >> 5) & 0b111;
            let mut dir = if phase == 0b001 || phase == 0b111 {
                Dir::Up
            } else if phase == 0b011 || phase == 0b101 {
                Dir::Down
            } else {
                Dir::Left
            };
            if self.invert_panoptikhan_moves {
                dir = dir.not();
            }
            let moved = self.walk(speaker, PANOPTIKHAN, dir, PASS_THROUGH);
            if !moved {
                self.invert_panoptikhan_moves = !self.invert_panoptikhan_moves;
            }
        }
    }

    /// The zombie's turn.
    pub fn zombie_turn(&mut self, speaker: &mut Speaker)
        ensures
            final(self).moment(final(speaker)) == old(self).moment(old(speaker)).after_zombie(),
    {
        if self.frame_count & 0b111_1111 == 0 {
            let phase: u16 = (self.frame_count >> 7) & 0b1111;
            let mut dir = if phase == 0b0001 || phase == 0b1111 {
                Dir::Right
            } else if phase == 0b0110 || phase == 0b1010 {
                Dir::Left
            } else {
                Dir::Down
            };
            if self.invert_zombie_moves {
                dir = dir.not();
            }
            let moved = self.walk(speaker, ZOMBIE, dir, 0);
            if !moved {
                self.invert_zombie_moves = !self.invert_zombie_moves;
            }
        }
    }

    /// The turn of the dog `dog`.
    pub fn dog_turn(&mut self, speaker: &mut Speaker, dog: usize)
        requires
            dog < 22,
        ensures
            final(self).moment(final(speaker)) == old(self).moment(old(speaker)).after_dog(
                dog as int,
            ),
    {
        let before = self.entities.dogs[dog];
        assert(before@ == self@.entities.mobs[FIRST_DOG + dog]);
        match self.dog_states[dog] {
            DogState::MovingTowards(target_x, target_y) => {
                let planned = plan_entity_on_path_towards(
                    before.x,
                    before.y,
                    &self.entities,
                    self.map,
                    target_x,
                    target_y,
                );
                if planned.len() > 0 {
                    perform(&mut self.entities, self.map, planned);
                    self.button_check(speaker, FIRST_DOG + dog);
                }
                let now = self.entities.dogs[dog];
                assert(now@ == self@.entities.mobs[FIRST_DOG + dog]);
                // It has come to its target, or it cannot get on.
                if (now.x == target_x && now.y == target_y) || (now.x == before.x && now.y
                    == before.y) {
                    self.dog_states[dog] = DogState::PreSniffing;
                    assert(self@.dog_states =~= old(self).moment(old(speaker)).after_dog(
                        dog as int,
                    ).state.dog_states);
                }
            },
            _ => {
                if self.frame_count & 0b11_1111 == 0 || !is_near_landmark(
                    self.map,
                    before.x,
                    before.y,
                ) {
                    // Off to something else.
                    let (target_x, target_y) = random_landmark(
                        &mut self.rng,
                        self.map,
                        before.x,
                        before.y,
                    );
                    self.dog_states[dog] = DogState::MovingTowards(target_x, target_y);
                } else {
                    self.dog_states[dog] = DogState::Sniffing;
                }
                assert(self@.dog_states =~= old(self).moment(old(speaker)).after_dog(
                    dog as int,
                ).state.dog_states);
            },
        }
    }

    /// The turns of all the dogs.
    pub fn dogs_turn(&mut self, speaker: &mut Speaker)
        ensures
            final(self).moment(final(speaker)) == old(self).moment(old(speaker)).after_dogs(0),
    {
        let mut dog: usize = 0;
        while dog < 22
            invariant
                dog <= 22,
                self.moment(speaker).after_dogs(dog as int) == old(self).moment(
                    old(speaker),
                ).after_dogs(0),
            decreases 22 - dog,
        {
            self.dog_turn(speaker, dog);
            dog += 1;
        }
    }
}

} // verus!
