use vstd::prelude::*;
use crate::entities::{get_effective_tile, get_effective_tile_custom, Entity, NO_MOBS, PLAYER};
use crate::movement::{move_entity, performed, planned, step, xy_in_dir, Dir};
use crate::platform::SFX;
use crate::state::{entity_at, MessageInfo, Screen, State, StateView, RAMBLE_COUNT};
use crate::tile::{
    BUTTON_LIT, CLOSED_DOOR, DOOR_2, EXCLAMATION_BUBBLE, FLOOR, GHOST_1, KEY, OPEN_DOOR, PERSON_0,
    PERSON_1, PERSON_3, PERSON_4, PORTAL, SPECIAL_GRAVE, STAIRS_DOWN,
};

verus! {

/// What a person who knows the part `index` of the password answers, and who has told a part
/// from then on. One who is the first to be asked, or was the one asked before, tells; anyone
/// else refuses.
pub open spec fn asked(previous: Option<usize>, index: usize) -> (MessageInfo, Option<usize>) {
    if previous == Some(index) || previous is None {
        (MessageInfo::PasswordReveal { index }, Some(index))
    } else {
        (MessageInfo::PasswordRevealRefused, previous)
    }
}

/// The message after the rambler has been spoken to once more: the ramble begins, goes on to
/// its next part, or is over where there is no next part.
pub open spec fn rambled_on(message: MessageInfo) -> MessageInfo {
    match message {
        MessageInfo::Ramble(index) => if index + 1 >= RAMBLE_COUNT {
            MessageInfo::NoMessage
        } else {
            MessageInfo::Ramble((index + 1) as u8)
        },
        _ => MessageInfo::Ramble(0),
    }
}

impl StateView {
    /// The cell one step in `dir` from the player.
    pub open spec fn facing(self, dir: Dir) -> (int, int) {
        step(dir, self.entities.mobs[PLAYER as int].x, self.entities.mobs[PLAYER as int].y)
    }

    /// The world with `message` on show.
    pub open spec fn saying(self, message: MessageInfo) -> StateView {
        StateView { message_info: message, ..self }
    }

    /// The world after the player has turned to the cell one step in `dir` and dealt with what
    /// it holds. Two of the persons tell their part of the password, by the rule of `asked`;
    /// one has forgotten; one rambles; the phantom moans; the speech bubble over the special
    /// grave tells the last part; a closed door opens and an open one closes.
    pub open spec fn after_interact(self, dir: Dir) -> StateView {
        let target = self.facing(dir);
        match self.effective_tile(target.0, target.1, 0) {
            Some(kind) => if kind == PERSON_0 {
                StateView {
                    message_info: asked(self.previous_password_reveal_index, 0).0,
                    previous_password_reveal_index: asked(self.previous_password_reveal_index, 0).1,
                    ..self
                }
            } else if kind == PERSON_1 {
                StateView {
                    message_info: asked(self.previous_password_reveal_index, 1).0,
                    previous_password_reveal_index: asked(self.previous_password_reveal_index, 1).1,
                    ..self
                }
            } else if kind == PERSON_3 {
                self.saying(MessageInfo::ForgotPassword)
            } else if kind == PERSON_4 {
                self.saying(rambled_on(self.message_info))
            } else if kind == EXCLAMATION_BUBBLE {
                if target == self.map.special_grave {
                    self.saying(MessageInfo::PasswordReveal { index: 3 })
                } else {
                    self
                }
            } else if kind == GHOST_1 {
                self.saying(MessageInfo::GhostOoo)
            } else if kind == CLOSED_DOOR {
                self.with_entity(entity_at(OPEN_DOOR, target))
            } else if kind == OPEN_DOOR {
                self.without_entity(target.0, target.1)
            } else {
                self
            },
            None => self,
        }
    }

    /// The world after the player has tried to step in `dir`, and the sound of it. Any message
    /// goes away. On the last screen nothing else happens. Else the player steps, pushing what
    /// gives way. A special grave that is then in front of the player, where the map has it,
    /// moves one cell on and leaves a speech bubble. Then the cell under the player counts: the
    /// portal rewinds time, the stairs end the game, the key opens the locked door and is gone,
    /// a lit button is pressed.
    pub open spec fn after_move(self, dir: Dir) -> (StateView, Option<SFX>) {
        let hushed = self.saying(MessageInfo::NoMessage);
        if self.screen == Screen::Congraturation {
            (hushed, None)
        } else {
            let before = self.entities.mobs[PLAYER as int];
            let walked = performed(
                self.entities,
                self.map,
                planned(before.x, before.y, self.map, self.entities, dir, 0),
            );
            let player = walked.mobs[PLAYER as int];
            let target = step(dir, player.x, player.y);
            let shoved = if target == self.map.special_grave && walked.effective_tile(
                self.map,
                target.0,
                target.1,
                0,
            ) == Some(SPECIAL_GRAVE) {
                walked.with_entity(
                    self.map,
                    entity_at(SPECIAL_GRAVE, step(dir, target.0, target.1)),
                ).with_entity(self.map, entity_at(EXCLAMATION_BUBBLE, target))
            } else {
                walked
            };
            let moved = StateView { entities: shoved, ..hushed };
            match shoved.effective_tile(self.map, player.x, player.y, NO_MOBS) {
                Some(kind) => if kind == PORTAL {
                    (moved.rewound(), Some(SFX::CardPlace))
                } else if kind == STAIRS_DOWN {
                    (StateView { screen: Screen::Congraturation, ..moved }, None)
                } else if kind == KEY {
                    (
                        moved.with_entity(entity_at(DOOR_2, self.map.locked_door)).with_entity(
                            entity_at(FLOOR, (player.x, player.y)),
                        ),
                        Some(SFX::CardSlide),
                    )
                } else if kind == BUTTON_LIT {
                    (moved.with_button_pressed(player.x, player.y), Some(SFX::ButtonPress))
                } else {
                    (moved, None)
                },
                None => (moved, None),
            }
        }
    }
}

impl<'a> State<'a> {
    fn ask_for_password(&mut self, index: usize)
        ensures
            final(self)@ == (StateView {
                message_info: asked(old(self)@.previous_password_reveal_index, index).0,
                previous_password_reveal_index: asked(
                    old(self)@.previous_password_reveal_index,
                    index,
                ).1,
                ..old(self)@
            }),
    {
        let told = match self.previous_password_reveal_index {
            Some(other) => other == index,
            None => true,
        };
        if told {
            self.message_info = MessageInfo::PasswordReveal { index };
            self.previous_password_reveal_index = Some(index);
        } else {
            self.message_info = MessageInfo::PasswordRevealRefused;
        }
    }

    /// The player turns to the cell one step in `dir` and deals with what it holds.
    pub fn interact(&mut self, dir: Dir)
        ensures
            final(self)@ == old(self)@.after_interact(dir),
            final(self)@.valid(),
    {
        let (target_x, target_y) = xy_in_dir(dir, self.entities.player.x, self.entities.player.y);
        let data = self.map.data();
        match self.get_effective_tile(target_x, target_y) {
            Some(kind) => {
                if kind == PERSON_0 {
                    self.ask_for_password(0);
                } else if kind == PERSON_1 {
                    self.ask_for_password(1);
                } else if kind == PERSON_3 {
                    self.message_info = MessageInfo::ForgotPassword;
                } else if kind == PERSON_4 {
                    match self.message_info {
                        MessageInfo::Ramble(index) => {
                            if index >= RAMBLE_COUNT - 1 {
                                self.message_info = MessageInfo::NoMessage;
                            } else {
                                self.message_info = MessageInfo::Ramble(index + 1);
                            }
                        },
                        _ => {
                            self.message_info = MessageInfo::Ramble(0);
                        },
                    }
                } else if kind == EXCLAMATION_BUBBLE {
                    // Only the bubble that the special grave left tells anything.
                    if target_x == data.special_grave_x && target_y == data.special_grave_y {
                        self.message_info = MessageInfo::PasswordReveal { index: 3 };
                    }
                } else if kind == GHOST_1 {
                    self.message_info = MessageInfo::GhostOoo;
                } else if kind == CLOSED_DOOR {
                    self.add_entity(Entity { kind: OPEN_DOOR, x: target_x, y: target_y });
                } else if kind == OPEN_DOOR {
                    self.remove_entity(target_x, target_y);
                }
            },
            None => {},
        }
        self.validity();
    }

    /// The player tries to step in `dir`.
    #[must_use]
    pub fn move_player(&mut self, dir: Dir) -> (r: Option<SFX>)
        ensures
            (final(self)@, r) == old(self)@.after_move(dir),
            final(self)@.valid(),
    {
        self.message_info = MessageInfo::NoMessage;
        self.validity();
        match self.screen {
            Screen::Gameplay => {},
            Screen::Congraturation => {
                return None;
            },
        }
        move_entity(
            self.entities.player.x,
            self.entities.player.y,
            &mut self.entities,
            self.map,
            dir,
        );
        let data = self.map.data();
        let (target_x, target_y) = xy_in_dir(dir, self.entities.player.x, self.entities.player.y);
        // The special grave gives way the first time that it is leaned on.
        if target_x == data.special_grave_x && target_y == data.special_grave_y {
            let in_front = get_effective_tile(self.map, &self.entities, target_x, target_y);
            let grave = match in_front {
                Some(kind) => kind == SPECIAL_GRAVE,
                None => false,
            };
            if grave {
                let (pushed_x, pushed_y) = xy_in_dir(dir, target_x, target_y);
                self.add_entity(Entity { kind: SPECIAL_GRAVE, x: pushed_x, y: pushed_y });
                self.add_entity(Entity { kind: EXCLAMATION_BUBBLE, x: target_x, y: target_y });
            }
        }
        let player_x = self.entities.player.x;
        let player_y = self.entities.player.y;
        let mut output: Option<SFX> = None;
        match get_effective_tile_custom(self.map, &self.entities, player_x, player_y, NO_MOBS) {
            Some(kind) => {
                if kind == PORTAL {
                    output = Some(SFX::CardPlace);
                    self.reset_time();
                } else if kind == STAIRS_DOWN {
                    self.screen = Screen::Congraturation;
                } else if kind == KEY {
                    output = Some(SFX::CardSlide);
                    self.add_entity(
                        Entity { kind: DOOR_2, x: data.locked_door_x, y: data.locked_door_y },
                    );
                    self.add_entity(Entity { kind: FLOOR, x: player_x, y: player_y });
                } else if kind == BUTTON_LIT {
                    output = self.entity_on_button(player_x, player_y);
                }
            },
            None => {},
        }
        self.validity();
        output
    }
}

} // verus!
