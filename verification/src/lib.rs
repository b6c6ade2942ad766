//! The world of a small adventure on a grid of tiles, stepped frame by frame: a player, a
//! roster of creatures that move by themselves, a lock of four buttons, and a few people to
//! talk to. Every function comes with a contract over a mathematical model of the world.

pub mod entities;
pub mod frame;
pub mod gfx;
pub mod lock;
pub mod lock_proofs;
pub mod map;
pub mod messages;
pub mod mobs;
pub mod movement;
pub mod movement_proofs;
pub mod path;
pub mod path_proofs;
pub mod platform;
pub mod player;
pub mod render;
pub mod render_proofs;
pub mod rng;
pub mod session;
pub mod state;
pub mod state_proofs;
pub mod text;
pub mod text_proofs;
pub mod tile;
pub mod xy;

pub use entities::{Entities, Entity, Tile};
pub use lock::PasswordLock;
pub use map::{GameMap, MapData};
pub use movement::{
    allowed_to, perform, plan, plan_custom, xy_in_dir, Allowed, Dir, Plan, Planned,
};
pub use path::plan_entity_on_path_towards;
pub use render::{CurrentTiles, Hud, RenderInfo};
pub use state::{DogState, MessageInfo, Print, Screen, State};
pub use text::{fit_in_text_box, Segment, SegmentSlice};
pub use tile::{is_landmark, TileKind};
pub use xy::{Rect, H, W, X, Y};
