pub mod assets;
pub mod audio;
pub mod board;
pub mod collision;
pub mod frame;
pub mod game;
pub mod game_object;
pub mod geometry;
pub mod input;
pub mod input_queue;
pub mod models;
pub mod movement;
pub mod random;
pub mod render;
pub mod scene;
pub mod signal;
pub mod status_line;
pub mod terminal;
pub mod text_format;

pub use game_object::{GameObject, GameObjectId};
pub use geometry::{Bounds, Rotation, Transform, TransformRotation, Vector2Int};
pub use input::InputKey;
pub use movement::{Move, MoveDirection};
pub use render::{Render, RenderItem, RenderSpace, Texture, TextureColor, ZIndex};
