pub mod snake;
pub mod apple;
pub mod text;
pub mod scorebar;
