pub mod rectangle;
pub mod text;
