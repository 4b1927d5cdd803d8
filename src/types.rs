pub mod language;
pub mod scene_node;
pub mod vector2;

pub use language::Language;
pub use scene_node::SceneNode;
pub use vector2::Vector2;
