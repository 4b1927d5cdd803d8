pub mod node_manager;

pub use node_manager::{GlobalId, NodeManager};
