//! Scene-graph storage: a generational arena of scene nodes, the parent/child
//! relation over their handles, a generic two-component vector, locale tags and
//! a lenient integer parser.
pub mod managers;
pub mod types;
pub mod utilities;
