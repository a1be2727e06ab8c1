//! What holds of building and evaluating expressions as a whole.
pub mod building;
pub mod codec;
pub mod conversion;
pub mod evaluation;
pub mod functions;
pub mod literals;
pub mod messages;
pub mod nodes;
pub mod trees;
pub mod values;
