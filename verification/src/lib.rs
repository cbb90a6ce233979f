//! Verified core of a bridge between Dart and a Convex deployment: the values
//! that cross the bridge, their JSON text, reading values back from the text
//! that the convex crate writes for them, the arguments that calls and
//! subscriptions send, and what their replies and updates give.

pub mod text;
pub mod decimal;
pub mod json;
pub mod value;
pub mod debug_text;
pub mod args;
pub mod call;
pub mod json_value;
pub mod subscription;
pub mod laws;

pub use value::{ConvexError, ConvexValue};
