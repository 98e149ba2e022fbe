//! The TypeScript declaration model: type nodes, their combinators, and
//! their exact textual rendering.

pub mod basic;
pub mod to_string_with_indent;
pub mod ts_type;
pub mod ts_type_display;
pub mod ts_type_from_name;
