//! A retained-mode scene graph and the decisions of its frame loop.
//!
//! - `dom`: a path-addressed forest of nodes kept in an arena.
//! - `widgets`: placement data, the placement transform, and the widget lifecycle.
//! - `render`: surface configuration, resizing, and the ordered assembly of frames.
//! - `driver`: the frame loop as a state machine from window events to commands.
pub mod dom;
pub mod driver;
pub mod render;
pub mod widgets;
