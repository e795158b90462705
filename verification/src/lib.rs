//! Interactive board view for a stacking board game: screen geometry for an
//! N x (N+2) logical grid (board plus two hand rows), clickable regions with
//! a z-ordered hit resolver, the selection state machine that turns a
//! resolved click into a rules-engine command, and pure renderers that emit
//! draw primitives. The rules engine itself is an external collaborator: the
//! host hands the view a per-frame snapshot of its answers and carries the
//! view's commands back to it.

pub mod frame;
pub mod geom;
pub mod machine;
pub mod model;
pub mod regions;
pub mod render;
pub mod style;
