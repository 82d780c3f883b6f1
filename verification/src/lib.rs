//! Simulation core of a grid-based snake-style game: the board, the
//! per-tick movement rules, and the classification of body segments
//! for rendering.

pub mod geometry;
pub mod text;
pub mod err;
pub mod options;
pub mod random;
pub mod rules;
pub mod matrix;
pub mod board;
pub mod full_state;
pub mod ctrl;
pub mod laws;

pub use crate::board::{Board, Food, Loong};
pub use crate::ctrl::{LoongCtrl, LoongCtrlState};
pub use crate::err::{LoongCtrlErr, LoongCtrlResult};
pub use crate::full_state::{
    calc_full_state, get_body_part_variant, LoongCornerVariant, LoongCtrlFullState, LoongPart,
    LoongPartVariant,
};
pub use crate::geometry::{Direction, Point};
pub use crate::matrix::{Cell, Matrix as LoongCtrlMatrix};
pub use crate::options::{InnerCfg, Options as LoongCtrlOptions};
