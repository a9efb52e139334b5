//! Cellular-automaton core of the LifeView simulator: grid geometry on a torus,
//! rules and kernels, shape catalogue handling and the editing operations
//! behind the control panel. Cell values are generic, so that every piece of
//! bookkeeping here is checked independently of the numeric type that the
//! simulation uses.

pub mod ivec;
pub mod rule;
pub mod grid;
pub mod text;
pub mod shapes;
pub mod interface;
