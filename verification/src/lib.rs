//! A bounded colour palette for a pixel editor: an ordered list of at most
//! 256 colours, gradients between two colours, and the mapping from a pointer
//! position to the swatch under it.

pub mod color;
pub mod gradient;
pub mod layout;
pub mod palette;
pub mod session;
pub mod store;
