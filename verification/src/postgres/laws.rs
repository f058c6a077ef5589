//! What the operations of this driver are for, as relations between what goes into them and what
//! comes out.

pub mod exchange;
pub mod receiving;
pub mod statements;
