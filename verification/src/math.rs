//! The arithmetic core: addition, subtraction, multiplication, division and
//! remainder.

pub mod add;
pub mod div;
pub mod mul;
