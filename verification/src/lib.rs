//! A fixed-precision decimal arithmetic engine.
//!
//! A decimal number is a 128-bit unsigned coefficient together with a control
//! block holding the sign, the scale (the negated power-of-ten exponent), the
//! rounding mode, the special-value tag (finite / infinity / NaN), the sticky
//! signal flags of IEEE 854, and up to seven extra-precision guard digits that
//! record the fraction lost when a value is scaled down.
//!
//! The crate fixes one member of the width family: the coefficient is 128
//! bits wide, giving thirty-nine significant decimal digits. Wider members
//! would carry the same engine over a wider coefficient.
//!
//! Guard digits live only inside an operation: every value a public
//! operation returns carries an empty register, because each operation ends
//! by folding the register into the coefficient under the carried rounding
//! mode. The contracts that speak of register-free operands — comparison,
//! multiplication, the round-trip and rescaling laws — rest on exactly that
//! invariant.

pub mod cmp;
pub mod construct;
pub mod context;
pub mod control_block;
pub mod decimal;
pub mod errors;
pub mod extra_precision;
pub mod format;
pub mod intrinsics;
pub mod interop;
pub mod laws;
pub mod math;
pub mod parse;
pub mod round;
pub mod scale;
pub mod rounding;
pub mod sign;
pub mod signals;
pub mod unsigned;

pub use context::Context;
pub use errors::{DecimalError, ParseError};
pub use decimal::Decimal;
pub use rounding::RoundingMode;
pub use sign::Sign;
pub use unsigned::UnsignedDecimal;
pub use signals::Signals;
