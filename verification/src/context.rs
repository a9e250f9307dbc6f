use vstd::prelude::*;
use crate::rounding::RoundingMode;
use crate::signals::Signals;

verus! {

/// The per-value operation policy: the rounding mode applied when precision
/// is discarded, and the set of signals whose raising a caller treats as an
/// error (the trap enablers). By default the hard failures trap — invalid
/// operation, division by zero and overflow — matching the primitive
/// integers, while the precision signals only set their sticky flags.
#[derive(Clone, Copy, PartialEq, Eq, Debug, Structural)]
pub struct Context {
    /// Rounding mode applied by operations on values carrying this context.
    pub rounding_mode: RoundingMode,
    /// Signals that, once raised, mark the value as trapped: `ok` and
    /// `ok_or_err` turn them into `None` or an error.
    pub traps: Signals,
}

impl Context {
    /// The default trap enablers: invalid operation, division by zero and
    /// overflow.
    pub open spec fn spec_default_traps() -> Signals {
        Signals {
            invalid: true,
            div_by_zero: true,
            overflow: true,
            ..Signals::spec_empty()
        }
    }

    /// The default context: round half up, trapping invalid operation,
    /// division by zero and overflow.
    pub open spec fn spec_default() -> Context {
        Context { rounding_mode: RoundingMode::HalfUp, traps: Context::spec_default_traps() }
    }

    /// Creates the default context: round half up, trapping invalid
    /// operation, division by zero and overflow.
    pub fn new() -> (r: Context)
        ensures
            r == Context::spec_default(),
    {
        Context {
            rounding_mode: RoundingMode::HalfUp,
            traps: Signals::empty().with_invalid().with_div_by_zero().with_overflow(),
        }
    }

    /// This context with another rounding mode.
    pub fn with_rounding_mode(self, rm: RoundingMode) -> (r: Context)
        ensures
            r == (Context { rounding_mode: rm, ..self }),
    {
        Context { rounding_mode: rm, ..self }
    }

    /// This context with another set of trap enablers.
    pub fn with_signal_traps(self, traps: Signals) -> (r: Context)
        ensures
            r == (Context { traps: traps, ..self }),
    {
        Context { traps: traps, ..self }
    }
}

impl Default for Context {
    fn default() -> (r: Self)
        ensures
            r == Context::spec_default(),
    {
        Context::new()
    }
}

} // verus!
