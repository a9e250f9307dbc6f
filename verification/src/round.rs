use vstd::prelude::*;
use crate::control_block::ControlBlock;
use crate::decimal::Decimal;
use crate::extra_precision::{ExtraPrecision, EXTRA_PRECISION_SCALE};
use crate::rounding::{decide_round_up, rounds_up};
use crate::signals::Signals;

verus! {

/// The decimal after its pending guard digits are folded into the visible
/// coefficient.
///
/// The most significant guard digit drives the decision under the carried
/// rounding mode; a nonempty register raises rounded and inexact and is
/// cleared. On a round-up of a coefficient already at the maximum, one digit
/// is first dropped to make room; if the scale cannot give that digit up,
/// the value stays saturated and is flagged clamped.
pub open spec fn round_spec(d: Decimal) -> Decimal {
    let digit = (d.cb.extra.digits / EXTRA_PRECISION_SCALE) as u8;
    let signals1 = if d.cb.extra.digits != 0 {
        Signals { rounded: true, inexact: true, ..d.cb.signals }
    } else {
        d.cb.signals
    };
    if rounds_up(d.cb.ctx.rounding_mode, d.cb.sign, digit, d.digits) {
        if d.digits == u128::MAX {
            if d.cb.scale > i16::MIN {
                Decimal {
                    digits: (u128::MAX / 10 + 1) as u128,
                    cb: ControlBlock {
                        scale: (d.cb.scale - 1) as i16,
                        signals: signals1,
                        extra: ExtraPrecision::spec_empty(),
                        ..d.cb
                    },
                }
            } else {
                Decimal {
                    digits: d.digits,
                    cb: ControlBlock {
                        signals: Signals { clamped: true, ..signals1 },
                        extra: ExtraPrecision::spec_empty(),
                        ..d.cb
                    },
                }
            }
        } else {
            Decimal {
                digits: (d.digits + 1) as u128,
                cb: ControlBlock {
                    signals: signals1,
                    extra: ExtraPrecision::spec_empty(),
                    ..d.cb
                },
            }
        }
    } else {
        Decimal {
            digits: d.digits,
            cb: ControlBlock {
                signals: signals1,
                extra: ExtraPrecision::spec_empty(),
                ..d.cb
            },
        }
    }
}

impl Decimal {
    /// Folds the pending guard digits into the coefficient under the carried
    /// rounding mode, leaving the register empty.
    #[verifier::rlimit(50)]
    pub fn round_extra_precision(self) -> (r: Decimal)
        requires
            self.wf(),
        ensures
            r == round_spec(self),
            r.wf(),
    {
        let mut d = self;
        let register = d.cb.extra.digits;
        let digit = (register / EXTRA_PRECISION_SCALE) as u8;
        if register != 0 {
            d.cb.signals = Signals { rounded: true, inexact: true, ..d.cb.signals };
        }
        d.cb.extra = ExtraPrecision { digits: 0, count: 0 };
        if decide_round_up(d.cb.ctx.rounding_mode, d.cb.sign, digit, d.digits) {
            if d.digits == u128::MAX {
                if d.cb.scale > i16::MIN {
                    d.digits = d.digits / 10 + 1;
                    d.cb.scale = d.cb.scale - 1;
                    proof {
                        assert(d == round_spec(self));
                    }
                } else {
                    d.cb.signals = Signals { clamped: true, ..d.cb.signals };
                    proof {
                        assert(d == round_spec(self));
                    }
                }
            } else {
                d.digits = d.digits + 1;
                proof {
                    assert(d == round_spec(self));
                }
            }
        } else {
            proof {
                assert(d == round_spec(self));
            }
        }
        d
    }
}

} // verus!
