//! The amount validator: checks a requested millisatoshi amount against the
//! configured sendable bounds.

use vstd::prelude::*;
use crate::text::dec_str;
use crate::text::push_decimal;

verus! {

/// Millisatoshi bounds for invoice requests, configured once at startup.
#[derive(Clone, Copy, Debug)]
pub struct AmountBounds {
    pub min_sendable_msat: u64,
    pub max_sendable_msat: u64,
}

impl AmountBounds {
    /// The configured minimum never exceeds the maximum.
    pub open spec fn wf(self) -> bool {
        self.min_sendable_msat <= self.max_sendable_msat
    }

    /// Accepts a bounds pair only when it is ordered, as startup does.
    pub fn new(min_sendable_msat: u64, max_sendable_msat: u64) -> (r: Option<AmountBounds>)
        ensures
            r matches Some(b) ==> b.wf() && b.min_sendable_msat == min_sendable_msat
                && b.max_sendable_msat == max_sendable_msat,
            r is None <==> min_sendable_msat > max_sendable_msat,
    {
        if min_sendable_msat <= max_sendable_msat {
            Some(AmountBounds { min_sendable_msat, max_sendable_msat })
        } else {
            None
        }
    }
}

/// Why a requested amount was refused: the request together with the bound
/// it violated, for a human-readable message.
#[derive(Clone, Copy, Debug, PartialEq, Eq, Structural)]
pub enum AmountError {
    BelowMinimum { requested_msat: u64, min_sendable_msat: u64 },
    AboveMaximum { requested_msat: u64, max_sendable_msat: u64 },
}

/// The verdict the validator owes on every input: too low, too high, or
/// accepted, with the violated bound echoed in the error.
pub open spec fn amount_verdict(
    requested_amount: u64,
    min_sendable_msat: u64,
    max_sendable_msat: u64,
) -> Result<(), AmountError> {
    if requested_amount < min_sendable_msat {
        Err(
            AmountError::BelowMinimum {
                requested_msat: requested_amount,
                min_sendable_msat: min_sendable_msat,
            },
        )
    } else if requested_amount > max_sendable_msat {
        Err(
            AmountError::AboveMaximum {
                requested_msat: requested_amount,
                max_sendable_msat: max_sendable_msat,
            },
        )
    } else {
        Ok(())
    }
}

/// Checks a requested amount against the configured bounds.
pub fn validate_invoice_amount(
    requested_amount: u64,
    min_sendable_msat: u64,
    max_sendable_msat: u64,
) -> (r: Result<(), AmountError>)
    ensures
        r == amount_verdict(requested_amount, min_sendable_msat, max_sendable_msat),
{
    if requested_amount < min_sendable_msat {
        Err(
            AmountError::BelowMinimum {
                requested_msat: requested_amount,
                min_sendable_msat: min_sendable_msat,
            },
        )
    } else if requested_amount > max_sendable_msat {
        Err(
            AmountError::AboveMaximum {
                requested_msat: requested_amount,
                max_sendable_msat: max_sendable_msat,
            },
        )
    } else {
        Ok(())
    }
}

impl AmountError {
    /// The reason string for the caller: the request and the violated bound.
    pub open spec fn reason_spec(self) -> Seq<char> {
        match self {
            AmountError::BelowMinimum { requested_msat, min_sendable_msat } => "`amount` below minimum: "@
                + dec_str(requested_msat as int) + "<"@ + dec_str(min_sendable_msat as int),
            AmountError::AboveMaximum { requested_msat, max_sendable_msat } => "`amount` above maximum: "@
                + dec_str(requested_msat as int) + ">"@ + dec_str(max_sendable_msat as int),
        }
    }

    /// Renders the reason for the rejection.
    pub fn reason(&self) -> (r: String)
        ensures
            r@ == self.reason_spec(),
    {
        let mut out = String::new();
        match self {
            AmountError::BelowMinimum { requested_msat, min_sendable_msat } => {
                out.append("`amount` below minimum: ");
                push_decimal(&mut out, *requested_msat);
                out.append("<");
                push_decimal(&mut out, *min_sendable_msat);
            },
            AmountError::AboveMaximum { requested_msat, max_sendable_msat } => {
                out.append("`amount` above maximum: ");
                push_decimal(&mut out, *requested_msat);
                out.append(">");
                push_decimal(&mut out, *max_sendable_msat);
            },
        }
        proof {
            assert(out@ =~= self.reason_spec());
        }
        out
    }
}

} // verus!
