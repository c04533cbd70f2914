use crate::math::{MAX_AMP, MAX_AMP_CHANGE, MIN_AMP_CHANGING_TIME};
use crate::text::{decimal_digits, push_decimal};
use vstd::prelude::*;
use vstd::string::StringExecFns;

verus! {

/// Everything that can make a pool operation fail.
///
/// An operation that returns one of these leaves the pool as it was.
#[derive(Clone, Copy, Debug, PartialEq, Eq, Structural)]
pub enum PoolError {
    /// The requested amplification is zero or above the ceiling.
    IncorrectAmp,
    /// The requested amplification is too far from the current one.
    MaxAmpChangeAssertion,
    /// The ramp starts too soon after the last one, or ends too soon.
    MinAmpChangingTimeAssertion,
    /// A fee above 10,000 basis points.
    InvalidFeeBps,
    /// Both assets of the pair are the same.
    DoublingAssets,
    /// A number of decimal places that the pool cannot scale to.
    InvalidPrecision,
    /// The caller may not perform this operation.
    Unauthorized,
    /// The computed share amount is below the caller's minimum, or the
    /// deposit ratio is outside the caller's tolerance.
    SlippageExceeded,
    /// The swap returns less than the caller's belief price allows.
    MaxSpreadAssertion,
    /// A balance or a supply is too small for the operation.
    InsufficientFunds,
    /// An intermediate or final value does not fit its type.
    Overflow,
    /// A subtraction would go below zero.
    Underflow,
    /// The solver did not settle within its iteration bound.
    ConvergenceFailure,
    /// The asset offered is not one of the pool's two assets.
    AssetMismatch,
    /// The registry has switched the pair off.
    PairDisabled,
}

impl PoolError {
    /// The message of the error.
    pub open spec fn message(self) -> Seq<char> {
        match self {
            PoolError::IncorrectAmp => "Amp coefficient must be greater than 0 and less than or equal to "@
                + decimal_digits(MAX_AMP as nat),
            PoolError::MaxAmpChangeAssertion => "The difference between the old and new amp value must not exceed "@
                + decimal_digits(MAX_AMP_CHANGE as nat) + " times"@,
            PoolError::MinAmpChangingTimeAssertion => "Amp coefficient cannot be changed more often than once per "@
                + decimal_digits(MIN_AMP_CHANGING_TIME as nat) + " seconds"@,
            PoolError::InvalidFeeBps => "Fee bps in pair config must be smaller than or equal to 10,000"@,
            PoolError::DoublingAssets => "Doubling assets in asset infos"@,
            PoolError::InvalidPrecision => "Asset precision must not exceed 38"@,
            PoolError::Unauthorized => "Unauthorized"@,
            PoolError::SlippageExceeded => "Operation exceeds max slippage tolerance"@,
            PoolError::MaxSpreadAssertion => "Operation exceeds max spread limit"@,
            PoolError::InsufficientFunds => "Insufficient funds"@,
            PoolError::Overflow => "Overflow"@,
            PoolError::Underflow => "Underflow"@,
            PoolError::ConvergenceFailure => "Invariant computation did not converge"@,
            PoolError::AssetMismatch => "Asset mismatch"@,
            PoolError::PairDisabled => "Pair config disabled"@,
        }
    }

    /// The message of the error, as text.
    pub fn to_string(&self) -> (r: String)
        ensures
            r@ == self.message(),
    {
        match self {
            PoolError::IncorrectAmp => {
                let mut s = String::from_str(
                    "Amp coefficient must be greater than 0 and less than or equal to ",
                );
                push_decimal(&mut s, MAX_AMP as u128);
                s
            },
            PoolError::MaxAmpChangeAssertion => {
                let mut s = String::from_str(
                    "The difference between the old and new amp value must not exceed ",
                );
                push_decimal(&mut s, MAX_AMP_CHANGE as u128);
                s.append(" times");
                s
            },
            PoolError::MinAmpChangingTimeAssertion => {
                let mut s = String::from_str(
                    "Amp coefficient cannot be changed more often than once per ",
                );
                push_decimal(&mut s, MIN_AMP_CHANGING_TIME as u128);
                s.append(" seconds");
                s
            },
            PoolError::InvalidFeeBps => String::from_str(
                "Fee bps in pair config must be smaller than or equal to 10,000",
            ),
            PoolError::DoublingAssets => String::from_str("Doubling assets in asset infos"),
            PoolError::InvalidPrecision => String::from_str("Asset precision must not exceed 38"),
            PoolError::Unauthorized => String::from_str("Unauthorized"),
            PoolError::SlippageExceeded => String::from_str(
                "Operation exceeds max slippage tolerance",
            ),
            PoolError::MaxSpreadAssertion => String::from_str("Operation exceeds max spread limit"),
            PoolError::InsufficientFunds => String::from_str("Insufficient funds"),
            PoolError::Overflow => String::from_str("Overflow"),
            PoolError::Underflow => String::from_str("Underflow"),
            PoolError::ConvergenceFailure => String::from_str(
                "Invariant computation did not converge",
            ),
            PoolError::AssetMismatch => String::from_str("Asset mismatch"),
            PoolError::PairDisabled => String::from_str("Pair config disabled"),
        }
    }
}

} // verus!
