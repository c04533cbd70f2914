use crate::math::BPS_DENOMINATOR;
use vstd::prelude::*;
use vstd::string::StringExecFns;

verus! {

/// Why the registry of pairs refuses.
#[derive(Clone, Debug, PartialEq, Eq)]
pub enum ContractError {
    /// An error of the host, with its message.
    Std(String),
    Unauthorized,
    PairWasCreated,
    PairWasRegistered,
    PairConfigDuplicate,
    PairConfigInvalidFeeBps,
    PairConfigNotFound,
    PairConfigDisabled,
    DoublingAssets,
}

/// The kind of a pair.
#[derive(Clone, Debug, PartialEq, Eq)]
pub enum PairType {
    Xyk,
    Stable,
    Custom(String),
}

/// What the registry holds for a kind of pair: its fees in basis points,
/// and whether pairs of the kind are switched off.
#[derive(Clone, Copy, Debug, PartialEq, Eq, Structural)]
pub struct PairConfig {
    pub total_fee_bps: u64,
    pub maker_fee_bps: u64,
    pub is_disabled: bool,
}

impl ContractError {
    /// The message of the error.
    pub open spec fn message(self) -> Seq<char> {
        match self {
            ContractError::Std(m) => m@,
            ContractError::Unauthorized => "Unauthorized"@,
            ContractError::PairWasCreated => "Pair was already created"@,
            ContractError::PairWasRegistered => "Pair was already registered"@,
            ContractError::PairConfigDuplicate => "Duplicate of pair configs"@,
            ContractError::PairConfigInvalidFeeBps => "Fee bps in pair config must be smaller than or equal to 10,000"@,
            ContractError::PairConfigNotFound => "Pair config not found"@,
            ContractError::PairConfigDisabled => "Pair config disabled"@,
            ContractError::DoublingAssets => "Doubling assets in asset infos"@,
        }
    }

    /// The message of the error, as text.
    pub fn to_string(&self) -> (r: String)
        ensures
            r@ == self.message(),
    {
        match self {
            ContractError::Std(m) => m.clone(),
            ContractError::Unauthorized => String::from_str("Unauthorized"),
            ContractError::PairWasCreated => String::from_str("Pair was already created"),
            ContractError::PairWasRegistered => String::from_str("Pair was already registered"),
            ContractError::PairConfigDuplicate => String::from_str("Duplicate of pair configs"),
            ContractError::PairConfigInvalidFeeBps => String::from_str(
                "Fee bps in pair config must be smaller than or equal to 10,000",
            ),
            ContractError::PairConfigNotFound => String::from_str("Pair config not found"),
            ContractError::PairConfigDisabled => String::from_str("Pair config disabled"),
            ContractError::DoublingAssets => String::from_str("Doubling assets in asset infos"),
        }
    }
}

impl PairConfig {
    /// Whether both fees are at most 10,000 basis points.
    pub fn valid_fee_bps(&self) -> (r: bool)
        ensures
            r == (self.total_fee_bps <= BPS_DENOMINATOR && self.maker_fee_bps <= BPS_DENOMINATOR),
    {
        self.total_fee_bps as u128 <= BPS_DENOMINATOR && self.maker_fee_bps as u128
            <= BPS_DENOMINATOR
    }

    /// The fees of a pair of this kind: the total fee and the part of it
    /// that goes to the fee sweep, in basis points. Refused for fees above
    /// 10,000 basis points, and for a kind that is switched off.
    pub fn fee_bps(&self) -> (r: Result<(u64, u64), ContractError>)
        ensures
            !(self.total_fee_bps <= BPS_DENOMINATOR && self.maker_fee_bps <= BPS_DENOMINATOR)
                ==> r == Err::<(u64, u64), ContractError>(ContractError::PairConfigInvalidFeeBps),
            self.total_fee_bps <= BPS_DENOMINATOR && self.maker_fee_bps <= BPS_DENOMINATOR
                && self.is_disabled ==> r == Err::<(u64, u64), ContractError>(
                ContractError::PairConfigDisabled,
            ),
            self.total_fee_bps <= BPS_DENOMINATOR && self.maker_fee_bps <= BPS_DENOMINATOR
                && !self.is_disabled ==> r == Ok::<(u64, u64), ContractError>(
                (self.total_fee_bps, self.maker_fee_bps),
            ),
    {
        if !self.valid_fee_bps() {
            return Err(ContractError::PairConfigInvalidFeeBps);
        }
        if self.is_disabled {
            return Err(ContractError::PairConfigDisabled);
        }
        Ok((self.total_fee_bps, self.maker_fee_bps))
    }
}

} // verus!
