use crate::asset::{addr_validate_to_lower, validated_address, AssetError, AssetErrorView};
use vstd::prelude::*;
use vstd::string::StringExecFns;

verus! {

/// Why the liquidity token cannot be set up.
#[derive(Clone, Debug, PartialEq, Eq)]
pub enum TokenError {
    /// The address of the minter was refused.
    Std(AssetError),
    /// More tokens are handed out at the start than may ever exist.
    SupplyAboveCap,
}

/// The mathematical value of a `TokenError`.
pub enum TokenErrorView {
    Std(AssetErrorView),
    SupplyAboveCap,
}

impl View for TokenError {
    type V = TokenErrorView;

    open spec fn view(&self) -> TokenErrorView {
        match self {
            TokenError::Std(e) => TokenErrorView::Std(e@),
            TokenError::SupplyAboveCap => TokenErrorView::SupplyAboveCap,
        }
    }
}

/// An account and what it holds at the start.
#[derive(Clone, Debug, PartialEq, Eq)]
pub struct Cw20Coin {
    pub address: String,
    pub amount: u128,
}

/// Who may mint, and up to which total supply.
#[derive(Clone, Debug, PartialEq, Eq)]
pub struct MinterResponse {
    pub minter: String,
    pub cap: Option<u128>,
}

/// What the token is set up with.
#[derive(Clone, Debug, PartialEq, Eq)]
pub struct InstantiateMsg {
    pub name: String,
    pub symbol: String,
    pub decimals: u8,
    pub initial_balances: Vec<Cw20Coin>,
    pub mint: Option<MinterResponse>,
}

/// Who may mint, once the address is checked.
#[derive(Clone, Debug, PartialEq, Eq)]
pub struct MinterData {
    pub minter: String,
    pub cap: Option<u128>,
}

/// What the token stores of itself.
#[derive(Clone, Debug, PartialEq, Eq)]
pub struct TokenInfo {
    pub name: String,
    pub symbol: String,
    pub decimals: u8,
    pub total_supply: u128,
    pub mint: Option<MinterData>,
}

/// The cap on the total supply that a message names, if any.
pub open spec fn cap_of(mint: Option<MinterResponse>) -> Option<u128> {
    match mint {
        Some(m) => m.cap,
        None => None,
    }
}

impl InstantiateMsg {
    /// The cap on the total supply, if the message names one.
    pub fn get_cap(&self) -> (r: Option<u128>)
        ensures
            r == cap_of(self.mint),
    {
        match &self.mint {
            Some(m) => m.cap,
            None => None,
        }
    }
}

/// Why a token cannot be set up with `total_supply` tokens handed out at the
/// start; `None` when it can. The supply is held against the cap first, then
/// the address of the minter is checked.
pub open spec fn setup_refusal(
    mint: Option<MinterResponse>,
    total_supply: u128,
    minter_valid: bool,
) -> Option<TokenErrorView> {
    if cap_of(mint).is_some() && total_supply > cap_of(mint).unwrap() {
        Some(TokenErrorView::SupplyAboveCap)
    } else if mint.is_some() && validated_address(mint.unwrap().minter@, minter_valid) is Err {
        Some(TokenErrorView::Std(validated_address(mint.unwrap().minter@, minter_valid)->Err_0))
    } else {
        None
    }
}

/// Sets the token up: checks the message and returns what the token stores.
///
/// `total_supply` is the sum of the balances handed out at the start, and
/// `minter_valid` the host's verdict on the address of the minter.
pub fn instantiate(msg: InstantiateMsg, total_supply: u128, minter_valid: bool) -> (r: Result<
    TokenInfo,
    TokenError,
>)
    ensures
        match setup_refusal(msg.mint, total_supply, minter_valid) {
            Some(e) => r matches Err(x) && x@ == e,
            None => r matches Ok(info) && info.name@ == msg.name@ && info.symbol@ == msg.symbol@
                && info.decimals == msg.decimals && info.total_supply == total_supply && match (
                info.mint,
                msg.mint,
            ) {
                (Some(d), Some(m)) => d.minter@ == m.minter@ && d.cap == m.cap,
                (None, None) => true,
                _ => false,
            },
        },
{
    if let Some(limit) = msg.get_cap() {
        if total_supply > limit {
            return Err(TokenError::SupplyAboveCap);
        }
    }
    let mint: Option<MinterData> = match &msg.mint {
        Some(m) => {
            let minter: String = match addr_validate_to_lower(m.minter.as_str(), minter_valid) {
                Ok(a) => a,
                Err(e) => {
                    return Err(TokenError::Std(e));
                },
            };
            Some(MinterData { minter, cap: m.cap })
        },
        None => None,
    };
    Ok(
        TokenInfo {
            name: msg.name,
            symbol: msg.symbol,
            decimals: msg.decimals,
            total_supply,
            mint,
        },
    )
}

impl TokenErrorView {
    /// The message of the error.
    pub open spec fn message(self) -> Seq<char> {
        match self {
            TokenErrorView::Std(e) => e.message(),
            TokenErrorView::SupplyAboveCap => "Initial supply greater than cap"@,
        }
    }
}

impl TokenError {
    /// The message of the error, as text.
    pub fn to_string(&self) -> (r: String)
        ensures
            r@ == self@.message(),
    {
        match self {
            TokenError::Std(e) => e.to_string(),
            TokenError::SupplyAboveCap => String::from_str("Initial supply greater than cap"),
        }
    }
}

} // verus!
