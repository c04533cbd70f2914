use crate::factory::PairType;
use crate::math::{Decimal, DECIMAL_FRACTION};
use crate::text::{
    decimal_digits, lowercase, push_decimal, to_lowercase, to_uppercase, uppercase,
};
use crate::wide::{mul_decimal, multiply_ratio};
use vstd::prelude::*;
use vstd::string::StrSliceExecFns;
use vstd::string::StringExecFns;

verus! {

/// Longest symbol that enters the name of a liquidity token.
pub const TOKEN_SYMBOL_MAX_LENGTH: usize = 4;

/// Why an asset rule refuses.
#[derive(Clone, Debug, PartialEq, Eq)]
pub enum AssetError {
    /// The funds sent along do not match the amount stated.
    NativeBalanceMismatch,
    /// Tax can be deducted from a native currency only.
    TaxOnToken,
    /// A denomination with a character that is not lowercase.
    DenomNotLowercase { denom: String },
    /// An address with a character that is not lowercase.
    AddressNotLowercase { addr: String },
    /// An address that the host does not accept.
    InvalidAddress { addr: String },
    /// A value that does not fit its type.
    Overflow,
}

/// The mathematical value of an `AssetError`.
pub enum AssetErrorView {
    NativeBalanceMismatch,
    TaxOnToken,
    DenomNotLowercase { denom: Seq<char> },
    AddressNotLowercase { addr: Seq<char> },
    InvalidAddress { addr: Seq<char> },
    Overflow,
}

impl View for AssetError {
    type V = AssetErrorView;

    open spec fn view(&self) -> AssetErrorView {
        match self {
            AssetError::NativeBalanceMismatch => AssetErrorView::NativeBalanceMismatch,
            AssetError::TaxOnToken => AssetErrorView::TaxOnToken,
            AssetError::DenomNotLowercase { denom } => AssetErrorView::DenomNotLowercase {
                denom: denom@,
            },
            AssetError::AddressNotLowercase { addr } => AssetErrorView::AddressNotLowercase {
                addr: addr@,
            },
            AssetError::InvalidAddress { addr } => AssetErrorView::InvalidAddress { addr: addr@ },
            AssetError::Overflow => AssetErrorView::Overflow,
        }
    }
}

/// The verdict on an address: the address itself when it is lowercase and
/// the host accepts it.
pub open spec fn validated_address(addr: Seq<char>, address_valid: bool) -> Result<
    Seq<char>,
    AssetErrorView,
> {
    if lowercase(addr) != addr {
        Err(AssetErrorView::AddressNotLowercase { addr })
    } else if !address_valid {
        Err(AssetErrorView::InvalidAddress { addr })
    } else {
        Ok(addr)
    }
}

/// The verdict on an asset identifier.
pub open spec fn checked_info(info: AssetInfoView, address_valid: bool) -> Result<
    (),
    AssetErrorView,
> {
    match info {
        AssetInfoView::NativeToken { denom } => if lowercase(denom) != denom {
            Err(AssetErrorView::DenomNotLowercase { denom })
        } else {
            Ok(())
        },
        AssetInfoView::Token { contract_addr } => match validated_address(
            contract_addr,
            address_valid,
        ) {
            Ok(_) => Ok(()),
            Err(e) => Err(e),
        },
    }
}

/// What identifies an asset: a token contract by its address, or a native
/// currency by its denomination.
#[derive(Clone, Debug, PartialEq, Eq)]
pub enum AssetInfo {
    Token { contract_addr: String },
    NativeToken { denom: String },
}

/// The mathematical value of an `AssetInfo`.
pub enum AssetInfoView {
    Token { contract_addr: Seq<char> },
    NativeToken { denom: Seq<char> },
}

impl View for AssetInfo {
    type V = AssetInfoView;

    open spec fn view(&self) -> AssetInfoView {
        match self {
            AssetInfo::Token { contract_addr } => AssetInfoView::Token {
                contract_addr: contract_addr@,
            },
            AssetInfo::NativeToken { denom } => AssetInfoView::NativeToken { denom: denom@ },
        }
    }
}

impl AssetInfoView {
    /// The address or the denomination.
    pub open spec fn text(self) -> Seq<char> {
        match self {
            AssetInfoView::Token { contract_addr } => contract_addr,
            AssetInfoView::NativeToken { denom } => denom,
        }
    }
}

/// An amount of a native currency.
#[derive(Clone, Debug, PartialEq, Eq)]
pub struct Coin {
    pub denom: String,
    pub amount: u128,
}

/// An amount of an asset.
#[derive(Clone, Debug, PartialEq, Eq)]
pub struct Asset {
    pub info: AssetInfo,
    pub amount: u128,
}

/// The transfer that pays an asset out.
#[derive(Clone, Debug, PartialEq, Eq)]
pub enum TransferMsg {
    /// A transfer of `amount` by the token contract at `contract_addr`.
    Token { contract_addr: String, recipient: String, amount: u128 },
    /// A bank transfer of `amount`, the tax already deducted.
    Native { to_address: String, coin: Coin },
}

/// The tax on a transfer of `amount` of a native currency at the rate of
/// `rate` units of 10^-18 and under the cap `cap`: what the amount holds
/// above its untaxed part `amount / (1 + rate)`, but no more than the cap.
pub open spec fn tax_of(amount: int, rate: int, cap: int) -> int {
    let untaxed = amount * DECIMAL_FRACTION / (rate + DECIMAL_FRACTION);
    if amount - untaxed <= cap {
        amount - untaxed
    } else {
        cap
    }
}

/// The tax on an amount is never more than the amount or the cap.
pub proof fn lemma_tax_bounds(amount: int, rate: int, cap: int)
    requires
        amount >= 0,
        rate >= 0,
        cap >= 0,
    ensures
        0 <= tax_of(amount, rate, cap) <= amount,
        tax_of(amount, rate, cap) <= cap,
        0 <= amount * DECIMAL_FRACTION / (rate + DECIMAL_FRACTION) <= amount,
{
    let f = DECIMAL_FRACTION as int;
    let d = rate + f;
    assert(0 <= amount * f <= amount * d) by (nonlinear_arith)
        requires
            amount >= 0,
            0 <= f <= d,
    ;
    vstd::arithmetic::div_mod::lemma_div_is_ordered(0, amount * f, d);
    vstd::arithmetic::div_mod::lemma_div_is_ordered(amount * f, amount * d, d);
    vstd::arithmetic::div_mod::lemma_div_multiples_vanish(amount, d);
    assert(amount * d == d * amount) by (nonlinear_arith);
    assert(0int / d == 0) by (nonlinear_arith)
        requires
            d > 0,
    ;
}

/// The amount sent along in the first coin of the given denomination.
pub open spec fn sent_amount(funds: Seq<Coin>, denom: Seq<char>) -> Option<u128>
    decreases funds.len(),
{
    if funds.len() == 0 {
        None
    } else if funds[0].denom@ == denom {
        Some(funds[0].amount)
    } else {
        sent_amount(funds.subrange(1, funds.len() as int), denom)
    }
}

impl AssetInfo {
    /// Whether the asset is a native currency.
    pub fn is_native_token(&self) -> (r: bool)
        ensures
            r == (self@ is NativeToken),
    {
        match self {
            AssetInfo::NativeToken { .. } => true,
            AssetInfo::Token { .. } => false,
        }
    }

    /// Whether two identifiers name the same asset: the same kind, and the
    /// same address or denomination.
    pub fn equal(&self, asset: &AssetInfo) -> (r: bool)
        ensures
            r == (self@ == asset@),
    {
        match self {
            AssetInfo::Token { contract_addr } => {
                let self_contract_addr = contract_addr;
                match asset {
                    AssetInfo::Token { contract_addr } => *self_contract_addr == *contract_addr,
                    AssetInfo::NativeToken { .. } => false,
                }
            },
            AssetInfo::NativeToken { denom } => {
                let self_denom = denom;
                match asset {
                    AssetInfo::Token { .. } => false,
                    AssetInfo::NativeToken { denom } => *self_denom == *denom,
                }
            },
        }
    }

    /// A copy of the identifier.
    pub fn duplicate(&self) -> (r: AssetInfo)
        ensures
            r@ == self@,
    {
        match self {
            AssetInfo::Token { contract_addr } => AssetInfo::Token {
                contract_addr: contract_addr.clone(),
            },
            AssetInfo::NativeToken { denom } => AssetInfo::NativeToken { denom: denom.clone() },
        }
    }

    /// The bytes of the address or of the denomination, in UTF-8.
    pub fn as_bytes(&self) -> (r: &[u8])
        ensures
            r@ == vstd::utf8::encode_utf8(self@.text()),
    {
        match self {
            AssetInfo::NativeToken { denom } => denom.as_str().as_bytes(),
            AssetInfo::Token { contract_addr } => contract_addr.as_str().as_bytes(),
        }
    }

    /// The address or the denomination as text.
    pub fn to_string(&self) -> (r: String)
        ensures
            r@ == self@.text(),
    {
        match self {
            AssetInfo::NativeToken { denom } => denom.clone(),
            AssetInfo::Token { contract_addr } => contract_addr.clone(),
        }
    }

    /// Checks the identifier: a denomination must be lowercase; an address
    /// must be lowercase and accepted by the host, whose verdict on the
    /// address is `address_valid`.
    pub fn check(&self, address_valid: bool) -> (r: Result<(), AssetError>)
        ensures
            match checked_info(self@, address_valid) {
                Ok(_) => r == Ok::<(), AssetError>(()),
                Err(e) => r matches Err(x) && x@ == e,
            },
    {
        let lowered: String = match self {
            AssetInfo::Token { contract_addr } => to_lowercase(contract_addr.as_str()),
            AssetInfo::NativeToken { denom } => to_lowercase(denom.as_str()),
        };
        self.check_against(&lowered, address_valid)
    }

    /// Checks the identifier against `lowered`, its address or denomination
    /// in lowercase: the two must be the same, and an address must be
    /// accepted by the host, whose verdict on it is `address_valid`.
    pub fn check_against(&self, lowered: &String, address_valid: bool) -> (r: Result<
        (),
        AssetError,
    >)
        ensures
            match self@ {
                AssetInfoView::NativeToken { denom } => if lowered@ != denom {
                    r matches Err(x) && x@ == (AssetErrorView::DenomNotLowercase { denom })
                } else {
                    r == Ok::<(), AssetError>(())
                },
                AssetInfoView::Token { contract_addr } => if lowered@ != contract_addr {
                    r matches Err(x) && x@ == (AssetErrorView::AddressNotLowercase {
                        addr: contract_addr,
                    })
                } else if !address_valid {
                    r matches Err(x) && x@ == (AssetErrorView::InvalidAddress {
                        addr: contract_addr,
                    })
                } else {
                    r == Ok::<(), AssetError>(())
                },
            },
    {
        match self {
            AssetInfo::Token { contract_addr } => {
                match validate_against(contract_addr.as_str(), lowered, address_valid) {
                    Ok(_) => Ok(()),
                    Err(e) => Err(e),
                }
            },
            AssetInfo::NativeToken { denom } => {
                if *lowered != *denom {
                    return Err(AssetError::DenomNotLowercase { denom: denom.clone() });
                }
                Ok(())
            },
        }
    }
}

/// Accepts an address that is lowercase and that the host accepts, whose
/// verdict on the address is `address_valid`; returns the address.
pub fn addr_validate_to_lower(addr: &str, address_valid: bool) -> (r: Result<String, AssetError>)
    ensures
        match validated_address(addr@, address_valid) {
            Ok(a) => r matches Ok(x) && x@ == a,
            Err(e) => r matches Err(x) && x@ == e,
        },
{
    let lowered: String = to_lowercase(addr);
    validate_against(addr, &lowered, address_valid)
}

/// Accepts an address that is the same as `lowered`, its form in lowercase,
/// and that the host accepts, whose verdict on the address is
/// `address_valid`; returns the address.
pub fn validate_against(addr: &str, lowered: &String, address_valid: bool) -> (r: Result<
    String,
    AssetError,
>)
    ensures
        lowered@ != addr@ ==> (r matches Err(x) && x@ == (AssetErrorView::AddressNotLowercase {
            addr: addr@,
        })),
        lowered@ == addr@ && !address_valid ==> (r matches Err(x) && x@ == (
        AssetErrorView::InvalidAddress { addr: addr@ })),
        lowered@ == addr@ && address_valid ==> (r matches Ok(x) && x@ == addr@),
{
    let own: String = String::from_str(addr);
    if *lowered != own {
        return Err(AssetError::AddressNotLowercase { addr: own });
    }
    if !address_valid {
        return Err(AssetError::InvalidAddress { addr: own });
    }
    Ok(own)
}

impl Asset {
    /// Whether the asset is a native currency.
    pub fn is_native_token(&self) -> (r: bool)
        ensures
            r == (self.info@ is NativeToken),
    {
        self.info.is_native_token()
    }

    /// The amount followed by the address or the denomination.
    pub fn to_string(&self) -> (r: String)
        ensures
            r@ == decimal_digits(self.amount as nat) + self.info@.text(),
    {
        let mut s = String::new();
        push_decimal(&mut s, self.amount);
        let name: String = self.info.to_string();
        s.append(name.as_str());
        assert(s@ =~= decimal_digits(self.amount as nat) + self.info@.text());
        s
    }

    /// The tax on a transfer of the asset, at the tax rate `tax_rate` and
    /// under the cap `tax_cap` of its denomination. A token bears no tax.
    pub fn compute_tax(&self, tax_rate: Decimal, tax_cap: u128) -> (r: Result<u128, AssetError>)
        ensures
            self.info@ is Token ==> r == Ok::<u128, AssetError>(0),
            self.info@ is NativeToken && tax_rate.atomics + DECIMAL_FRACTION <= u128::MAX ==> r
                == Ok::<u128, AssetError>(
                tax_of(self.amount as int, tax_rate.atomics as int, tax_cap as int) as u128,
            ),
            self.info@ is NativeToken && tax_rate.atomics + DECIMAL_FRACTION > u128::MAX ==> r
                == Err::<u128, AssetError>(AssetError::Overflow),
    {
        let amount: u128 = self.amount;
        match &self.info {
            AssetInfo::NativeToken { .. } => {
                proof {
                    assert(DECIMAL_FRACTION as int * tax_rate.atomics as int
                        / 1_000_000_000_000_000_000 == tax_rate.atomics) by (nonlinear_arith)
                        requires
                            DECIMAL_FRACTION == 1_000_000_000_000_000_000,
                    ;
                }
                let scaled_rate: u128 = mul_decimal(DECIMAL_FRACTION, tax_rate.atomics);
                let divisor: u128 = match scaled_rate.checked_add(DECIMAL_FRACTION) {
                    Some(v) => v,
                    None => {
                        return Err(AssetError::Overflow);
                    },
                };
                proof {
                    lemma_tax_bounds(amount as int, tax_rate.atomics as int, tax_cap as int);
                }
                let untaxed: u128 = multiply_ratio(amount, DECIMAL_FRACTION, divisor);
                let tax: u128 = amount - untaxed;
                if tax <= tax_cap {
                    Ok(tax)
                } else {
                    Ok(tax_cap)
                }
            },
            AssetInfo::Token { .. } => Ok(0),
        }
    }

    /// What a transfer of the asset delivers once the tax is taken off. Only
    /// a native currency can be taxed.
    pub fn deduct_tax(&self, tax_rate: Decimal, tax_cap: u128) -> (r: Result<Coin, AssetError>)
        ensures
            self.info@ is Token ==> r == Err::<Coin, AssetError>(AssetError::TaxOnToken),
            self.info@ is NativeToken && tax_rate.atomics + DECIMAL_FRACTION > u128::MAX ==> r
                == Err::<Coin, AssetError>(AssetError::Overflow),
            self.info@ is NativeToken && tax_rate.atomics + DECIMAL_FRACTION <= u128::MAX ==> (r
                matches Ok(coin) && coin.denom@ == self.info@.text() && coin.amount == self.amount
                - tax_of(self.amount as int, tax_rate.atomics as int, tax_cap as int)),
    {
        let amount: u128 = self.amount;
        match &self.info {
            AssetInfo::NativeToken { denom } => {
                let tax: u128 = self.compute_tax(tax_rate, tax_cap)?;
                proof {
                    lemma_tax_bounds(amount as int, tax_rate.atomics as int, tax_cap as int);
                }
                Ok(Coin { denom: denom.clone(), amount: amount - tax })
            },
            AssetInfo::Token { .. } => Err(AssetError::TaxOnToken),
        }
    }

    /// The transfer that pays the asset out to `recipient`: by the token
    /// contract for a token, in full; by the bank for a native currency,
    /// less the tax.
    pub fn into_msg(self, tax_rate: Decimal, tax_cap: u128, recipient: String) -> (r: Result<
        TransferMsg,
        AssetError,
    >)
        ensures
            self.info@ is Token ==> (r matches Ok(
                TransferMsg::Token { contract_addr, recipient: to, amount },
            ) && contract_addr@ == self.info@.text() && to@ == recipient@ && amount
                == self.amount),
            self.info@ is NativeToken && tax_rate.atomics + DECIMAL_FRACTION > u128::MAX ==> r
                == Err::<TransferMsg, AssetError>(AssetError::Overflow),
            self.info@ is NativeToken && tax_rate.atomics + DECIMAL_FRACTION <= u128::MAX ==> (r
                matches Ok(TransferMsg::Native { to_address, coin }) && to_address@ == recipient@
                && coin.denom@ == self.info@.text() && coin.amount == self.amount - tax_of(
                self.amount as int,
                tax_rate.atomics as int,
                tax_cap as int,
            )),
    {
        let amount: u128 = self.amount;
        match &self.info {
            AssetInfo::Token { contract_addr } => Ok(
                TransferMsg::Token { contract_addr: contract_addr.clone(), recipient, amount },
            ),
            AssetInfo::NativeToken { .. } => {
                let coin: Coin = self.deduct_tax(tax_rate, tax_cap)?;
                Ok(TransferMsg::Native { to_address: recipient, coin })
            },
        }
    }

    /// Checks that the funds sent along hold exactly the amount stated of a
    /// native currency: the first coin of its denomination holds that
    /// amount, or there is no such coin and the amount is zero. Nothing is
    /// asked of a token.
    pub fn assert_sent_native_token_balance(&self, funds: &Vec<Coin>) -> (r: Result<
        (),
        AssetError,
    >)
        ensures
            match self.info@ {
                AssetInfoView::Token { .. } => r == Ok::<(), AssetError>(()),
                AssetInfoView::NativeToken { denom } => {
                    let matches = match sent_amount(funds@, denom) {
                        Some(a) => a == self.amount,
                        None => self.amount == 0,
                    };
                    if matches {
                        r == Ok::<(), AssetError>(())
                    } else {
                        r == Err::<(), AssetError>(AssetError::NativeBalanceMismatch)
                    }
                },
            },
    {
        match &self.info {
            AssetInfo::NativeToken { denom } => {
                let mut i: usize = 0;
                assert(funds@.subrange(0, funds.len() as int) =~= funds@);
                while i < funds.len()
                    invariant
                        i <= funds.len(),
                        self.info@ == (AssetInfoView::NativeToken { denom: denom@ }),
                        sent_amount(funds@, denom@) == sent_amount(
                            funds@.subrange(i as int, funds.len() as int),
                            denom@,
                        ),
                    decreases funds.len() - i,
                {
                    let ghost rest = funds@.subrange(i as int, funds.len() as int);
                    assert(rest[0] == funds@[i as int]);
                    assert(rest.subrange(1, rest.len() as int) =~= funds@.subrange(
                        i as int + 1,
                        funds.len() as int,
                    ));
                    if funds[i].denom == *denom {
                        if self.amount == funds[i].amount {
                            return Ok(());
                        } else {
                            return Err(AssetError::NativeBalanceMismatch);
                        }
                    }
                    i = i + 1;
                }
                assert(funds@.subrange(i as int, funds.len() as int).len() == 0);
                if self.amount == 0 {
                    Ok(())
                } else {
                    Err(AssetError::NativeBalanceMismatch)
                }
            },
            AssetInfo::Token { .. } => Ok(()),
        }
    }
}

/// The first `TOKEN_SYMBOL_MAX_LENGTH` characters of a symbol, or all of it
/// when it is shorter.
pub open spec fn short_symbol(symbol: Seq<char>) -> Seq<char> {
    if symbol.len() <= TOKEN_SYMBOL_MAX_LENGTH {
        symbol
    } else {
        symbol.subrange(0, TOKEN_SYMBOL_MAX_LENGTH as int)
    }
}

/// The symbol under which an asset enters the name of a liquidity token: the
/// denomination of a native currency, or the symbol that the token contract
/// reports.
pub open spec fn symbol_source(info: AssetInfoView, token_symbol: Seq<char>) -> Seq<char> {
    match info {
        AssetInfoView::NativeToken { denom } => denom,
        AssetInfoView::Token { .. } => token_symbol,
    }
}

fn shorten(symbol: &str) -> (r: String)
    ensures
        r@ == short_symbol(symbol@),
{
    let n: usize = symbol.unicode_len();
    if n <= TOKEN_SYMBOL_MAX_LENGTH {
        String::from_str(symbol)
    } else {
        String::from_str(symbol.substring_char(0, TOKEN_SYMBOL_MAX_LENGTH))
    }
}

/// The name of the liquidity token of a pair before it is put in uppercase:
/// the two short symbols and `LP`, joined by hyphens.
pub open spec fn lp_token_name(
    info0: AssetInfoView,
    info1: AssetInfoView,
    token_symbol0: Seq<char>,
    token_symbol1: Seq<char>,
) -> Seq<char> {
    short_symbol(symbol_source(info0, token_symbol0)) + "-"@ + short_symbol(
        symbol_source(info1, token_symbol1),
    ) + "-LP"@
}

/// Joins the two short symbols of a pair and `LP` by hyphens.
/// `token_symbol0` and `token_symbol1` are the symbols that the token
/// contracts report; they are read for tokens only.
pub fn join_lp_token_name(
    asset_infos: &[AssetInfo; 2],
    token_symbol0: &str,
    token_symbol1: &str,
) -> (r: String)
    ensures
        r@ == lp_token_name(asset_infos[0]@, asset_infos[1]@, token_symbol0@, token_symbol1@),
{
    let first: String = match &asset_infos[0] {
        AssetInfo::NativeToken { denom } => shorten(denom.as_str()),
        AssetInfo::Token { .. } => shorten(token_symbol0),
    };
    let second: String = match &asset_infos[1] {
        AssetInfo::NativeToken { denom } => shorten(denom.as_str()),
        AssetInfo::Token { .. } => shorten(token_symbol1),
    };
    let mut name: String = first;
    name.append("-");
    name.append(second.as_str());
    name.append("-LP");
    name
}

/// The name of the liquidity token of a pair: the two short symbols and
/// `LP`, joined by hyphens, in uppercase. `token_symbol0` and
/// `token_symbol1` are the symbols that the token contracts report; they are
/// read for tokens only.
pub fn format_lp_token_name(
    asset_infos: &[AssetInfo; 2],
    token_symbol0: &str,
    token_symbol1: &str,
) -> (r: String)
    ensures
        r@ == uppercase(
            lp_token_name(asset_infos[0]@, asset_infos[1]@, token_symbol0@, token_symbol1@),
        ),
{
    let name: String = join_lp_token_name(asset_infos, token_symbol0, token_symbol1);
    to_uppercase(name.as_str())
}

impl AssetErrorView {
    /// The message of the error.
    pub open spec fn message(self) -> Seq<char> {
        match self {
            AssetErrorView::NativeBalanceMismatch => "Native token balance mismatch between the argument and the transferred"@,
            AssetErrorView::TaxOnToken => "cannot deduct tax from token asset"@,
            AssetErrorView::DenomNotLowercase { denom } => "Native token denom "@ + denom
                + " should be lowercase"@,
            AssetErrorView::AddressNotLowercase { addr } => "Address "@ + addr
                + " should be lowercase"@,
            AssetErrorView::InvalidAddress { addr } => "Invalid address "@ + addr,
            AssetErrorView::Overflow => "Overflow"@,
        }
    }
}

impl AssetError {
    /// The message of the error, as text.
    pub fn to_string(&self) -> (r: String)
        ensures
            r@ == self@.message(),
    {
        match self {
            AssetError::NativeBalanceMismatch => String::from_str(
                "Native token balance mismatch between the argument and the transferred",
            ),
            AssetError::TaxOnToken => String::from_str("cannot deduct tax from token asset"),
            AssetError::DenomNotLowercase { denom } => {
                let mut s = String::from_str("Native token denom ");
                s.append(denom.as_str());
                s.append(" should be lowercase");
                s
            },
            AssetError::AddressNotLowercase { addr } => {
                let mut s = String::from_str("Address ");
                s.append(addr.as_str());
                s.append(" should be lowercase");
                s
            },
            AssetError::InvalidAddress { addr } => {
                let mut s = String::from_str("Invalid address ");
                s.append(addr.as_str());
                s
            },
            AssetError::Overflow => String::from_str("Overflow"),
        }
    }
}

/// What the registry reports of a pair.
#[derive(Clone, Debug, PartialEq, Eq)]
pub struct PairInfo {
    pub asset_infos: [AssetInfo; 2],
    pub contract_addr: String,
    pub liquidity_token: String,
    pub pair_type: PairType,
}

impl PairInfo {
    /// The two assets of the pair, each with what the pair holds of it.
    /// `balance0` and `balance1` are the balances that the pair is found to
    /// hold.
    pub fn query_pools(&self, balance0: u128, balance1: u128) -> (r: [Asset; 2])
        ensures
            r[0].info@ == self.asset_infos[0]@,
            r[0].amount == balance0,
            r[1].info@ == self.asset_infos[1]@,
            r[1].amount == balance1,
    {
        [
            Asset { amount: balance0, info: self.asset_infos[0].duplicate() },
            Asset { amount: balance1, info: self.asset_infos[1].duplicate() },
        ]
    }
}

} // verus!
