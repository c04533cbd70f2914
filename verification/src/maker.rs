use crate::asset::{
    addr_validate_to_lower, lemma_tax_bounds, tax_of, validated_address, Asset, AssetError,
    AssetErrorView, AssetInfo, AssetInfoView, Coin, TransferMsg,
};
use crate::common::{
    claim_ownership, drop_ownership_proposal, propose_new_owner, proposed, OwnershipError,
    OwnershipErrorView, OwnershipProposal,
};
use crate::math::{Decimal, DECIMAL_FRACTION};
use crate::text::{decimal_digits, decimal_string};
use crate::wide::{decimal_text, decimal_to_string, multiply_ratio};
use vstd::prelude::*;
use vstd::string::StringExecFns;

verus! {

/// The spread allowed on swaps when none is configured, in hundredths.
pub const DEFAULT_MAX_SPREAD: u64 = 5;

/// Largest share of the proceeds that governance may get, in hundredths.
pub const MAX_GOVERNANCE_PERCENT: u64 = 100;

/// Why the fee sweep refuses.
#[derive(Clone, Debug, PartialEq, Eq)]
pub enum MakerError {
    /// An address or an asset was refused.
    Std(AssetError),
    /// The sender is not the owner.
    Unauthorized,
    /// A governance share above one hundred hundredths.
    IncorrectGovernancePercent,
    /// A spread above one.
    IncorrectMaxSpread,
    /// No pair trades the two assets.
    PairNotFound(AssetInfo, AssetInfo),
    /// A change of owner was refused.
    Ownership(OwnershipError),
}

/// The mathematical value of a `MakerError`.
pub enum MakerErrorView {
    Std(AssetErrorView),
    Unauthorized,
    IncorrectGovernancePercent,
    IncorrectMaxSpread,
    PairNotFound(AssetInfoView, AssetInfoView),
    Ownership(OwnershipErrorView),
}

impl View for MakerError {
    type V = MakerErrorView;

    open spec fn view(&self) -> MakerErrorView {
        match self {
            MakerError::Std(e) => MakerErrorView::Std(e@),
            MakerError::Unauthorized => MakerErrorView::Unauthorized,
            MakerError::IncorrectGovernancePercent => MakerErrorView::IncorrectGovernancePercent,
            MakerError::IncorrectMaxSpread => MakerErrorView::IncorrectMaxSpread,
            MakerError::PairNotFound(a, b) => MakerErrorView::PairNotFound(a@, b@),
            MakerError::Ownership(e) => MakerErrorView::Ownership(e@),
        }
    }
}

/// What the fee sweep is set up with.
#[derive(Clone, Debug, PartialEq, Eq)]
pub struct InstantiateMsg {
    pub owner: String,
    pub astro_token_contract: String,
    pub factory_contract: String,
    pub staking_contract: String,
    pub governance_contract: Option<String>,
    pub governance_percent: Option<u64>,
    pub max_spread: Option<Decimal>,
}

/// The host's verdict on each address of a message: whether it accepts it.
#[derive(Clone, Copy, Debug, PartialEq, Eq, Structural)]
pub struct AddressVerdicts {
    pub owner: bool,
    pub astro_token_contract: bool,
    pub factory_contract: bool,
    pub staking_contract: bool,
    pub governance_contract: bool,
}

/// The settings of the fee sweep.
#[derive(Clone, Debug, PartialEq, Eq)]
pub struct Config {
    pub owner: String,
    pub astro_token_contract: String,
    pub factory_contract: String,
    pub staking_contract: String,
    pub governance_contract: Option<String>,
    pub governance_percent: u64,
    pub max_spread: Decimal,
}

/// The mathematical value of a `Config`.
pub struct ConfigView {
    pub owner: Seq<char>,
    pub astro_token_contract: Seq<char>,
    pub factory_contract: Seq<char>,
    pub staking_contract: Seq<char>,
    pub governance_contract: Option<Seq<char>>,
    pub governance_percent: u64,
    pub max_spread: Decimal,
}

/// The text of an optional address.
pub open spec fn text_of(s: Option<String>) -> Option<Seq<char>> {
    match s {
        Some(t) => Some(t@),
        None => None,
    }
}

impl View for Config {
    type V = ConfigView;

    open spec fn view(&self) -> ConfigView {
        ConfigView {
            owner: self.owner@,
            astro_token_contract: self.astro_token_contract@,
            factory_contract: self.factory_contract@,
            staking_contract: self.staking_contract@,
            governance_contract: text_of(self.governance_contract),
            governance_percent: self.governance_percent,
            max_spread: self.max_spread,
        }
    }
}

impl ConfigView {
    /// Valid settings: governance gets at most everything, and the spread is
    /// at most one.
    pub open spec fn wf(self) -> bool {
        self.governance_percent <= MAX_GOVERNANCE_PERCENT && self.max_spread.atomics
            <= DECIMAL_FRACTION
    }
}

impl Config {
    /// Whether the settings are valid.
    pub fn is_valid(&self) -> (r: bool)
        ensures
            r == self@.wf(),
    {
        self.governance_percent <= MAX_GOVERNANCE_PERCENT && self.max_spread.atomics
            <= DECIMAL_FRACTION
    }
}

/// A change of the governance address: set it, or remove it.
#[derive(Clone, Debug, PartialEq, Eq)]
pub enum UpdateAddr {
    SetTo(String),
    Remove,
}

/// One line of the record that an operation leaves.
#[derive(Clone, Debug, PartialEq, Eq)]
pub struct Attribute {
    pub key: String,
    pub value: String,
}

/// When the sender of a message wants to hear of its outcome.
#[derive(Clone, Copy, Debug, PartialEq, Eq, Structural)]
pub enum ReplyOn {
    Never,
    Success,
}

/// What the fee sweep sends out.
#[derive(Clone, Debug, PartialEq, Eq)]
pub enum MakerMsg {
    /// The payment of an asset.
    Transfer(TransferMsg),
    /// A swap of a native currency at the pair `pair_contract`; `funds` go
    /// along with it.
    SwapNative { pair_contract: String, offer_asset: Asset, max_spread: Decimal, funds: Coin },
    /// A swap of a token at the pair `pair_contract`, sent through the
    /// token contract `token_contract`.
    SwapToken { token_contract: String, pair_contract: String, amount: u128, max_spread: Decimal },
}

/// A message, and whether its outcome is to be reported back.
#[derive(Clone, Debug, PartialEq, Eq)]
pub struct SubMsg {
    pub msg: MakerMsg,
    pub reply_on: ReplyOn,
}

/// The settings that a message sets up, or why it is refused.
///
/// The governance address is looked at first, then the governance share and
/// the spread, then the other addresses. Without a governance share
/// governance gets nothing; without a spread it is `DEFAULT_MAX_SPREAD`
/// hundredths.
pub open spec fn instantiated(
    owner: Seq<char>,
    astro_token_contract: Seq<char>,
    factory_contract: Seq<char>,
    staking_contract: Seq<char>,
    governance_contract: Option<Seq<char>>,
    governance_percent: Option<u64>,
    max_spread: Option<Decimal>,
    valid: AddressVerdicts,
) -> Result<ConfigView, MakerErrorView> {
    let governance = match governance_contract {
        Some(g) => validated_address(g, valid.governance_contract),
        None => Ok(Seq::<char>::empty()),
    };
    if governance is Err {
        Err(MakerErrorView::Std(governance->Err_0))
    } else if governance_percent.is_some() && governance_percent.unwrap() > MAX_GOVERNANCE_PERCENT {
        Err(MakerErrorView::IncorrectGovernancePercent)
    } else if max_spread.is_some() && max_spread.unwrap().atomics > DECIMAL_FRACTION {
        Err(MakerErrorView::IncorrectMaxSpread)
    } else if validated_address(owner, valid.owner) is Err {
        Err(MakerErrorView::Std(validated_address(owner, valid.owner)->Err_0))
    } else if validated_address(astro_token_contract, valid.astro_token_contract) is Err {
        Err(
            MakerErrorView::Std(
                validated_address(astro_token_contract, valid.astro_token_contract)->Err_0,
            ),
        )
    } else if validated_address(factory_contract, valid.factory_contract) is Err {
        Err(MakerErrorView::Std(validated_address(factory_contract, valid.factory_contract)->Err_0))
    } else if validated_address(staking_contract, valid.staking_contract) is Err {
        Err(MakerErrorView::Std(validated_address(staking_contract, valid.staking_contract)->Err_0))
    } else {
        Ok(
            ConfigView {
                owner,
                astro_token_contract,
                factory_contract,
                staking_contract,
                governance_contract,
                governance_percent: match governance_percent {
                    Some(p) => p,
                    None => 0,
                },
                max_spread: match max_spread {
                    Some(m) => m,
                    None => Decimal { atomics: (DEFAULT_MAX_SPREAD * 10_000_000_000_000_000) as u128 },
                },
            },
        )
    }
}

fn validated(addr: &String, address_valid: bool) -> (r: Result<String, MakerError>)
    ensures
        match validated_address(addr@, address_valid) {
            Ok(a) => r matches Ok(x) && x@ == a,
            Err(e) => r matches Err(x) && x@ == MakerErrorView::Std(e),
        },
{
    match addr_validate_to_lower(addr.as_str(), address_valid) {
        Ok(a) => Ok(a),
        Err(e) => Err(MakerError::Std(e)),
    }
}

/// Sets the fee sweep up: checks the message and returns the settings.
///
/// `valid` holds the host's verdict on each address of the message.
pub fn instantiate(msg: InstantiateMsg, valid: AddressVerdicts) -> (r: Result<Config, MakerError>)
    ensures
        match instantiated(
            msg.owner@,
            msg.astro_token_contract@,
            msg.factory_contract@,
            msg.staking_contract@,
            text_of(msg.governance_contract),
            msg.governance_percent,
            msg.max_spread,
            valid,
        ) {
            Ok(c) => r matches Ok(x) && x@ == c && c.wf(),
            Err(e) => r matches Err(x) && x@ == e,
        },
{
    let governance_contract: Option<String> = match &msg.governance_contract {
        Some(g) => Some(validated(g, valid.governance_contract)?),
        None => None,
    };
    let governance_percent: u64 = match msg.governance_percent {
        Some(p) => {
            if p > MAX_GOVERNANCE_PERCENT {
                return Err(MakerError::IncorrectGovernancePercent);
            }
            p
        },
        None => 0,
    };
    let max_spread: Decimal = match msg.max_spread {
        Some(m) => {
            if m.gt(&Decimal::one()) {
                return Err(MakerError::IncorrectMaxSpread);
            }
            m
        },
        None => Decimal::percent(DEFAULT_MAX_SPREAD),
    };
    let owner: String = validated(&msg.owner, valid.owner)?;
    let astro_token_contract: String = validated(
        &msg.astro_token_contract,
        valid.astro_token_contract,
    )?;
    let factory_contract: String = validated(&msg.factory_contract, valid.factory_contract)?;
    let staking_contract: String = validated(&msg.staking_contract, valid.staking_contract)?;
    Ok(
        Config {
            owner,
            astro_token_contract,
            factory_contract,
            staking_contract,
            governance_contract,
            governance_percent,
            max_spread,
        },
    )
}

/// The payments that hand `amount` of the reference token out: to
/// governance its share, `amount * governance_percent / 100` rounded down,
/// where a governance address is set; to staking the rest.
pub open spec fn distributed(cfg: ConfigView, amount: u128) -> Seq<(Seq<char>, u128)> {
    match cfg.governance_contract {
        Some(g) => {
            let share = (amount * cfg.governance_percent / 100) as u128;
            seq![(g, share), (cfg.staking_contract, (amount - share) as u128)]
        },
        None => seq![(cfg.staking_contract, amount)],
    }
}

/// Whether a message is the payment of `amount` of the token at `token` to
/// `recipient`, with no report asked for.
pub open spec fn is_token_payment(m: SubMsg, token: Seq<char>, recipient: Seq<char>, amount: u128)
    -> bool {
    m.reply_on == ReplyOn::Never && (m.msg matches MakerMsg::Transfer(
        TransferMsg::Token { contract_addr, recipient: to, amount: paid },
    ) && contract_addr@ == token && to@ == recipient && paid == amount)
}

/// Whether messages are the payments given, one for one.
pub open spec fn are_token_payments(
    msgs: Seq<SubMsg>,
    token: Seq<char>,
    payments: Seq<(Seq<char>, u128)>,
) -> bool {
    msgs.len() == payments.len() && forall|i: int|
        0 <= i < msgs.len() ==> is_token_payment(
            #[trigger] msgs[i],
            token,
            payments[i].0,
            payments[i].1,
        )
}

fn token_payment(token: &String, recipient: &String, amount: u128) -> (r: SubMsg)
    ensures
        is_token_payment(r, token@, recipient@, amount),
{
    SubMsg {
        msg: MakerMsg::Transfer(
            TransferMsg::Token {
                contract_addr: token.clone(),
                recipient: recipient.clone(),
                amount,
            },
        ),
        reply_on: ReplyOn::Never,
    }
}

/// Hands `amount` of the reference token out to governance and staking.
pub fn distribute_astro(cfg: &Config, amount: u128) -> (r: Vec<SubMsg>)
    requires
        cfg@.wf(),
    ensures
        are_token_payments(r@, cfg.astro_token_contract@, distributed(cfg@, amount)),
{
    let mut result: Vec<SubMsg> = Vec::new();
    let governance_amount: u128 = match &cfg.governance_contract {
        Some(governance_contract) => {
            proof {
                assert(0 <= amount * cfg.governance_percent / 100 <= amount) by (nonlinear_arith)
                    requires
                        0 <= cfg.governance_percent <= 100,
                        amount >= 0,
                ;
            }
            let share: u128 = multiply_ratio(amount, cfg.governance_percent as u128, 100);
            result.push(token_payment(&cfg.astro_token_contract, governance_contract, share));
            share
        },
        None => 0,
    };
    let staking_amount: u128 = amount - governance_amount;
    result.push(token_payment(&cfg.astro_token_contract, &cfg.staking_contract, staking_amount));
    result
}

/// What the fee sweep sends once its swaps have reported back: the
/// reference token it holds, handed out; nothing when it holds none.
pub fn reply(cfg: &Config, balance: u128) -> (r: Vec<SubMsg>)
    requires
        cfg@.wf(),
    ensures
        balance == 0 ==> r@.len() == 0,
        balance != 0 ==> are_token_payments(
            r@,
            cfg.astro_token_contract@,
            distributed(cfg@, balance),
        ),
{
    if balance != 0 {
        distribute_astro(cfg, balance)
    } else {
        Vec::new()
    }
}

/// Whether a message is the swap of `amount_in` of `from` into the
/// reference token at the pair `pair`: a native currency is offered less
/// its tax and sent along as funds; a token is sent through its contract in
/// full.
pub open spec fn is_swap_msg(
    msg: MakerMsg,
    cfg: ConfigView,
    from: AssetInfoView,
    amount_in: u128,
    pair: Seq<char>,
    tax_rate: Decimal,
    tax_cap: u128,
) -> bool {
    match from {
        AssetInfoView::NativeToken { denom } => {
            let offered = amount_in - tax_of(
                amount_in as int,
                tax_rate.atomics as int,
                tax_cap as int,
            );
            msg matches MakerMsg::SwapNative { pair_contract, offer_asset, max_spread, funds }
                && pair_contract@ == pair && offer_asset.info@ == from && offer_asset.amount
                == offered && max_spread == cfg.max_spread && funds.denom@ == denom
                && funds.amount == offered
        },
        AssetInfoView::Token { contract_addr } => {
            msg matches MakerMsg::SwapToken { token_contract, pair_contract, amount, max_spread }
                && token_contract@ == contract_addr && pair_contract@ == pair && amount
                == amount_in && max_spread == cfg.max_spread
        },
    }
}

/// Whether a message is such a swap, with no report asked for.
pub open spec fn is_swap_to_astro(
    m: SubMsg,
    cfg: ConfigView,
    from: AssetInfoView,
    amount_in: u128,
    pair: Seq<char>,
    tax_rate: Decimal,
    tax_cap: u128,
) -> bool {
    m.reply_on == ReplyOn::Never && is_swap_msg(
        m.msg,
        cfg,
        from,
        amount_in,
        pair,
        tax_rate,
        tax_cap,
    )
}

/// Why the swap of an asset into the reference token cannot be built;
/// `None` when it can. There must be a pair that trades the two, and the tax
/// rate of a native currency must leave room for one beside it.
pub open spec fn swap_refusal(
    cfg: ConfigView,
    from: AssetInfoView,
    pair: Option<Seq<char>>,
    tax_rate: Decimal,
) -> Option<MakerErrorView> {
    if pair.is_none() {
        Some(
            MakerErrorView::PairNotFound(
                from,
                AssetInfoView::Token { contract_addr: cfg.astro_token_contract },
            ),
        )
    } else if from is NativeToken && tax_rate.atomics + DECIMAL_FRACTION > u128::MAX {
        Some(MakerErrorView::Std(AssetErrorView::Overflow))
    } else {
        None
    }
}

/// Builds the swap of `amount_in` of `from_token` into the reference token.
///
/// `pair_contract` is the address of the pair that trades the two, or
/// `None` when the registry knows none, which is refused with
/// `PairNotFound`. `tax_rate` and `tax_cap` are the tax on transfers of a
/// native currency.
pub fn swap_to_astro(
    cfg: &Config,
    from_token: AssetInfo,
    amount_in: u128,
    pair_contract: Option<String>,
    tax_rate: Decimal,
    tax_cap: u128,
) -> (r: Result<SubMsg, MakerError>)
    ensures
        match swap_refusal(cfg@, from_token@, text_of(pair_contract), tax_rate) {
            Some(e) => r matches Err(x) && x@ == e,
            None => r matches Ok(m) && is_swap_to_astro(
                m,
                cfg@,
                from_token@,
                amount_in,
                pair_contract.unwrap()@,
                tax_rate,
                tax_cap,
            ),
        },
{
    let pair: String = match pair_contract {
        Some(p) => p,
        None => {
            let to_token = AssetInfo::Token { contract_addr: cfg.astro_token_contract.clone() };
            return Err(MakerError::PairNotFound(from_token, to_token));
        },
    };
    if from_token.is_native_token() {
        let mut offer_asset = Asset { info: from_token.duplicate(), amount: amount_in };
        let tax: u128 = match offer_asset.compute_tax(tax_rate, tax_cap) {
            Ok(t) => t,
            Err(e) => {
                return Err(MakerError::Std(e));
            },
        };
        proof {
            lemma_tax_bounds(amount_in as int, tax_rate.atomics as int, tax_cap as int);
        }
        let amount_in: u128 = amount_in - tax;
        offer_asset.amount = amount_in;
        Ok(
            SubMsg {
                msg: MakerMsg::SwapNative {
                    pair_contract: pair,
                    offer_asset,
                    max_spread: cfg.max_spread,
                    funds: Coin { denom: from_token.to_string(), amount: amount_in },
                },
                reply_on: ReplyOn::Never,
            },
        )
    } else {
        Ok(
            SubMsg {
                msg: MakerMsg::SwapToken {
                    token_contract: from_token.to_string(),
                    pair_contract: pair,
                    amount: amount_in,
                    max_spread: cfg.max_spread,
                },
                reply_on: ReplyOn::Never,
            },
        )
    }
}

/// The mathematical value of an `UpdateAddr`.
pub enum UpdateAddrView {
    SetTo(Seq<char>),
    Remove,
}

impl View for UpdateAddr {
    type V = UpdateAddrView;

    open spec fn view(&self) -> UpdateAddrView {
        match self {
            UpdateAddr::SetTo(a) => UpdateAddrView::SetTo(a@),
            UpdateAddr::Remove => UpdateAddrView::Remove,
        }
    }
}

/// The value of an optional change of the governance address.
pub open spec fn change_of(u: Option<UpdateAddr>) -> Option<UpdateAddrView> {
    match u {
        Some(c) => Some(c@),
        None => None,
    }
}

/// The keys and values of a record.
pub open spec fn attribute_texts(attributes: Seq<Attribute>) -> Seq<(Seq<char>, Seq<char>)> {
    attributes.map_values(|a: Attribute| (a.key@, a.value@))
}

/// The host's verdict on each address of a change of settings.
#[derive(Clone, Copy, Debug, PartialEq, Eq, Structural)]
pub struct UpdateVerdicts {
    pub factory_contract: bool,
    pub staking_contract: bool,
    pub governance_contract: bool,
}

/// Why a change of settings is refused; `None` when it is not.
///
/// Only the owner may change the settings. The addresses are looked at in
/// the order factory, staking, governance; then the governance share, which
/// may not exceed `MAX_GOVERNANCE_PERCENT`; then the spread, which may not
/// exceed one.
pub open spec fn update_refusal(
    cfg: ConfigView,
    sender: Seq<char>,
    factory_contract: Option<Seq<char>>,
    staking_contract: Option<Seq<char>>,
    governance_contract: Option<UpdateAddrView>,
    governance_percent: Option<u64>,
    max_spread: Option<Decimal>,
    valid: UpdateVerdicts,
) -> Option<MakerErrorView> {
    if sender != cfg.owner {
        Some(MakerErrorView::Unauthorized)
    } else if factory_contract.is_some() && validated_address(
        factory_contract.unwrap(),
        valid.factory_contract,
    ) is Err {
        Some(
            MakerErrorView::Std(
                validated_address(factory_contract.unwrap(), valid.factory_contract)->Err_0,
            ),
        )
    } else if staking_contract.is_some() && validated_address(
        staking_contract.unwrap(),
        valid.staking_contract,
    ) is Err {
        Some(
            MakerErrorView::Std(
                validated_address(staking_contract.unwrap(), valid.staking_contract)->Err_0,
            ),
        )
    } else if governance_contract matches Some(UpdateAddrView::SetTo(g)) && validated_address(
        g,
        valid.governance_contract,
    ) is Err {
        Some(
            MakerErrorView::Std(
                validated_address(
                    governance_contract.unwrap()->SetTo_0,
                    valid.governance_contract,
                )->Err_0,
            ),
        )
    } else if governance_percent.is_some() && governance_percent.unwrap() > MAX_GOVERNANCE_PERCENT {
        Some(MakerErrorView::IncorrectGovernancePercent)
    } else if max_spread.is_some() && max_spread.unwrap().atomics > DECIMAL_FRACTION {
        Some(MakerErrorView::IncorrectMaxSpread)
    } else {
        None
    }
}

/// The settings after a change that is not refused: each setting named in
/// the change takes its new value, the others stay.
pub open spec fn updated_config(
    cfg: ConfigView,
    factory_contract: Option<Seq<char>>,
    staking_contract: Option<Seq<char>>,
    governance_contract: Option<UpdateAddrView>,
    governance_percent: Option<u64>,
    max_spread: Option<Decimal>,
) -> ConfigView {
    ConfigView {
        owner: cfg.owner,
        astro_token_contract: cfg.astro_token_contract,
        factory_contract: match factory_contract {
            Some(f) => f,
            None => cfg.factory_contract,
        },
        staking_contract: match staking_contract {
            Some(s) => s,
            None => cfg.staking_contract,
        },
        governance_contract: match governance_contract {
            Some(UpdateAddrView::SetTo(g)) => Some(g),
            Some(UpdateAddrView::Remove) => None,
            None => cfg.governance_contract,
        },
        governance_percent: match governance_percent {
            Some(p) => p,
            None => cfg.governance_percent,
        },
        max_spread: match max_spread {
            Some(m) => m,
            None => cfg.max_spread,
        },
    }
}

/// The record that a change of settings leaves: the action, then one line
/// for each setting given a value, in the order factory, staking,
/// governance, governance share, spread. `max_spread` is the spread as it
/// is written.
pub open spec fn update_record(
    factory_contract: Option<Seq<char>>,
    staking_contract: Option<Seq<char>>,
    governance_contract: Option<UpdateAddrView>,
    governance_percent: Option<u64>,
    max_spread: Option<Seq<char>>,
) -> Seq<(Seq<char>, Seq<char>)> {
    let a0 = seq![("action"@, "set_config"@)];
    let a1 = match factory_contract {
        Some(f) => a0.push(("factory_contract"@, f)),
        None => a0,
    };
    let a2 = match staking_contract {
        Some(s) => a1.push(("staking_contract"@, s)),
        None => a1,
    };
    let a3 = match governance_contract {
        Some(UpdateAddrView::SetTo(g)) => a2.push(("governance_contract"@, g)),
        _ => a2,
    };
    let a4 = match governance_percent {
        Some(p) => a3.push(("governance_percent"@, decimal_digits(p as nat))),
        None => a3,
    };
    match max_spread {
        Some(m) => a4.push(("max_spread"@, m)),
        None => a4,
    }
}

/// A spread as it is written, if there is one.
pub open spec fn written(max_spread: Option<Decimal>) -> Option<Seq<char>> {
    match max_spread {
        Some(m) => Some(decimal_text(m.atomics)),
        None => None,
    }
}

/// The number of a spread given with its text, if one is given.
pub open spec fn number_of(max_spread: Option<(Decimal, String)>) -> Option<Decimal> {
    match max_spread {
        Some((m, _)) => Some(m),
        None => None,
    }
}

/// The text of a spread given with its text, if one is given.
pub open spec fn written_as(max_spread: Option<(Decimal, String)>) -> Option<Seq<char>> {
    match max_spread {
        Some((_, t)) => Some(t@),
        None => None,
    }
}

/// A line of a record.
pub fn attribute(key: &str, value: String) -> (r: Attribute)
    ensures
        r.key@ == key@,
        r.value@ == value@,
{
    Attribute { key: String::from_str(key), value }
}

/// Changes the settings on behalf of `sender` and returns the new settings
/// with the record of the change.
///
/// `valid` holds the host's verdict on each address of the change. A change
/// that is refused changes nothing.
pub fn update_config(
    config: &Config,
    sender: &String,
    factory_contract: Option<String>,
    staking_contract: Option<String>,
    governance_contract: Option<UpdateAddr>,
    governance_percent: Option<u64>,
    max_spread: Option<Decimal>,
    valid: UpdateVerdicts,
) -> (r: Result<(Config, Vec<Attribute>), MakerError>)
    ensures
        match update_refusal(
            config@,
            sender@,
            text_of(factory_contract),
            text_of(staking_contract),
            change_of(governance_contract),
            governance_percent,
            max_spread,
            valid,
        ) {
            Some(e) => r matches Err(x) && x@ == e,
            None => r matches Ok((c, attributes)) && c@ == updated_config(
                config@,
                text_of(factory_contract),
                text_of(staking_contract),
                change_of(governance_contract),
                governance_percent,
                max_spread,
            ) && (config@.wf() ==> c@.wf()) && attribute_texts(attributes@) == update_record(
                text_of(factory_contract),
                text_of(staking_contract),
                change_of(governance_contract),
                governance_percent,
                written(max_spread),
            ),
        },
{
    let spread: Option<(Decimal, String)> = match max_spread {
        Some(m) => Some((m, decimal_to_string(m.atomics))),
        None => None,
    };
    apply_config_update(
        config,
        sender,
        factory_contract,
        staking_contract,
        governance_contract,
        governance_percent,
        spread,
        valid,
    )
}

/// Changes the settings on behalf of `sender`, as `update_config` does, with
/// the new spread given beside the text that the record is to show for it.
pub fn apply_config_update(
    config: &Config,
    sender: &String,
    factory_contract: Option<String>,
    staking_contract: Option<String>,
    governance_contract: Option<UpdateAddr>,
    governance_percent: Option<u64>,
    max_spread: Option<(Decimal, String)>,
    valid: UpdateVerdicts,
) -> (r: Result<(Config, Vec<Attribute>), MakerError>)
    ensures
        match update_refusal(
            config@,
            sender@,
            text_of(factory_contract),
            text_of(staking_contract),
            change_of(governance_contract),
            governance_percent,
            number_of(max_spread),
            valid,
        ) {
            Some(e) => r matches Err(x) && x@ == e,
            None => r matches Ok((c, attributes)) && c@ == updated_config(
                config@,
                text_of(factory_contract),
                text_of(staking_contract),
                change_of(governance_contract),
                governance_percent,
                number_of(max_spread),
            ) && (config@.wf() ==> c@.wf()) && attribute_texts(attributes@) == update_record(
                text_of(factory_contract),
                text_of(staking_contract),
                change_of(governance_contract),
                governance_percent,
                written_as(max_spread),
            ),
        },
{
    let mut attributes: Vec<Attribute> = Vec::new();
    attributes.push(attribute("action", String::from_str("set_config")));
    assert(attribute_texts(attributes@) =~= seq![("action"@, "set_config"@)]);
    if *sender != config.owner {
        return Err(MakerError::Unauthorized);
    }
    let mut new_factory: String = config.factory_contract.clone();
    let mut new_staking: String = config.staking_contract.clone();
    let mut new_governance: Option<String> = match &config.governance_contract {
        Some(g) => Some(g.clone()),
        None => None,
    };
    let mut new_percent: u64 = config.governance_percent;
    let mut new_spread: Decimal = config.max_spread;
    if let Some(f) = &factory_contract {
        new_factory = validated(f, valid.factory_contract)?;
        let ghost before = attribute_texts(attributes@);
        attributes.push(attribute("factory_contract", f.clone()));
        assert(attribute_texts(attributes@) =~= before.push(("factory_contract"@, f@)));
    }
    if let Some(s) = &staking_contract {
        new_staking = validated(s, valid.staking_contract)?;
        let ghost before = attribute_texts(attributes@);
        attributes.push(attribute("staking_contract", s.clone()));
        assert(attribute_texts(attributes@) =~= before.push(("staking_contract"@, s@)));
    }
    if let Some(action) = &governance_contract {
        match action {
            UpdateAddr::SetTo(gov) => {
                new_governance = Some(validated(gov, valid.governance_contract)?);
                let ghost before = attribute_texts(attributes@);
                attributes.push(attribute("governance_contract", gov.clone()));
                assert(attribute_texts(attributes@) =~= before.push(
                    ("governance_contract"@, gov@),
                ));
            },
            UpdateAddr::Remove => {
                new_governance = None;
            },
        }
    }
    if let Some(p) = governance_percent {
        if p > MAX_GOVERNANCE_PERCENT {
            return Err(MakerError::IncorrectGovernancePercent);
        }
        new_percent = p;
        let ghost before = attribute_texts(attributes@);
        attributes.push(attribute("governance_percent", decimal_string(p as u128)));
        assert(attribute_texts(attributes@) =~= before.push(
            ("governance_percent"@, decimal_digits(p as nat)),
        ));
    }
    if let Some((m, text)) = max_spread {
        if m.gt(&Decimal::one()) {
            return Err(MakerError::IncorrectMaxSpread);
        }
        new_spread = m;
        let ghost before = attribute_texts(attributes@);
        let ghost shown = text@;
        attributes.push(attribute("max_spread", text));
        assert(attribute_texts(attributes@) =~= before.push(("max_spread"@, shown)));
    }
    let updated = Config {
        owner: config.owner.clone(),
        astro_token_contract: config.astro_token_contract.clone(),
        factory_contract: new_factory,
        staking_contract: new_staking,
        governance_contract: new_governance,
        governance_percent: new_percent,
        max_spread: new_spread,
    };
    Ok((updated, attributes))
}

/// What the settings query reports.
#[derive(Clone, Debug, PartialEq, Eq)]
pub struct ConfigResponse {
    pub owner: String,
    pub factory_contract: String,
    pub staking_contract: String,
    pub governance_contract: Option<String>,
    pub governance_percent: u64,
    pub astro_token_contract: String,
    pub max_spread: Decimal,
}

/// Reports the settings, each as it is stored.
pub fn query_get_config(config: &Config) -> (r: ConfigResponse)
    ensures
        r.owner@ == config.owner@,
        r.factory_contract@ == config.factory_contract@,
        r.staking_contract@ == config.staking_contract@,
        text_of(r.governance_contract) == text_of(config.governance_contract),
        r.governance_percent == config.governance_percent,
        r.astro_token_contract@ == config.astro_token_contract@,
        r.max_spread == config.max_spread,
{
    ConfigResponse {
        owner: config.owner.clone(),
        factory_contract: config.factory_contract.clone(),
        staking_contract: config.staking_contract.clone(),
        governance_contract: match &config.governance_contract {
            Some(g) => Some(g.clone()),
            None => None,
        },
        governance_percent: config.governance_percent,
        astro_token_contract: config.astro_token_contract.clone(),
        max_spread: config.max_spread,
    }
}

/// The assets of which something is held, each with what is held of it, in
/// the order given.
pub open spec fn held_assets(assets: Seq<AssetInfo>, balances: Seq<u128>) -> Seq<
    (AssetInfoView, u128),
>
    decreases assets.len(),
{
    if assets.len() == 0 || balances.len() == 0 {
        Seq::empty()
    } else {
        let rest = held_assets(assets.drop_last(), balances.drop_last());
        if balances.last() != 0 {
            rest.push((assets.last()@, balances.last()))
        } else {
            rest
        }
    }
}

/// The asset and the amount of each entry.
pub open spec fn asset_values(assets: Seq<Asset>) -> Seq<(AssetInfoView, u128)> {
    assets.map_values(|a: Asset| (a.info@, a.amount))
}

/// Reports what is held of each asset, leaving out those of which nothing
/// is held. `balances` holds the balance of each asset, in the same order.
pub fn query_get_balances(assets: &Vec<AssetInfo>, balances: &Vec<u128>) -> (r: Vec<Asset>)
    requires
        assets.len() == balances.len(),
    ensures
        asset_values(r@) == held_assets(assets@, balances@),
{
    let mut result: Vec<Asset> = Vec::new();
    let mut i: usize = 0;
    assert(asset_values(result@) =~= Seq::empty());
    assert(assets@.subrange(0, 0).len() == 0);
    while i < assets.len()
        invariant
            i <= assets.len(),
            assets.len() == balances.len(),
            asset_values(result@) == held_assets(
                assets@.subrange(0, i as int),
                balances@.subrange(0, i as int),
            ),
        decreases assets.len() - i,
    {
        let ghost before = asset_values(result@);
        proof {
            let a = assets@.subrange(0, i as int + 1);
            let b = balances@.subrange(0, i as int + 1);
            assert(a.drop_last() =~= assets@.subrange(0, i as int));
            assert(b.drop_last() =~= balances@.subrange(0, i as int));
            assert(a.last() == assets@[i as int]);
            assert(b.last() == balances@[i as int]);
        }
        if balances[i] != 0 {
            result.push(Asset { info: assets[i].duplicate(), amount: balances[i] });
            assert(asset_values(result@) =~= before.push((assets@[i as int]@, balances@[i as int])));
        }
        i = i + 1;
    }
    assert(assets@.subrange(0, i as int) =~= assets@);
    assert(balances@.subrange(0, i as int) =~= balances@);
    result
}

/// Whether an asset is the reference token of the fee sweep.
pub fn is_reference_token(cfg: &Config, asset: &AssetInfo) -> (r: bool)
    ensures
        r == (asset@ == AssetInfoView::Token { contract_addr: cfg.astro_token_contract@ }),
{
    match asset {
        AssetInfo::Token { contract_addr } => *contract_addr == cfg.astro_token_contract,
        AssetInfo::NativeToken { .. } => false,
    }
}

/// Ends a sweep. Where swaps were sent, the last of them is marked to
/// report back, so that the proceeds are handed out once all are done.
/// Where none was sent, the reference token held, `astro_balance`, is
/// handed out at once, if there is any.
pub fn collect(cfg: &Config, swaps: Vec<SubMsg>, astro_balance: u128) -> (r: Vec<SubMsg>)
    requires
        cfg@.wf(),
    ensures
        swaps@.len() > 0 ==> r@.len() == swaps@.len() && r@.last().reply_on == ReplyOn::Success
            && r@.last().msg == swaps@.last().msg && r@.drop_last() == swaps@.drop_last(),
        swaps@.len() == 0 && astro_balance == 0 ==> r@.len() == 0,
        swaps@.len() == 0 && astro_balance != 0 ==> are_token_payments(
            r@,
            cfg.astro_token_contract@,
            distributed(cfg@, astro_balance),
        ),
{
    let mut messages: Vec<SubMsg> = swaps;
    if messages.len() > 0 {
        let last: SubMsg = messages.pop().unwrap();
        let ghost head = messages@;
        messages.push(SubMsg { msg: last.msg, reply_on: ReplyOn::Success });
        assert(messages@.drop_last() =~= head);
        assert(swaps@.drop_last() =~= head);
        messages
    } else if astro_balance != 0 {
        distribute_astro(cfg, astro_balance)
    } else {
        messages
    }
}

/// The asset entered last under a name, if any was entered under it.
pub open spec fn last_named(assets: Seq<AssetInfo>, name: Seq<char>) -> Option<AssetInfoView>
    decreases assets.len(),
{
    if assets.len() == 0 {
        None
    } else if assets.last()@.text() == name {
        Some(assets.last()@)
    } else {
        last_named(assets.drop_last(), name)
    }
}

/// Whether no two entries bear the same name.
pub open spec fn names_differ(assets: Seq<AssetInfo>) -> bool {
    forall|j: int, k: int|
        0 <= j < k < assets.len() ==> (#[trigger] assets[j])@.text() != (#[trigger] assets[k])@.text()
}

/// Whether `found` holds, once each, the assets of `assets` by name: every
/// entry of `found` is the asset entered last under its name, no two
/// entries bear the same name, and no name of `assets` is missing.
pub open spec fn holds_by_name(found: Seq<AssetInfo>, assets: Seq<AssetInfo>) -> bool {
    &&& names_differ(found)
    &&& forall|j: int|
        0 <= j < found.len() ==> last_named(assets, (#[trigger] found[j])@.text()) == Some(
            found[j]@,
        )
    &&& forall|i: int|
        0 <= i < assets.len() ==> exists|j: int|
            0 <= j < found.len() && (#[trigger] found[j])@.text() == (#[trigger] assets[i])@.text()
}

fn position_of(found: &Vec<AssetInfo>, name: &String) -> (r: Option<usize>)
    ensures
        match r {
            Some(j) => j < found.len() && found[j as int]@.text() == name@,
            None => forall|j: int| 0 <= j < found.len() ==> (#[trigger] found[j])@.text() != name@,
        },
{
    let mut j: usize = 0;
    while j < found.len()
        invariant
            j <= found.len(),
            forall|k: int| 0 <= k < j ==> (#[trigger] found[k])@.text() != name@,
        decreases found.len() - j,
    {
        let text: String = found[j].to_string();
        if text == *name {
            return Some(j);
        }
        j = j + 1;
    }
    None
}

/// Gathers the assets of the pairs to sweep, each name once.
///
/// Assets are told apart by their name, the address or the denomination.
/// Where several are entered under one name, the one entered last stays. The
/// result lists the names in the order in which they first occur.
pub fn unique_assets(assets: &Vec<AssetInfo>) -> (r: Vec<AssetInfo>)
    ensures
        holds_by_name(r@, assets@),
{
    let mut found: Vec<AssetInfo> = Vec::new();
    let mut i: usize = 0;
    while i < assets.len()
        invariant
            i <= assets.len(),
            holds_by_name(found@, assets@.subrange(0, i as int)),
        decreases assets.len() - i,
    {
        let ghost before = assets@.subrange(0, i as int);
        let ghost after = assets@.subrange(0, i as int + 1);
        let ghost old_found = found@;
        let name: String = assets[i].to_string();
        proof {
            assert(after.drop_last() =~= before);
            assert(after.last() == assets@[i as int]);
            assert forall|n: Seq<char>| n != name@ implies last_named(after, n) == last_named(
                before,
                n,
            ) by {}
            assert(last_named(after, name@) == Some(assets@[i as int]@));
        }
        match position_of(&found, &name) {
            Some(j) => {
                found.set(j, assets[i].duplicate());
                proof {
                    assert forall|k: int| 0 <= k < found@.len() implies (#[trigger] found@[k])@.text()
                        == old_found[k]@.text() by {}
                    assert forall|a: int, b: int| 0 <= a < b < found@.len() implies (
                    #[trigger] found@[a])@.text() != (#[trigger] found@[b])@.text() by {
                        assert(old_found[a]@.text() != old_found[b]@.text());
                    }
                    assert forall|k: int| 0 <= k < found@.len() implies last_named(
                        after,
                        (#[trigger] found@[k])@.text(),
                    ) == Some(found@[k]@) by {
                        if k != j as int {
                            assert(old_found[k]@.text() != old_found[j as int]@.text());
                            assert(found@[k] == old_found[k]);
                        }
                    }
                    assert forall|m: int| 0 <= m < after.len() implies exists|k: int|
                        0 <= k < found@.len() && (#[trigger] found@[k])@.text() == (
                        #[trigger] after[m])@.text() by {
                        if m < i as int {
                            assert(after[m] == before[m]);
                            let k = choose|k: int|
                                0 <= k < old_found.len() && (#[trigger] old_found[k])@.text()
                                    == before[m]@.text();
                            assert(found@[k]@.text() == after[m]@.text());
                        } else {
                            assert(found@[j as int]@.text() == after[m]@.text());
                        }
                    }
                }
            },
            None => {
                found.push(assets[i].duplicate());
                proof {
                    let n = old_found.len() as int;
                    assert(found@[n]@ == assets@[i as int]@);
                    assert forall|k: int| 0 <= k < n implies found@[k] == old_found[k] by {}
                    assert forall|a: int, b: int| 0 <= a < b < found@.len() implies (
                    #[trigger] found@[a])@.text() != (#[trigger] found@[b])@.text() by {
                        if b < n {
                            assert(old_found[a]@.text() != old_found[b]@.text());
                        } else {
                            assert(old_found[a]@.text() != name@);
                        }
                    }
                    assert forall|k: int| 0 <= k < found@.len() implies last_named(
                        after,
                        (#[trigger] found@[k])@.text(),
                    ) == Some(found@[k]@) by {
                        if k < n {
                            assert(old_found[k]@.text() != name@);
                        }
                    }
                    assert forall|m: int| 0 <= m < after.len() implies exists|k: int|
                        0 <= k < found@.len() && (#[trigger] found@[k])@.text() == (
                        #[trigger] after[m])@.text() by {
                        if m < i as int {
                            assert(after[m] == before[m]);
                            let k = choose|k: int|
                                0 <= k < old_found.len() && (#[trigger] old_found[k])@.text()
                                    == before[m]@.text();
                            assert(found@[k]@.text() == after[m]@.text());
                        } else {
                            assert(found@[n]@.text() == after[m]@.text());
                        }
                    }
                }
            },
        }
        i = i + 1;
    }
    assert(assets@.subrange(0, i as int) =~= assets@);
    found
}

impl MakerErrorView {
    /// The message of the error.
    pub open spec fn message(self) -> Seq<char> {
        match self {
            MakerErrorView::Std(e) => e.message(),
            MakerErrorView::Unauthorized => "Unauthorized"@,
            MakerErrorView::IncorrectGovernancePercent => "Incorrect governance percent of its share"@,
            MakerErrorView::IncorrectMaxSpread => "Incorrect max spread"@,
            MakerErrorView::PairNotFound(a, b) => "Pair not found for "@ + a.text() + " and "@
                + b.text(),
            MakerErrorView::Ownership(e) => e.message(),
        }
    }
}

impl MakerError {
    /// The message of the error, as text.
    pub fn to_string(&self) -> (r: String)
        ensures
            r@ == self@.message(),
    {
        match self {
            MakerError::Std(e) => e.to_string(),
            MakerError::Unauthorized => String::from_str("Unauthorized"),
            MakerError::IncorrectGovernancePercent => String::from_str(
                "Incorrect governance percent of its share",
            ),
            MakerError::IncorrectMaxSpread => String::from_str("Incorrect max spread"),
            MakerError::PairNotFound(a, b) => {
                let mut s = String::from_str("Pair not found for ");
                let first: String = a.to_string();
                s.append(first.as_str());
                s.append(" and ");
                let second: String = b.to_string();
                s.append(second.as_str());
                s
            },
            MakerError::Ownership(e) => e.to_string(),
        }
    }
}

/// Whether an asset is another than the reference token of the fee sweep.
pub open spec fn not_reference(cfg: ConfigView) -> spec_fn(AssetInfo) -> bool {
    |a: AssetInfo| a@ != (AssetInfoView::Token { contract_addr: cfg.astro_token_contract })
}

/// The values of a list of assets.
pub open spec fn asset_views(assets: Seq<AssetInfo>) -> Seq<AssetInfoView> {
    assets.map_values(|a: AssetInfo| a@)
}

/// The assets whose balances a sweep asks for: each asset of the pairs once
/// by name, the reference token left out.
///
/// `pair_assets` holds the assets of the pairs to sweep, two for each pair.
/// The result is what `unique_assets` makes of them, in its order, without
/// the reference token.
pub fn assets_to_sweep(cfg: &Config, pair_assets: &Vec<AssetInfo>) -> (r: Vec<AssetInfo>)
    ensures
        exists|u: Seq<AssetInfo>|
            holds_by_name(u, pair_assets@) && asset_views(r@) == asset_views(
                u.filter(not_reference(cfg@)),
            ),
{
    let unique: Vec<AssetInfo> = unique_assets(pair_assets);
    let mut result: Vec<AssetInfo> = Vec::new();
    let mut i: usize = 0;
    proof {
        reveal(Seq::filter);
        assert(unique@.subrange(0, 0).len() == 0);
        assert(asset_views(result@) =~= asset_views(
            unique@.subrange(0, 0).filter(not_reference(cfg@)),
        ));
    }
    while i < unique.len()
        invariant
            i <= unique.len(),
            asset_views(result@) == asset_views(
                unique@.subrange(0, i as int).filter(not_reference(cfg@)),
            ),
        decreases unique.len() - i,
    {
        let ghost before = unique@.subrange(0, i as int);
        let ghost after = unique@.subrange(0, i as int + 1);
        let ghost kept = result@;
        proof {
            reveal(Seq::filter);
            assert(after.drop_last() =~= before);
            assert(after.last() == unique@[i as int]);
        }
        if !is_reference_token(cfg, &unique[i]) {
            result.push(unique[i].duplicate());
            proof {
                assert(after.filter(not_reference(cfg@)) == before.filter(
                    not_reference(cfg@),
                ).push(unique@[i as int]));
                assert(asset_views(result@) =~= asset_views(kept).push(unique@[i as int]@));
                assert(asset_views(after.filter(not_reference(cfg@))) =~= asset_views(
                    before.filter(not_reference(cfg@)),
                ).push(unique@[i as int]@));
            }
        } else {
            proof {
                assert(after.filter(not_reference(cfg@)) == before.filter(not_reference(cfg@)));
            }
        }
        i = i + 1;
    }
    proof {
        assert(unique@.subrange(0, i as int) =~= unique@);
        assert(holds_by_name(unique@, pair_assets@));
    }
    result
}

/// What the host found out for an asset to swap: the pair that trades it
/// for the reference token, if there is one, and the tax on its transfers.
#[derive(Clone, Debug, PartialEq, Eq)]
pub struct Route {
    pub pair_contract: Option<String>,
    pub tax_rate: Decimal,
    pub tax_cap: u128,
}

/// Why the swap of the asset at `i`, or of a later one, cannot be built: the
/// refusal of the first such asset; `None` when all can.
pub open spec fn refusal_from(cfg: ConfigView, held: Seq<Asset>, routes: Seq<Route>, i: int)
    -> Option<MakerErrorView>
    decreases held.len() - i,
{
    if i < 0 || i >= held.len() || i >= routes.len() {
        None
    } else {
        match swap_refusal(
            cfg,
            held[i].info@,
            text_of(routes[i].pair_contract),
            routes[i].tax_rate,
        ) {
            Some(e) => Some(e),
            None => refusal_from(cfg, held, routes, i + 1),
        }
    }
}

/// Whether messages are the swaps of the assets held, one for each in their
/// order, of which the last alone is to report back.
pub open spec fn are_swaps(msgs: Seq<SubMsg>, cfg: ConfigView, held: Seq<Asset>, routes: Seq<Route>)
    -> bool {
    msgs.len() == held.len() && forall|i: int|
        0 <= i < msgs.len() ==> is_swap_msg(
            (#[trigger] msgs[i]).msg,
            cfg,
            held[i].info@,
            held[i].amount,
            routes[i].pair_contract.unwrap()@,
            routes[i].tax_rate,
            routes[i].tax_cap,
        ) && msgs[i].reply_on == (if i == msgs.len() - 1 {
            ReplyOn::Success
        } else {
            ReplyOn::Never
        })
}

/// The messages of a sweep.
///
/// `held` holds the assets to sweep of which something is held, each with
/// what is held of it, and `routes` what the host found out for each, in the
/// same order. Each asset is swapped into the reference token, in full but
/// for the tax on a native currency, and the last swap is to report back, so
/// that the proceeds are handed out once all are done. Where nothing is
/// held, the reference token held, `astro_balance`, is handed out at once,
/// if there is any. The sweep is refused where a swap cannot be built, with
/// the refusal of the first such asset.
pub fn sweep(cfg: &Config, held: &Vec<Asset>, routes: &Vec<Route>, astro_balance: u128) -> (r:
    Result<Vec<SubMsg>, MakerError>)
    requires
        cfg@.wf(),
        held.len() == routes.len(),
    ensures
        match refusal_from(cfg@, held@, routes@, 0) {
            Some(e) => r matches Err(x) && x@ == e,
            None => r matches Ok(msgs) && if held.len() > 0 {
                are_swaps(msgs@, cfg@, held@, routes@)
            } else if astro_balance != 0 {
                are_token_payments(
                    msgs@,
                    cfg.astro_token_contract@,
                    distributed(cfg@, astro_balance),
                )
            } else {
                msgs@.len() == 0
            },
        },
{
    let mut swaps: Vec<SubMsg> = Vec::new();
    let mut i: usize = 0;
    while i < held.len()
        invariant
            i <= held.len(),
            held.len() == routes.len(),
            swaps.len() == i,
            refusal_from(cfg@, held@, routes@, 0) == refusal_from(cfg@, held@, routes@, i as int),
            forall|j: int|
                0 <= j < i ==> is_swap_to_astro(
                    #[trigger] swaps@[j],
                    cfg@,
                    held@[j].info@,
                    held@[j].amount,
                    routes@[j].pair_contract.unwrap()@,
                    routes@[j].tax_rate,
                    routes@[j].tax_cap,
                ),
        decreases held.len() - i,
    {
        let pair: Option<String> = match &routes[i].pair_contract {
            Some(p) => Some(p.clone()),
            None => None,
        };
        let msg: SubMsg = swap_to_astro(
            cfg,
            held[i].info.duplicate(),
            held[i].amount,
            pair,
            routes[i].tax_rate,
            routes[i].tax_cap,
        )?;
        swaps.push(msg);
        i = i + 1;
    }
    let ghost built = swaps@;
    let msgs: Vec<SubMsg> = collect(cfg, swaps, astro_balance);
    proof {
        if held.len() > 0 {
            assert forall|k: int| 0 <= k < msgs@.len() implies is_swap_msg(
                (#[trigger] msgs@[k]).msg,
                cfg@,
                held@[k].info@,
                held@[k].amount,
                routes@[k].pair_contract.unwrap()@,
                routes@[k].tax_rate,
                routes@[k].tax_cap,
            ) && msgs@[k].reply_on == (if k == msgs@.len() - 1 {
                ReplyOn::Success
            } else {
                ReplyOn::Never
            }) by {
                assert(is_swap_to_astro(
                    built[k],
                    cfg@,
                    held@[k].info@,
                    held@[k].amount,
                    routes@[k].pair_contract.unwrap()@,
                    routes@[k].tax_rate,
                    routes@[k].tax_cap,
                ));
                if k < msgs@.len() - 1 {
                    assert(msgs@.drop_last()[k] == built.drop_last()[k]);
                } else {
                    assert(msgs@.last() == msgs@[k]);
                    assert(built.last() == built[k]);
                }
            }
        }
    }
    Ok(msgs)
}

/// What the fee sweep can be asked to do.
#[derive(Clone, Debug, PartialEq, Eq)]
pub enum ExecuteMsg {
    /// Sweep the fees held of the assets of the pairs at these addresses.
    Collect { pair_addresses: Vec<String> },
    /// Change the settings.
    UpdateConfig {
        factory_contract: Option<String>,
        staking_contract: Option<String>,
        governance_contract: Option<UpdateAddr>,
        governance_percent: Option<u64>,
        max_spread: Option<Decimal>,
    },
    /// Propose a new owner, for `expires_in` seconds.
    ProposeNewOwner { owner: String, expires_in: u64 },
    /// Withdraw the proposal of a new owner.
    DropOwnershipProposal,
    /// Take the ownership over as proposed.
    ClaimOwnership,
}

/// What the fee sweep keeps between two requests: its settings, and the
/// proposal of a new owner while one is open.
#[derive(Clone, Debug, PartialEq, Eq)]
pub struct Stored {
    pub config: Config,
    pub proposal: Option<OwnershipProposal>,
}

/// The host's verdict on each address that a request can hold.
#[derive(Clone, Copy, Debug, PartialEq, Eq, Structural)]
pub struct ExecuteVerdicts {
    pub factory_contract: bool,
    pub staking_contract: bool,
    pub governance_contract: bool,
    pub new_owner: bool,
}

/// What is to be done on a request.
#[derive(Clone, Debug, PartialEq, Eq)]
pub enum Outcome {
    /// The fees of these pairs are to be swept; nothing is stored.
    Sweep { pair_addresses: Vec<String> },
    /// The settings and the proposal are to be stored as given, and the
    /// record handed back.
    Store { config: Config, proposal: Option<OwnershipProposal>, attributes: Vec<Attribute> },
}

/// The value of an optional proposal: the proposed owner, and the end of the
/// proposal.
pub open spec fn proposal_of(p: Option<OwnershipProposal>) -> Option<(Seq<char>, u64)> {
    match p {
        Some(x) => Some((x.owner@, x.ttl)),
        None => None,
    }
}

/// Whether a request that is granted stores these settings and this
/// proposal and hands this record back.
pub open spec fn stores(
    r: Result<Outcome, MakerError>,
    config: ConfigView,
    proposal: Option<(Seq<char>, u64)>,
    record: Seq<(Seq<char>, Seq<char>)>,
) -> bool {
    r matches Ok(Outcome::Store { config: c, proposal: p, attributes }) && c@ == config
        && proposal_of(p) == proposal && attribute_texts(attributes@) == record
}

/// Whether a request is refused with this error.
pub open spec fn refuses(r: Result<Outcome, MakerError>, e: MakerErrorView) -> bool {
    r matches Err(x) && x@ == e
}

/// Decides what is to be done on a request of `sender` at `now`, from what
/// the fee sweep has stored.
///
/// A sweep is handed on as it is. A change of settings is granted and
/// recorded as `update_config` has it. A new owner is proposed by the owner,
/// the proposal is withdrawn by the owner, and the ownership is taken over
/// by the owner proposed while the proposal is open; each leaves the
/// settings and the proposal to store, and its record. `valid` holds the
/// host's verdict on each address of the request.
pub fn execute(
    state: Stored,
    sender: &String,
    msg: ExecuteMsg,
    valid: ExecuteVerdicts,
    now: u64,
) -> (r: Result<Outcome, MakerError>)
    ensures
        match msg {
            ExecuteMsg::Collect { pair_addresses } => r matches Ok(
                Outcome::Sweep { pair_addresses: p },
            ) && p == pair_addresses,
            ExecuteMsg::UpdateConfig {
                factory_contract,
                staking_contract,
                governance_contract,
                governance_percent,
                max_spread,
            } => match update_refusal(
                state.config@,
                sender@,
                text_of(factory_contract),
                text_of(staking_contract),
                change_of(governance_contract),
                governance_percent,
                max_spread,
                UpdateVerdicts {
                    factory_contract: valid.factory_contract,
                    staking_contract: valid.staking_contract,
                    governance_contract: valid.governance_contract,
                },
            ) {
                Some(e) => refuses(r, e),
                None => stores(
                    r,
                    updated_config(
                        state.config@,
                        text_of(factory_contract),
                        text_of(staking_contract),
                        change_of(governance_contract),
                        governance_percent,
                        max_spread,
                    ),
                    proposal_of(state.proposal),
                    update_record(
                        text_of(factory_contract),
                        text_of(staking_contract),
                        change_of(governance_contract),
                        governance_percent,
                        written(max_spread),
                    ),
                ),
            },
            ExecuteMsg::ProposeNewOwner { owner, expires_in } => match proposed(
                sender@,
                state.config.owner@,
                owner@,
                valid.new_owner,
                expires_in,
                now,
            ) {
                Err(e) => refuses(r, MakerErrorView::Ownership(e)),
                Ok((o, ttl)) => stores(
                    r,
                    state.config@,
                    Some((o, ttl)),
                    seq![("action"@, "propose_new_owner"@), ("new_owner"@, o)],
                ),
            },
            ExecuteMsg::DropOwnershipProposal => if sender@ != state.config.owner@ {
                refuses(r, MakerErrorView::Ownership(OwnershipErrorView::Unauthorized))
            } else {
                stores(r, state.config@, None, seq![("action"@, "drop_ownership_proposal"@)])
            },
            ExecuteMsg::ClaimOwnership => match state.proposal {
                None => refuses(
                    r,
                    MakerErrorView::Ownership(OwnershipErrorView::ProposalNotFound),
                ),
                Some(p) => if sender@ != p.owner@ {
                    refuses(r, MakerErrorView::Ownership(OwnershipErrorView::Unauthorized))
                } else if now > p.ttl {
                    refuses(r, MakerErrorView::Ownership(OwnershipErrorView::ProposalExpired))
                } else {
                    stores(
                        r,
                        ConfigView { owner: p.owner@, ..state.config@ },
                        None,
                        seq![("action"@, "claim_ownership"@), ("new_owner"@, p.owner@)],
                    )
                },
            },
        },
{
    match msg {
        ExecuteMsg::Collect { pair_addresses } => Ok(Outcome::Sweep { pair_addresses }),
        ExecuteMsg::UpdateConfig {
            factory_contract,
            staking_contract,
            governance_contract,
            governance_percent,
            max_spread,
        } => {
            let (config, attributes) = update_config(
                &state.config,
                sender,
                factory_contract,
                staking_contract,
                governance_contract,
                governance_percent,
                max_spread,
                UpdateVerdicts {
                    factory_contract: valid.factory_contract,
                    staking_contract: valid.staking_contract,
                    governance_contract: valid.governance_contract,
                },
            )?;
            Ok(Outcome::Store { config, proposal: state.proposal, attributes })
        },
        ExecuteMsg::ProposeNewOwner { owner, expires_in } => {
            let proposal: OwnershipProposal = match propose_new_owner(
                sender,
                &state.config.owner,
                &owner,
                valid.new_owner,
                expires_in,
                now,
            ) {
                Ok(p) => p,
                Err(e) => {
                    return Err(MakerError::Ownership(e));
                },
            };
            let mut attributes: Vec<Attribute> = Vec::new();
            attributes.push(attribute("action", String::from_str("propose_new_owner")));
            attributes.push(attribute("new_owner", proposal.owner.clone()));
            assert(attribute_texts(attributes@) =~= seq![
                ("action"@, "propose_new_owner"@),
                ("new_owner"@, proposal.owner@),
            ]);
            Ok(Outcome::Store { config: state.config, proposal: Some(proposal), attributes })
        },
        ExecuteMsg::DropOwnershipProposal => {
            match drop_ownership_proposal(sender, &state.config.owner) {
                Ok(_) => {},
                Err(e) => {
                    return Err(MakerError::Ownership(e));
                },
            }
            let mut attributes: Vec<Attribute> = Vec::new();
            attributes.push(attribute("action", String::from_str("drop_ownership_proposal")));
            assert(attribute_texts(attributes@) =~= seq![("action"@, "drop_ownership_proposal"@)]);
            Ok(Outcome::Store { config: state.config, proposal: None, attributes })
        },
        ExecuteMsg::ClaimOwnership => {
            let new_owner: String = match claim_ownership(sender, state.proposal, now) {
                Ok(o) => o,
                Err(e) => {
                    return Err(MakerError::Ownership(e));
                },
            };
            let mut attributes: Vec<Attribute> = Vec::new();
            attributes.push(attribute("action", String::from_str("claim_ownership")));
            attributes.push(attribute("new_owner", new_owner.clone()));
            assert(attribute_texts(attributes@) =~= seq![
                ("action"@, "claim_ownership"@),
                ("new_owner"@, new_owner@),
            ]);
            let config = Config {
                owner: new_owner,
                astro_token_contract: state.config.astro_token_contract,
                factory_contract: state.config.factory_contract,
                staking_contract: state.config.staking_contract,
                governance_contract: state.config.governance_contract,
                governance_percent: state.config.governance_percent,
                max_spread: state.config.max_spread,
            };
            Ok(Outcome::Store { config, proposal: None, attributes })
        },
    }
}

} // verus!
