use astroport_pool::asset::{Asset, AssetError, AssetInfo, Coin, TransferMsg};
use astroport_pool::common::{
    claim_ownership, drop_ownership_proposal, propose_against, propose_new_owner,
    OwnershipError, OwnershipProposal, MAX_PROPOSAL_TTL,
};
use astroport_pool::maker::{
    apply_config_update, assets_to_sweep, collect, distribute_astro, execute, instantiate,
    is_reference_token, query_get_balances, query_get_config, reply, swap_to_astro, sweep,
    unique_assets, update_config, AddressVerdicts, Attribute, Config, ExecuteMsg,
    ExecuteVerdicts, InstantiateMsg, MakerError, MakerMsg, Outcome, ReplyOn, Route, Stored,
    SubMsg, UpdateAddr, UpdateVerdicts,
};
use astroport_pool::math::Decimal;

fn native(denom: &str) -> AssetInfo {
    AssetInfo::NativeToken { denom: denom.to_string() }
}

fn token(addr: &str) -> AssetInfo {
    AssetInfo::Token { contract_addr: addr.to_string() }
}

fn all_valid() -> AddressVerdicts {
    AddressVerdicts {
        owner: true,
        astro_token_contract: true,
        factory_contract: true,
        staking_contract: true,
        governance_contract: true,
    }
}

fn updates_valid() -> UpdateVerdicts {
    UpdateVerdicts { factory_contract: true, staking_contract: true, governance_contract: true }
}

fn message() -> InstantiateMsg {
    InstantiateMsg {
        owner: "owner".to_string(),
        astro_token_contract: "astro".to_string(),
        factory_contract: "factory".to_string(),
        staking_contract: "staking".to_string(),
        governance_contract: Some("governance".to_string()),
        governance_percent: Some(10),
        max_spread: Some(Decimal::percent(50)),
    }
}

fn config() -> Config {
    instantiate(message(), all_valid()).unwrap()
}

fn payment(recipient: &str, amount: u128) -> SubMsg {
    SubMsg {
        msg: MakerMsg::Transfer(TransferMsg::Token {
            contract_addr: "astro".to_string(),
            recipient: recipient.to_string(),
            amount,
        }),
        reply_on: ReplyOn::Never,
    }
}

fn attr(key: &str, value: &str) -> Attribute {
    Attribute { key: key.to_string(), value: value.to_string() }
}

#[test]
fn sweep_setup_takes_the_message_over() {
    assert_eq!(
        config(),
        Config {
            owner: "owner".to_string(),
            astro_token_contract: "astro".to_string(),
            factory_contract: "factory".to_string(),
            staking_contract: "staking".to_string(),
            governance_contract: Some("governance".to_string()),
            governance_percent: 10,
            max_spread: Decimal::percent(50),
        }
    );
}

#[test]
fn sweep_setup_defaults() {
    let mut msg = message();
    msg.governance_contract = None;
    msg.governance_percent = None;
    msg.max_spread = None;
    let cfg = instantiate(msg, all_valid()).unwrap();
    assert_eq!(cfg.governance_contract, None);
    assert_eq!(cfg.governance_percent, 0);
    assert_eq!(cfg.max_spread, Decimal::percent(5));
}

#[test]
fn sweep_setup_refusals() {
    let mut msg = message();
    msg.governance_percent = Some(101);
    assert_eq!(instantiate(msg, all_valid()), Err(MakerError::IncorrectGovernancePercent));
    let mut msg = message();
    msg.governance_percent = Some(100);
    assert!(instantiate(msg, all_valid()).is_ok());

    let mut msg = message();
    msg.max_spread = Some(Decimal { atomics: Decimal::one().atomics + 1 });
    assert_eq!(instantiate(msg, all_valid()), Err(MakerError::IncorrectMaxSpread));
    let mut msg = message();
    msg.max_spread = Some(Decimal::one());
    assert!(instantiate(msg, all_valid()).is_ok());

    let mut msg = message();
    msg.owner = "Owner".to_string();
    assert_eq!(
        instantiate(msg, all_valid()),
        Err(MakerError::Std(AssetError::AddressNotLowercase { addr: "Owner".to_string() }))
    );

    let mut verdicts = all_valid();
    verdicts.staking_contract = false;
    assert_eq!(
        instantiate(message(), verdicts),
        Err(MakerError::Std(AssetError::InvalidAddress { addr: "staking".to_string() }))
    );

    // the governance address is looked at before the governance share
    let mut msg = message();
    msg.governance_contract = Some("Gov".to_string());
    msg.governance_percent = Some(101);
    assert_eq!(
        instantiate(msg, all_valid()),
        Err(MakerError::Std(AssetError::AddressNotLowercase { addr: "Gov".to_string() }))
    );
    // the governance share is looked at before the owner
    let mut msg = message();
    msg.owner = "Owner".to_string();
    msg.governance_percent = Some(101);
    assert_eq!(instantiate(msg, all_valid()), Err(MakerError::IncorrectGovernancePercent));
}

#[test]
fn proceeds_are_split_between_governance_and_staking() {
    assert_eq!(
        distribute_astro(&config(), 1000),
        vec![payment("governance", 100), payment("staking", 900)]
    );
    // rounded down: 999 * 10 / 100 = 99.9
    assert_eq!(
        distribute_astro(&config(), 999),
        vec![payment("governance", 99), payment("staking", 900)]
    );
    assert_eq!(
        distribute_astro(&config(), 0),
        vec![payment("governance", 0), payment("staking", 0)]
    );
    assert_eq!(
        distribute_astro(&config(), u128::MAX),
        vec![
            payment("governance", u128::MAX / 10),
            payment("staking", u128::MAX - u128::MAX / 10)
        ]
    );
    let mut cfg = config();
    cfg.governance_contract = None;
    assert_eq!(distribute_astro(&cfg, 1000), vec![payment("staking", 1000)]);
    let mut cfg = config();
    cfg.governance_percent = 100;
    assert_eq!(
        distribute_astro(&cfg, 1000),
        vec![payment("governance", 1000), payment("staking", 0)]
    );
}

#[test]
fn report_hands_out_what_is_held() {
    assert_eq!(reply(&config(), 0), vec![]);
    assert_eq!(reply(&config(), 50), vec![payment("governance", 5), payment("staking", 45)]);
}

#[test]
fn swap_of_a_native_currency_is_offered_less_its_tax() {
    let msg = swap_to_astro(
        &config(),
        native("uusd"),
        1_000_000,
        Some("pair".to_string()),
        Decimal::percent(1),
        5000,
    )
    .unwrap();
    assert_eq!(
        msg,
        SubMsg {
            msg: MakerMsg::SwapNative {
                pair_contract: "pair".to_string(),
                offer_asset: Asset { info: native("uusd"), amount: 995_000 },
                max_spread: Decimal::percent(50),
                funds: Coin { denom: "uusd".to_string(), amount: 995_000 },
            },
            reply_on: ReplyOn::Never,
        }
    );
}

#[test]
fn swap_of_a_token_is_sent_in_full() {
    let msg = swap_to_astro(
        &config(),
        token("terra1"),
        1_000_000,
        Some("pair".to_string()),
        Decimal::percent(1),
        5000,
    )
    .unwrap();
    assert_eq!(
        msg,
        SubMsg {
            msg: MakerMsg::SwapToken {
                token_contract: "terra1".to_string(),
                pair_contract: "pair".to_string(),
                amount: 1_000_000,
                max_spread: Decimal::percent(50),
            },
            reply_on: ReplyOn::Never,
        }
    );
}

#[test]
fn swap_without_a_pair_is_refused() {
    let err = swap_to_astro(&config(), native("uusd"), 5, None, Decimal::zero(), 0).unwrap_err();
    assert_eq!(err, MakerError::PairNotFound(native("uusd"), token("astro")));
    assert_eq!(err.to_string(), "Pair not found for uusd and astro");
    assert_eq!(
        swap_to_astro(
            &config(),
            native("uusd"),
            5,
            Some("pair".to_string()),
            Decimal { atomics: u128::MAX },
            0
        ),
        Err(MakerError::Std(AssetError::Overflow))
    );
}

#[test]
fn settings_change_by_the_owner() {
    let (cfg, attributes) = update_config(
        &config(),
        &"owner".to_string(),
        Some("factory2".to_string()),
        Some("staking2".to_string()),
        Some(UpdateAddr::SetTo("gov2".to_string())),
        Some(20),
        Some(Decimal::percent(50)),
        updates_valid(),
    )
    .unwrap();
    assert_eq!(cfg.owner, "owner");
    assert_eq!(cfg.astro_token_contract, "astro");
    assert_eq!(cfg.factory_contract, "factory2");
    assert_eq!(cfg.staking_contract, "staking2");
    assert_eq!(cfg.governance_contract, Some("gov2".to_string()));
    assert_eq!(cfg.governance_percent, 20);
    assert_eq!(cfg.max_spread, Decimal::percent(50));
    assert_eq!(
        attributes,
        vec![
            attr("action", "set_config"),
            attr("factory_contract", "factory2"),
            attr("staking_contract", "staking2"),
            attr("governance_contract", "gov2"),
            attr("governance_percent", "20"),
            attr("max_spread", "0.5"),
        ]
    );
}

#[test]
fn settings_change_of_nothing_and_of_governance_removed() {
    let owner = "owner".to_string();
    let (cfg, attributes) =
        update_config(&config(), &owner, None, None, None, None, None, updates_valid()).unwrap();
    assert_eq!(cfg, config());
    assert_eq!(attributes, vec![attr("action", "set_config")]);

    let (cfg, attributes) = update_config(
        &config(),
        &owner,
        None,
        None,
        Some(UpdateAddr::Remove),
        None,
        Some(Decimal { atomics: 1_250_000_000_000_000_000 / 10 }),
        updates_valid(),
    )
    .unwrap();
    assert_eq!(cfg.governance_contract, None);
    assert_eq!(attributes, vec![attr("action", "set_config"), attr("max_spread", "0.125")]);
}

#[test]
fn settings_change_refusals() {
    let owner = "owner".to_string();
    assert_eq!(
        update_config(
            &config(),
            &"alice".to_string(),
            None,
            None,
            None,
            Some(101),
            None,
            updates_valid()
        ),
        Err(MakerError::Unauthorized)
    );
    assert_eq!(
        update_config(&config(), &owner, None, None, None, Some(101), None, updates_valid()),
        Err(MakerError::IncorrectGovernancePercent)
    );
    assert_eq!(
        update_config(
            &config(),
            &owner,
            None,
            None,
            None,
            None,
            Some(Decimal::percent(101)),
            updates_valid()
        ),
        Err(MakerError::IncorrectMaxSpread)
    );
    assert_eq!(
        update_config(
            &config(),
            &owner,
            Some("Factory".to_string()),
            None,
            None,
            Some(101),
            None,
            updates_valid()
        ),
        Err(MakerError::Std(AssetError::AddressNotLowercase { addr: "Factory".to_string() }))
    );
    let mut verdicts = updates_valid();
    verdicts.governance_contract = false;
    assert_eq!(
        update_config(
            &config(),
            &owner,
            None,
            None,
            Some(UpdateAddr::SetTo("gov".to_string())),
            None,
            None,
            verdicts
        ),
        Err(MakerError::Std(AssetError::InvalidAddress { addr: "gov".to_string() }))
    );
    // removing asks nothing of the host
    assert!(update_config(
        &config(),
        &owner,
        None,
        None,
        Some(UpdateAddr::Remove),
        None,
        None,
        verdicts
    )
    .is_ok());
}

#[test]
fn settings_are_reported_as_stored() {
    let r = query_get_config(&config());
    assert_eq!(r.owner, "owner");
    assert_eq!(r.factory_contract, "factory");
    assert_eq!(r.staking_contract, "staking");
    assert_eq!(r.governance_contract, Some("governance".to_string()));
    assert_eq!(r.governance_percent, 10);
    assert_eq!(r.astro_token_contract, "astro");
    assert_eq!(r.max_spread, Decimal::percent(50));
}

#[test]
fn balances_of_nothing_are_left_out() {
    let assets = vec![native("uusd"), token("terra1"), native("uluna")];
    assert_eq!(
        query_get_balances(&assets, &vec![5, 0, 7]),
        vec![Asset { info: native("uusd"), amount: 5 }, Asset { info: native("uluna"), amount: 7 }]
    );
    assert_eq!(query_get_balances(&assets, &vec![0, 0, 0]), vec![]);
    assert_eq!(query_get_balances(&vec![], &vec![]), vec![]);
}

#[test]
fn assets_are_gathered_once_by_name() {
    let assets = vec![
        native("uusd"),
        token("astro"),
        native("uluna"),
        native("uusd"),
        token("uluna"),
        token("astro"),
    ];
    // the later entry under a name replaces the earlier one
    assert_eq!(unique_assets(&assets), vec![native("uusd"), token("astro"), token("uluna")]);
    assert_eq!(unique_assets(&vec![]), vec![]);
    assert!(is_reference_token(&config(), &token("astro")));
    assert!(!is_reference_token(&config(), &native("astro")));
    assert!(!is_reference_token(&config(), &token("terra1")));
}

#[test]
fn sweep_ends_with_a_report_or_a_payout() {
    let swap = |addr: &str| SubMsg {
        msg: MakerMsg::SwapToken {
            token_contract: addr.to_string(),
            pair_contract: "pair".to_string(),
            amount: 1,
            max_spread: Decimal::percent(50),
        },
        reply_on: ReplyOn::Never,
    };
    let mut marked = swap("b");
    marked.reply_on = ReplyOn::Success;
    assert_eq!(collect(&config(), vec![swap("a"), swap("b")], 1000), vec![swap("a"), marked]);
    assert_eq!(
        collect(&config(), vec![], 1000),
        vec![payment("governance", 100), payment("staking", 900)]
    );
    assert_eq!(collect(&config(), vec![], 0), vec![]);
}

#[test]
fn record_shows_the_spread_as_it_is_given() {
    let (cfg, attributes) = apply_config_update(
        &config(),
        &"owner".to_string(),
        None,
        None,
        None,
        None,
        Some((Decimal::percent(7), "seven hundredths".to_string())),
        updates_valid(),
    )
    .unwrap();
    assert_eq!(cfg.max_spread, Decimal::percent(7));
    assert_eq!(
        attributes,
        vec![attr("action", "set_config"), attr("max_spread", "seven hundredths")]
    );
    assert!(cfg.is_valid());
    let mut broken = config();
    broken.governance_percent = 101;
    assert!(!broken.is_valid());
}

#[test]
fn ownership_changes_hands_by_proposal_and_claim() {
    let owner = "owner".to_string();
    let alice = "alice".to_string();
    let proposal = propose_new_owner(&owner, &owner, &alice, true, 100, 1000).unwrap();
    assert_eq!(proposal, OwnershipProposal { owner: "alice".to_string(), ttl: 1100 });
    assert_eq!(
        propose_new_owner(&alice, &owner, &alice, true, 100, 1000),
        Err(OwnershipError::Unauthorized)
    );
    assert_eq!(
        propose_new_owner(&owner, &owner, &"Alice".to_string(), true, 100, 1000),
        Err(OwnershipError::Std(AssetError::AddressNotLowercase { addr: "Alice".to_string() }))
    );
    assert_eq!(
        propose_new_owner(&owner, &owner, &alice, false, 100, 1000),
        Err(OwnershipError::Std(AssetError::InvalidAddress { addr: "alice".to_string() }))
    );
    assert_eq!(
        propose_new_owner(&owner, &owner, &owner, true, 100, 1000),
        Err(OwnershipError::SameOwner)
    );
    assert_eq!(
        propose_new_owner(&owner, &owner, &alice, true, MAX_PROPOSAL_TTL + 1, 1000),
        Err(OwnershipError::ExpiresTooLate)
    );
    assert!(propose_new_owner(&owner, &owner, &alice, true, MAX_PROPOSAL_TTL, 1000).is_ok());
    assert_eq!(
        propose_new_owner(&owner, &owner, &alice, true, 100, u64::MAX),
        Err(OwnershipError::Overflow)
    );
    assert_eq!(
        propose_against(&owner, &owner, &alice, &"other".to_string(), true, 100, 1000),
        Err(OwnershipError::Std(AssetError::AddressNotLowercase { addr: "alice".to_string() }))
    );
    assert_eq!(
        OwnershipError::ExpiresTooLate.to_string(),
        "Parameter expires_in cannot be higher than 1209600"
    );

    assert_eq!(drop_ownership_proposal(&owner, &owner), Ok(()));
    assert_eq!(drop_ownership_proposal(&alice, &owner), Err(OwnershipError::Unauthorized));

    assert_eq!(claim_ownership(&alice, Some(proposal.clone()), 1100), Ok("alice".to_string()));
    assert_eq!(
        claim_ownership(&alice, Some(proposal.clone()), 1101),
        Err(OwnershipError::ProposalExpired)
    );
    assert_eq!(
        claim_ownership(&owner, Some(proposal), 1000),
        Err(OwnershipError::Unauthorized)
    );
    assert_eq!(claim_ownership(&alice, None, 1000), Err(OwnershipError::ProposalNotFound));
}

fn stored(proposal: Option<OwnershipProposal>) -> Stored {
    Stored { config: config(), proposal }
}

fn verdicts() -> ExecuteVerdicts {
    ExecuteVerdicts {
        factory_contract: true,
        staking_contract: true,
        governance_contract: true,
        new_owner: true,
    }
}

#[test]
fn request_for_a_sweep_is_handed_on() {
    let pairs = vec!["pair1".to_string(), "pair2".to_string()];
    assert_eq!(
        execute(
            stored(None),
            &"anyone".to_string(),
            ExecuteMsg::Collect { pair_addresses: pairs.clone() },
            verdicts(),
            5
        ),
        Ok(Outcome::Sweep { pair_addresses: pairs })
    );
}

#[test]
fn request_for_new_settings_stores_them() {
    let open = OwnershipProposal { owner: "alice".to_string(), ttl: 100 };
    let msg = ExecuteMsg::UpdateConfig {
        factory_contract: None,
        staking_contract: Some("staking2".to_string()),
        governance_contract: None,
        governance_percent: Some(7),
        max_spread: None,
    };
    let mut expected = config();
    expected.staking_contract = "staking2".to_string();
    expected.governance_percent = 7;
    assert_eq!(
        execute(stored(Some(open.clone())), &"owner".to_string(), msg.clone(), verdicts(), 5),
        Ok(Outcome::Store {
            config: expected,
            proposal: Some(open),
            attributes: vec![
                attr("action", "set_config"),
                attr("staking_contract", "staking2"),
                attr("governance_percent", "7"),
            ],
        })
    );
    assert_eq!(
        execute(stored(None), &"alice".to_string(), msg.clone(), verdicts(), 5),
        Err(MakerError::Unauthorized)
    );
    let mut refused = verdicts();
    refused.staking_contract = false;
    assert_eq!(
        execute(stored(None), &"owner".to_string(), msg, refused, 5),
        Err(MakerError::Std(AssetError::InvalidAddress { addr: "staking2".to_string() }))
    );
}

#[test]
fn requests_for_a_new_owner() {
    let owner = "owner".to_string();
    let alice = "alice".to_string();
    let propose = ExecuteMsg::ProposeNewOwner { owner: "alice".to_string(), expires_in: 100 };
    let open = OwnershipProposal { owner: "alice".to_string(), ttl: 1100 };
    assert_eq!(
        execute(stored(None), &owner, propose.clone(), verdicts(), 1000),
        Ok(Outcome::Store {
            config: config(),
            proposal: Some(open.clone()),
            attributes: vec![attr("action", "propose_new_owner"), attr("new_owner", "alice")],
        })
    );
    assert_eq!(
        execute(stored(None), &alice, propose.clone(), verdicts(), 1000),
        Err(MakerError::Ownership(OwnershipError::Unauthorized))
    );
    let mut refused = verdicts();
    refused.new_owner = false;
    assert_eq!(
        execute(stored(None), &owner, propose, refused, 1000),
        Err(MakerError::Ownership(OwnershipError::Std(AssetError::InvalidAddress {
            addr: "alice".to_string()
        })))
    );

    assert_eq!(
        execute(
            stored(Some(open.clone())),
            &owner,
            ExecuteMsg::DropOwnershipProposal,
            verdicts(),
            1000
        ),
        Ok(Outcome::Store {
            config: config(),
            proposal: None,
            attributes: vec![attr("action", "drop_ownership_proposal")],
        })
    );
    assert_eq!(
        execute(
            stored(Some(open.clone())),
            &alice,
            ExecuteMsg::DropOwnershipProposal,
            verdicts(),
            1000
        ),
        Err(MakerError::Ownership(OwnershipError::Unauthorized))
    );

    let mut handed_over = config();
    handed_over.owner = "alice".to_string();
    assert_eq!(
        execute(stored(Some(open.clone())), &alice, ExecuteMsg::ClaimOwnership, verdicts(), 1100),
        Ok(Outcome::Store {
            config: handed_over,
            proposal: None,
            attributes: vec![attr("action", "claim_ownership"), attr("new_owner", "alice")],
        })
    );
    assert_eq!(
        execute(stored(Some(open.clone())), &alice, ExecuteMsg::ClaimOwnership, verdicts(), 1101),
        Err(MakerError::Ownership(OwnershipError::ProposalExpired))
    );
    assert_eq!(
        execute(stored(Some(open)), &owner, ExecuteMsg::ClaimOwnership, verdicts(), 1000),
        Err(MakerError::Ownership(OwnershipError::Unauthorized))
    );
    let err = execute(stored(None), &alice, ExecuteMsg::ClaimOwnership, verdicts(), 1000);
    assert_eq!(err, Err(MakerError::Ownership(OwnershipError::ProposalNotFound)));
    assert_eq!(err.unwrap_err().to_string(), "Ownership proposal not found");
}

fn found(pair: &str) -> Route {
    Route { pair_contract: Some(pair.to_string()), tax_rate: Decimal::percent(1), tax_cap: 5000 }
}

#[test]
fn sweep_asks_for_each_asset_once_but_the_reference_token() {
    let pair_assets = vec![
        native("uusd"),
        token("astro"),
        native("uluna"),
        native("uusd"),
        token("terra1"),
        token("astro"),
        token("uluna"),
        native("uusd"),
    ];
    assert_eq!(
        assets_to_sweep(&config(), &pair_assets),
        vec![native("uusd"), token("uluna"), token("terra1")]
    );
    assert_eq!(assets_to_sweep(&config(), &vec![token("astro"), token("astro")]), vec![]);
    // a currency of the name of the reference token is another asset
    assert_eq!(
        assets_to_sweep(&config(), &vec![token("astro"), native("astro")]),
        vec![native("astro")]
    );
    assert_eq!(assets_to_sweep(&config(), &vec![]), vec![]);
}

#[test]
fn sweep_swaps_what_is_held_and_lets_the_last_swap_report() {
    let assets = assets_to_sweep(
        &config(),
        &vec![native("uusd"), token("astro"), token("terra1"), native("uluna"), native("uusd")],
    );
    assert_eq!(assets, vec![native("uusd"), token("terra1"), native("uluna")]);
    let held = query_get_balances(&assets, &vec![1_000_000, 0, 70]);
    assert_eq!(
        held,
        vec![
            Asset { info: native("uusd"), amount: 1_000_000 },
            Asset { info: native("uluna"), amount: 70 }
        ]
    );
    let msgs = sweep(&config(), &held, &vec![found("pair1"), found("pair2")], 1000).unwrap();
    assert_eq!(
        msgs,
        vec![
            SubMsg {
                msg: MakerMsg::SwapNative {
                    pair_contract: "pair1".to_string(),
                    offer_asset: Asset { info: native("uusd"), amount: 995_000 },
                    max_spread: Decimal::percent(50),
                    funds: Coin { denom: "uusd".to_string(), amount: 995_000 },
                },
                reply_on: ReplyOn::Never,
            },
            SubMsg {
                msg: MakerMsg::SwapNative {
                    pair_contract: "pair2".to_string(),
                    // 70 - 70 * 100 / 101 = 70 - 69 is taken as tax
                    offer_asset: Asset { info: native("uluna"), amount: 69 },
                    max_spread: Decimal::percent(50),
                    funds: Coin { denom: "uluna".to_string(), amount: 69 },
                },
                reply_on: ReplyOn::Success,
            },
        ]
    );
    let one = sweep(
        &config(),
        &vec![Asset { info: token("terra1"), amount: 5 }],
        &vec![found("pair")],
        1000,
    )
    .unwrap();
    assert_eq!(
        one,
        vec![SubMsg {
            msg: MakerMsg::SwapToken {
                token_contract: "terra1".to_string(),
                pair_contract: "pair".to_string(),
                amount: 5,
                max_spread: Decimal::percent(50),
            },
            reply_on: ReplyOn::Success,
        }]
    );
}

#[test]
fn sweep_of_nothing_hands_the_reference_token_out() {
    assert_eq!(
        sweep(&config(), &vec![], &vec![], 1000),
        Ok(vec![payment("governance", 100), payment("staking", 900)])
    );
    assert_eq!(sweep(&config(), &vec![], &vec![], 0), Ok(vec![]));
}

#[test]
fn sweep_is_refused_where_a_swap_cannot_be_built() {
    let held = vec![
        Asset { info: native("uusd"), amount: 5 },
        Asset { info: token("terra1"), amount: 5 },
        Asset { info: native("uluna"), amount: 5 },
    ];
    let missing = Route { pair_contract: None, tax_rate: Decimal::zero(), tax_cap: 0 };
    let overtaxed = Route {
        pair_contract: Some("pair".to_string()),
        tax_rate: Decimal { atomics: u128::MAX },
        tax_cap: 0,
    };
    // the refusal of the first asset that cannot be swapped
    assert_eq!(
        sweep(&config(), &held, &vec![found("p"), missing.clone(), overtaxed.clone()], 0),
        Err(MakerError::PairNotFound(token("terra1"), token("astro")))
    );
    assert_eq!(
        sweep(&config(), &held, &vec![overtaxed.clone(), missing, found("p")], 0),
        Err(MakerError::Std(AssetError::Overflow))
    );
    // a token bears no tax, whatever the rate
    assert!(sweep(&config(), &held, &vec![found("p"), overtaxed, found("q")], 0).is_ok());
}
