use crate::asset::{validate_against, validated_address, AssetError, AssetErrorView};
use crate::text::{decimal_digits, push_decimal, to_lowercase};
use vstd::prelude::*;
use vstd::string::StringExecFns;

verus! {

/// Longest time, in seconds, that a proposal of a new owner may stay open.
pub const MAX_PROPOSAL_TTL: u64 = 1_209_600;

/// A proposal of a new owner, open until `ttl`.
#[derive(Clone, Debug, PartialEq, Eq)]
pub struct OwnershipProposal {
    pub owner: String,
    pub ttl: u64,
}

/// Why a change of owner is refused.
#[derive(Clone, Debug, PartialEq, Eq)]
pub enum OwnershipError {
    /// The sender may not do this.
    Unauthorized,
    /// The address of the new owner was refused.
    Std(AssetError),
    /// The new owner is the owner.
    SameOwner,
    /// The proposal would stay open for too long.
    ExpiresTooLate,
    /// The time at which the proposal ends cannot be held.
    Overflow,
    /// There is no proposal to claim.
    ProposalNotFound,
    /// The proposal is no longer open.
    ProposalExpired,
}

/// The mathematical value of an `OwnershipError`.
pub enum OwnershipErrorView {
    Unauthorized,
    Std(AssetErrorView),
    SameOwner,
    ExpiresTooLate,
    Overflow,
    ProposalNotFound,
    ProposalExpired,
}

impl View for OwnershipError {
    type V = OwnershipErrorView;

    open spec fn view(&self) -> OwnershipErrorView {
        match self {
            OwnershipError::Unauthorized => OwnershipErrorView::Unauthorized,
            OwnershipError::Std(e) => OwnershipErrorView::Std(e@),
            OwnershipError::SameOwner => OwnershipErrorView::SameOwner,
            OwnershipError::ExpiresTooLate => OwnershipErrorView::ExpiresTooLate,
            OwnershipError::Overflow => OwnershipErrorView::Overflow,
            OwnershipError::ProposalNotFound => OwnershipErrorView::ProposalNotFound,
            OwnershipError::ProposalExpired => OwnershipErrorView::ProposalExpired,
        }
    }
}

impl OwnershipErrorView {
    /// The message of the error.
    pub open spec fn message(self) -> Seq<char> {
        match self {
            OwnershipErrorView::Unauthorized => "Unauthorized"@,
            OwnershipErrorView::Std(e) => e.message(),
            OwnershipErrorView::SameOwner => "New owner cannot be same"@,
            OwnershipErrorView::ExpiresTooLate => "Parameter expires_in cannot be higher than "@
                + decimal_digits(MAX_PROPOSAL_TTL as nat),
            OwnershipErrorView::Overflow => "Overflow"@,
            OwnershipErrorView::ProposalNotFound => "Ownership proposal not found"@,
            OwnershipErrorView::ProposalExpired => "Ownership proposal expired"@,
        }
    }
}

impl OwnershipError {
    /// The message of the error, as text.
    pub fn to_string(&self) -> (r: String)
        ensures
            r@ == self@.message(),
    {
        match self {
            OwnershipError::Unauthorized => String::from_str("Unauthorized"),
            OwnershipError::Std(e) => e.to_string(),
            OwnershipError::SameOwner => String::from_str("New owner cannot be same"),
            OwnershipError::ExpiresTooLate => {
                let mut s = String::from_str("Parameter expires_in cannot be higher than ");
                push_decimal(&mut s, MAX_PROPOSAL_TTL as u128);
                s
            },
            OwnershipError::Overflow => String::from_str("Overflow"),
            OwnershipError::ProposalNotFound => String::from_str("Ownership proposal not found"),
            OwnershipError::ProposalExpired => String::from_str("Ownership proposal expired"),
        }
    }
}

/// The proposal that `sender` makes of `new_owner` at `now`, open for
/// `expires_in` seconds; or why it is refused.
///
/// Only the owner may propose. The new owner must have an address that is
/// accepted, must not be the owner, and the proposal may stay open for
/// `MAX_PROPOSAL_TTL` seconds at most.
pub open spec fn proposed(
    sender: Seq<char>,
    owner: Seq<char>,
    new_owner: Seq<char>,
    new_owner_valid: bool,
    expires_in: u64,
    now: u64,
) -> Result<(Seq<char>, u64), OwnershipErrorView> {
    if sender != owner {
        Err(OwnershipErrorView::Unauthorized)
    } else if validated_address(new_owner, new_owner_valid) is Err {
        Err(OwnershipErrorView::Std(validated_address(new_owner, new_owner_valid)->Err_0))
    } else if new_owner == owner {
        Err(OwnershipErrorView::SameOwner)
    } else if expires_in > MAX_PROPOSAL_TTL {
        Err(OwnershipErrorView::ExpiresTooLate)
    } else if now + expires_in > u64::MAX {
        Err(OwnershipErrorView::Overflow)
    } else {
        Ok((new_owner, (now + expires_in) as u64))
    }
}

/// Proposes `new_owner` on behalf of `sender`; returns the proposal to keep.
/// `new_owner_valid` is the host's verdict on the address of the new owner.
pub fn propose_new_owner(
    sender: &String,
    owner: &String,
    new_owner: &String,
    new_owner_valid: bool,
    expires_in: u64,
    now: u64,
) -> (r: Result<OwnershipProposal, OwnershipError>)
    ensures
        match proposed(sender@, owner@, new_owner@, new_owner_valid, expires_in, now) {
            Ok((o, ttl)) => r matches Ok(p) && p.owner@ == o && p.ttl == ttl,
            Err(e) => r matches Err(x) && x@ == e,
        },
{
    let lowered: String = to_lowercase(new_owner.as_str());
    propose_against(sender, owner, new_owner, &lowered, new_owner_valid, expires_in, now)
}

/// Proposes `new_owner` on behalf of `sender`, as `propose_new_owner` does,
/// with the address of the new owner given beside `lowered`, its form in
/// lowercase.
pub fn propose_against(
    sender: &String,
    owner: &String,
    new_owner: &String,
    lowered: &String,
    new_owner_valid: bool,
    expires_in: u64,
    now: u64,
) -> (r: Result<OwnershipProposal, OwnershipError>)
    ensures
        sender@ != owner@ ==> (r matches Err(x) && x@ == OwnershipErrorView::Unauthorized),
        sender@ == owner@ && lowered@ != new_owner@ ==> (r matches Err(x) && x@
            == OwnershipErrorView::Std(AssetErrorView::AddressNotLowercase { addr: new_owner@ })),
        sender@ == owner@ && lowered@ == new_owner@ && !new_owner_valid ==> (r matches Err(x)
            && x@ == OwnershipErrorView::Std(AssetErrorView::InvalidAddress { addr: new_owner@ })),
        sender@ == owner@ && lowered@ == new_owner@ && new_owner_valid && new_owner@ == owner@
            ==> (r matches Err(x) && x@ == OwnershipErrorView::SameOwner),
        sender@ == owner@ && lowered@ == new_owner@ && new_owner_valid && new_owner@ != owner@
            && expires_in > MAX_PROPOSAL_TTL ==> (r matches Err(x) && x@
            == OwnershipErrorView::ExpiresTooLate),
        sender@ == owner@ && lowered@ == new_owner@ && new_owner_valid && new_owner@ != owner@
            && expires_in <= MAX_PROPOSAL_TTL && now + expires_in > u64::MAX ==> (r matches Err(x)
            && x@ == OwnershipErrorView::Overflow),
        sender@ == owner@ && lowered@ == new_owner@ && new_owner_valid && new_owner@ != owner@
            && expires_in <= MAX_PROPOSAL_TTL && now + expires_in <= u64::MAX ==> (r matches Ok(p)
            && p.owner@ == new_owner@ && p.ttl == now + expires_in),
{
    if *sender != *owner {
        return Err(OwnershipError::Unauthorized);
    }
    let accepted: String = match validate_against(new_owner.as_str(), lowered, new_owner_valid) {
        Ok(a) => a,
        Err(e) => {
            return Err(OwnershipError::Std(e));
        },
    };
    if accepted == *owner {
        return Err(OwnershipError::SameOwner);
    }
    if MAX_PROPOSAL_TTL < expires_in {
        return Err(OwnershipError::ExpiresTooLate);
    }
    let ttl: u64 = match now.checked_add(expires_in) {
        Some(t) => t,
        None => {
            return Err(OwnershipError::Overflow);
        },
    };
    Ok(OwnershipProposal { owner: accepted, ttl })
}

/// Withdraws the proposal on behalf of `sender`: only the owner may.
pub fn drop_ownership_proposal(sender: &String, owner: &String) -> (r: Result<(), OwnershipError>)
    ensures
        sender@ == owner@ ==> r == Ok::<(), OwnershipError>(()),
        sender@ != owner@ ==> r == Err::<(), OwnershipError>(OwnershipError::Unauthorized),
{
    if *sender != *owner {
        return Err(OwnershipError::Unauthorized);
    }
    Ok(())
}

/// Takes the ownership over on behalf of `sender` at `now`; returns the new
/// owner.
///
/// There must be a proposal, it must name the sender, and it must still be
/// open: `now` is not after its end.
pub fn claim_ownership(sender: &String, proposal: Option<OwnershipProposal>, now: u64) -> (r:
    Result<String, OwnershipError>)
    ensures
        match proposal {
            None => r == Err::<String, OwnershipError>(OwnershipError::ProposalNotFound),
            Some(p) => if sender@ != p.owner@ {
                r == Err::<String, OwnershipError>(OwnershipError::Unauthorized)
            } else if now > p.ttl {
                r == Err::<String, OwnershipError>(OwnershipError::ProposalExpired)
            } else {
                r matches Ok(o) && o@ == p.owner@
            },
        },
{
    let p: OwnershipProposal = match proposal {
        Some(p) => p,
        None => {
            return Err(OwnershipError::ProposalNotFound);
        },
    };
    if *sender != p.owner {
        return Err(OwnershipError::Unauthorized);
    }
    if now > p.ttl {
        return Err(OwnershipError::ProposalExpired);
    }
    Ok(p.owner)
}

} // verus!
