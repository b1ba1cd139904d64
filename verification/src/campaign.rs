//! The campaign record and the rules that read and change it.

use vstd::prelude::*;
use vstd::utf8::encode_utf8;
use crate::address::Address;

verus! {

/// The most bytes a campaign's name may hold. A name is a seed of the
/// campaign's address, and a seed holds at most 32 bytes.
pub const MAX_NAME_LEN: usize = 32;

/// The most bytes a campaign's description may hold.
pub const MAX_DESCRIPTION_LEN: usize = 512;

/// The bytes of a stored campaign besides its two texts: an 8-byte record
/// tag, a 4-byte length before each text, the goal, the amount and the
/// deadline at 8 bytes each, two 32-byte addresses and the bump.
pub const FIXED_RECORD_BYTES: usize = 105;

/// Why an operation was refused.
#[derive(Clone, Copy, Debug, PartialEq, Eq, Structural)]
pub enum ErrorCode {
    /// The caller is not the campaign's owner.
    Unauthorized,
    /// The campaign's deadline has not passed.
    DeadlineNotPassed,
    /// Less than the goal has been donated.
    GoalNotReached,
    /// The donated total would leave the unsigned 64-bit range.
    Overflow,
    /// An account already stands at a derived address.
    AddressCollision,
    /// The owner cannot pay for the campaign's storage.
    InsufficientFunds,
    /// An argument is out of bounds or names no campaign.
    InvalidInput,
    /// The donor cannot pay the donation.
    TransferFailed,
}

impl ErrorCode {
    /// The sentence that describes the error.
    pub open spec fn spec_message(self) -> Seq<char> {
        match self {
            ErrorCode::Unauthorized => "You are not the campaign owner"@,
            ErrorCode::DeadlineNotPassed => "Campaign deadline has not passed"@,
            ErrorCode::GoalNotReached => "Funding goal not reached"@,
            ErrorCode::Overflow => "Integer overflow"@,
            ErrorCode::AddressCollision => "Campaign address already in use"@,
            ErrorCode::InsufficientFunds => "Owner cannot pay for campaign storage"@,
            ErrorCode::InvalidInput => "Invalid input"@,
            ErrorCode::TransferFailed => "Donor cannot pay the donation"@,
        }
    }

    /// The sentence that describes the error.
    pub fn message(&self) -> (r: &'static str)
        ensures
            r@ == self.spec_message(),
    {
        match self {
            ErrorCode::Unauthorized => "You are not the campaign owner",
            ErrorCode::DeadlineNotPassed => "Campaign deadline has not passed",
            ErrorCode::GoalNotReached => "Funding goal not reached",
            ErrorCode::Overflow => "Integer overflow",
            ErrorCode::AddressCollision => "Campaign address already in use",
            ErrorCode::InsufficientFunds => "Owner cannot pay for campaign storage",
            ErrorCode::InvalidInput => "Invalid input",
            ErrorCode::TransferFailed => "Donor cannot pay the donation",
        }
    }
}

/// A campaign as it is stored.
#[derive(Debug)]
pub struct Campaign {
    pub name: String,
    pub description: String,
    pub goal: u64,
    pub amount: u64,
    pub deadline: i64,
    pub owner: Address,
    pub vault: Address,
    pub vault_bump: u8,
}

/// A campaign as contracts speak of it.
pub struct CampaignView {
    pub name: Seq<char>,
    pub description: Seq<char>,
    pub goal: nat,
    pub amount: nat,
    pub deadline: int,
    pub owner: Seq<u8>,
    pub vault: Seq<u8>,
    pub vault_bump: u8,
}

impl View for Campaign {
    type V = CampaignView;

    open spec fn view(&self) -> CampaignView {
        CampaignView {
            name: self.name@,
            description: self.description@,
            goal: self.goal as nat,
            amount: self.amount as nat,
            deadline: self.deadline as int,
            owner: self.owner@,
            vault: self.vault@,
            vault_bump: self.vault_bump,
        }
    }
}

/// Whether a name and a description are within their bounds.
pub open spec fn texts_fit(name: Seq<char>, description: Seq<char>) -> bool {
    encode_utf8(name).len() <= MAX_NAME_LEN && encode_utf8(description).len()
        <= MAX_DESCRIPTION_LEN
}

/// The bytes that a campaign with these texts occupies.
pub open spec fn record_space(name: Seq<char>, description: Seq<char>) -> nat {
    FIXED_RECORD_BYTES as nat + encode_utf8(name).len() + encode_utf8(description).len()
}

/// The three conditions of a withdrawal, each taken by itself.
#[derive(Clone, Copy, Debug, PartialEq, Eq, Structural)]
pub struct WithdrawGates {
    /// The caller is the campaign's owner.
    pub authorized: bool,
    /// The time is later than the deadline.
    pub deadline_passed: bool,
    /// At least the goal has been donated.
    pub goal_reached: bool,
}

impl CampaignView {
    /// What a valid campaign holds: texts within their bounds, a goal above
    /// zero, and a goal and a total within the unsigned 64-bit range.
    pub open spec fn valid(self) -> bool {
        &&& texts_fit(self.name, self.description)
        &&& 0 < self.goal <= u64::MAX
        &&& self.amount <= u64::MAX
    }

    /// The three conditions of a withdrawal by `caller` at time `now`.
    pub open spec fn gates(self, caller: Seq<u8>, now: int) -> WithdrawGates {
        WithdrawGates {
            authorized: caller == self.owner,
            deadline_passed: now > self.deadline,
            goal_reached: self.amount >= self.goal,
        }
    }

    /// The error that refuses a withdrawal by `caller` at time `now`: the
    /// first condition that fails, taken in the order owner, deadline, goal.
    pub open spec fn withdraw_error(self, caller: Seq<u8>, now: int) -> Option<ErrorCode> {
        self.gates(caller, now).blocking()
    }

    /// The error that refuses a donation of `amount`, as far as the record
    /// decides it.
    pub open spec fn donation_error(self, amount: nat) -> Option<ErrorCode> {
        if amount == 0 {
            Some(ErrorCode::InvalidInput)
        } else if self.amount + amount > u64::MAX {
            Some(ErrorCode::Overflow)
        } else {
            None
        }
    }

    /// The campaign after a donation of `amount` was recorded.
    pub open spec fn credited(self, amount: nat) -> CampaignView {
        CampaignView { amount: self.amount + amount, ..self }
    }
}

impl WithdrawGates {
    /// The error of the first condition that fails, if one does.
    pub open spec fn blocking(self) -> Option<ErrorCode> {
        if !self.authorized {
            Some(ErrorCode::Unauthorized)
        } else if !self.deadline_passed {
            Some(ErrorCode::DeadlineNotPassed)
        } else if !self.goal_reached {
            Some(ErrorCode::GoalNotReached)
        } else {
            None
        }
    }

    /// The error of the first condition that fails, in the order owner,
    /// deadline, goal; `Ok` where all three hold.
    pub fn verdict(&self) -> (r: Result<(), ErrorCode>)
        ensures
            r is Ok <==> self.authorized && self.deadline_passed && self.goal_reached,
            r matches Err(e) ==> self.blocking() == Some(e),
            r is Ok ==> self.blocking() is None,
    {
        if !self.authorized {
            Err(ErrorCode::Unauthorized)
        } else if !self.deadline_passed {
            Err(ErrorCode::DeadlineNotPassed)
        } else if !self.goal_reached {
            Err(ErrorCode::GoalNotReached)
        } else {
            Ok(())
        }
    }
}

/// The bytes that a campaign with these texts occupies, or `InvalidInput`
/// where a text is longer than its bound.
pub fn space(name: &str, description: &str) -> (r: Result<usize, ErrorCode>)
    ensures
        texts_fit(name@, description@) ==> r == Ok::<usize, ErrorCode>(
            record_space(name@, description@) as usize,
        ),
        !texts_fit(name@, description@) ==> r == Err::<usize, ErrorCode>(ErrorCode::InvalidInput),
{
    let name_len: usize = name.as_bytes().len();
    let description_len: usize = description.as_bytes().len();
    if name_len > MAX_NAME_LEN || description_len > MAX_DESCRIPTION_LEN {
        Err(ErrorCode::InvalidInput)
    } else {
        Ok(FIXED_RECORD_BYTES + name_len + description_len)
    }
}

impl Campaign {
    /// A new campaign with nothing donated, or `InvalidInput` where a text is
    /// longer than its bound or the goal is zero.
    pub fn new(
        name: String,
        description: String,
        goal: u64,
        deadline: i64,
        owner: Address,
        vault: Address,
        vault_bump: u8,
    ) -> (r: Result<Campaign, ErrorCode>)
        ensures
            r is Ok <==> texts_fit(name@, description@) && goal > 0,
            r matches Err(e) ==> e == ErrorCode::InvalidInput,
            r matches Ok(c) ==> c@ == (CampaignView {
                name: name@,
                description: description@,
                goal: goal as nat,
                amount: 0,
                deadline: deadline as int,
                owner: owner@,
                vault: vault@,
                vault_bump,
            }) && c@.valid(),
    {
        if goal == 0 || space(name.as_str(), description.as_str()).is_err() {
            return Err(ErrorCode::InvalidInput);
        }
        Ok(Campaign { name, description, goal, amount: 0, deadline, owner, vault, vault_bump })
    }

    /// The total after a donation of `amount`. A donation of zero is refused
    /// with `InvalidInput`, one that would take the total out of the unsigned
    /// 64-bit range with `Overflow`.
    pub fn check_donation(&self, amount: u64) -> (r: Result<u64, ErrorCode>)
        ensures
            r is Ok <==> self@.donation_error(amount as nat) is None,
            r matches Err(e) ==> self@.donation_error(amount as nat) == Some(e),
            r matches Ok(total) ==> total == self.amount + amount,
    {
        if amount == 0 {
            return Err(ErrorCode::InvalidInput);
        }
        match self.amount.checked_add(amount) {
            Some(total) => Ok(total),
            None => Err(ErrorCode::Overflow),
        }
    }

    /// Adds a donation of `amount` to the total; refuses it as
    /// `check_donation` does, and then changes nothing.
    pub fn record_donation(&mut self, amount: u64) -> (r: Result<(), ErrorCode>)
        ensures
            r is Ok <==> old(self)@.donation_error(amount as nat) is None,
            r matches Err(e) ==> old(self)@.donation_error(amount as nat) == Some(e),
            r is Err ==> *final(self) == *old(self),
            r is Ok ==> final(self)@ == old(self)@.credited(amount as nat),
            r is Ok ==> *final(self) == (Campaign {
                amount: (old(self).amount + amount) as u64,
                ..*old(self)
            }),
    {
        match self.check_donation(amount) {
            Ok(total) => {
                self.amount = total;
                Ok(())
            },
            Err(e) => Err(e),
        }
    }

    /// The three conditions of a withdrawal by `caller` at time `now`, each
    /// evaluated whatever the others say.
    pub fn gates(&self, caller: &Address, now: i64) -> (r: WithdrawGates)
        ensures
            r == self@.gates(caller@, now as int),
    {
        WithdrawGates {
            authorized: self.owner.same(caller),
            deadline_passed: now > self.deadline,
            goal_reached: self.amount >= self.goal,
        }
    }

    /// Whether `caller` may withdraw at time `now`: `Unauthorized` unless the
    /// caller is the owner, else `DeadlineNotPassed` unless `now` is later
    /// than the deadline, else `GoalNotReached` unless the goal is met.
    pub fn check_withdraw(&self, caller: &Address, now: i64) -> (r: Result<(), ErrorCode>)
        ensures
            r is Ok <==> self@.withdraw_error(caller@, now as int) is None,
            r matches Err(e) ==> self@.withdraw_error(caller@, now as int) == Some(e),
    {
        self.gates(caller, now).verdict()
    }
}

} // verus!
