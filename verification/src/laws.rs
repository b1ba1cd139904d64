//! What holds of the escrow's operations whatever the store and the
//! arguments, stated over the store as contracts speak of it.

use vstd::prelude::*;
use vstd::utf8::encode_utf8;
use crate::campaign::{ErrorCode, MAX_NAME_LEN};
use crate::derive::{derived_address, derived_bump};
use crate::escrow::{
    lemma_created_consistent, lemma_donated_consistent, lemma_moved_consistent,
};
use crate::ledger::LedgerView;

verus! {

/// A donation that is asked for: who gives, and how much.
pub struct Gift {
    pub donor: Seq<u8>,
    pub amount: nat,
}

/// The store after the donations `gifts` to the campaign at `campaign` were
/// asked for, one after the other.
pub open spec fn after_gifts(s: LedgerView, campaign: Seq<u8>, gifts: Seq<Gift>) -> LedgerView
    decreases gifts.len(),
{
    if gifts.len() == 0 {
        s
    } else {
        after_gifts(s, campaign, gifts.drop_last()).after_donate(
            campaign,
            gifts.last().donor,
            gifts.last().amount,
        )
    }
}

/// Whether each of the donations `gifts` is accepted at its turn.
pub open spec fn gifts_accepted(s: LedgerView, campaign: Seq<u8>, gifts: Seq<Gift>) -> bool
    decreases gifts.len(),
{
    gifts.len() > 0 ==> gifts_accepted(s, campaign, gifts.drop_last()) && after_gifts(
        s,
        campaign,
        gifts.drop_last(),
    ).donate_error(campaign, gifts.last().donor, gifts.last().amount) is None
}

/// Whether each of the donations `gifts` is refused at its turn.
pub open spec fn gifts_refused(s: LedgerView, campaign: Seq<u8>, gifts: Seq<Gift>) -> bool
    decreases gifts.len(),
{
    gifts.len() > 0 ==> gifts_refused(s, campaign, gifts.drop_last()) && after_gifts(
        s,
        campaign,
        gifts.drop_last(),
    ).donate_error(campaign, gifts.last().donor, gifts.last().amount) is Some
}

/// The sum of the amounts of `gifts`.
pub open spec fn gifts_sum(gifts: Seq<Gift>) -> nat
    decreases gifts.len(),
{
    if gifts.len() == 0 {
        0
    } else {
        gifts_sum(gifts.drop_last()) + gifts.last().amount
    }
}

/// A campaign that was just created has nothing donated and an empty vault
/// of its own, and belongs to the one who created it.
pub proof fn law_new_campaign_is_empty(
    s: LedgerView,
    owner: Seq<u8>,
    campaign: Option<(Seq<u8>, u8)>,
    vault: Option<(Seq<u8>, u8)>,
    name: Seq<char>,
    description: Seq<char>,
    goal: nat,
    deadline: int,
)
    requires
        s.create_error(owner, campaign, vault, name, description, goal) is None,
    ensures
        ({
            let t = s.after_create(owner, campaign, vault, name, description, goal, deadline);
            let c = derived_address(campaign);
            let v = derived_address(vault);
            &&& t.is_campaign(c)
            &&& t.campaign(c).amount == 0
            &&& t.campaign(c).goal == goal
            &&& t.campaign(c).deadline == deadline
            &&& t.campaign(c).owner == owner
            &&& t.campaign(c).name == name
            &&& t.campaign(c).description == description
            &&& t.campaign(c).vault == v
            &&& t.campaign(c).vault_bump == derived_bump(vault)
            &&& t.is_vault(v)
            &&& t.balance(v) == 0
            &&& !s.accounts.contains_key(c)
            &&& !s.accounts.contains_key(v)
            &&& t.balance(c) == s.creation_cost(name, description)
            &&& t.balance(owner) == s.balance(owner) - s.creation_cost(name, description)
            &&& t.supply == s.supply
        }),
{
}

/// Once an owner has created a campaign under a name, a second creation by
/// that owner under that name is refused with `AddressCollision`, whatever
/// description, goal and deadline it asks for.
pub proof fn law_second_creation_collides(
    s: LedgerView,
    owner: Seq<u8>,
    name: Seq<char>,
    description: Seq<char>,
    goal: nat,
    deadline: int,
    second_description: Seq<char>,
    second_goal: nat,
)
    requires
        s.creation_error(owner, name, description, goal) is None,
    ensures
        s.after_creation(owner, name, description, goal, deadline).creation_error(
            owner,
            name,
            second_description,
            second_goal,
        ) == Some(ErrorCode::AddressCollision),
{
}

/// While an account stands at the address derived for an owner and a name
/// within its bound, every creation by that owner under that name is refused
/// with `AddressCollision`; and it stands there after every operation.
pub proof fn law_taken_name_collides(
    s: LedgerView,
    t: LedgerView,
    owner: Seq<u8>,
    name: Seq<char>,
    description: Seq<char>,
    goal: nat,
)
    requires
        s.consistent(),
        follows(s, t),
        encode_utf8(name).len() <= MAX_NAME_LEN,
        s.derived_campaign(owner, name) is Some,
        s.accounts.contains_key(derived_address(s.derived_campaign(owner, name))),
    ensures
        s.creation_error(owner, name, description, goal) == Some(ErrorCode::AddressCollision),
        t.creation_error(owner, name, description, goal) == Some(ErrorCode::AddressCollision),
{
    law_accounts_stay(s, t, derived_address(s.derived_campaign(owner, name)));
}

/// Whether the store `t` is the store `s` after one operation was asked
/// for: a creation, a donation, a withdrawal, or new lamports for a wallet.
pub open spec fn follows(s: LedgerView, t: LedgerView) -> bool {
    ||| exists|
        owner: Seq<u8>,
        campaign: Option<(Seq<u8>, u8)>,
        vault: Option<(Seq<u8>, u8)>,
        name: Seq<char>,
        description: Seq<char>,
        goal: u64,
        deadline: i64,
    |
        t == s.after_create(
            owner,
            campaign,
            vault,
            name,
            description,
            goal as nat,
            deadline as int,
        )
    ||| exists|campaign: Seq<u8>, donor: Seq<u8>, amount: u64|
        t == s.after_donate(campaign, donor, amount as nat)
    ||| exists|campaign: Seq<u8>, caller: Seq<u8>, now: i64|
        t == s.after_withdraw(campaign, caller, now as int)
    ||| exists|key: Seq<u8>, lamports: u64| t == s.after_fund(key, lamports as nat)
}

/// Every operation leaves the store consistent: each campaign stays sound,
/// with a vault that is its own and holds no more than was donated.
pub proof fn law_operations_keep_consistency(s: LedgerView, t: LedgerView)
    requires
        s.consistent(),
        follows(s, t),
    ensures
        t.consistent(),
{
    if exists|
        owner: Seq<u8>,
        campaign: Option<(Seq<u8>, u8)>,
        vault: Option<(Seq<u8>, u8)>,
        name: Seq<char>,
        description: Seq<char>,
        goal: u64,
        deadline: i64,
    |
        t == s.after_create(
            owner,
            campaign,
            vault,
            name,
            description,
            goal as nat,
            deadline as int,
        ) {
        let (owner, campaign, vault, name, description, goal, deadline) = choose|
            owner: Seq<u8>,
            campaign: Option<(Seq<u8>, u8)>,
            vault: Option<(Seq<u8>, u8)>,
            name: Seq<char>,
            description: Seq<char>,
            goal: u64,
            deadline: i64,
        |
            t == s.after_create(
                owner,
                campaign,
                vault,
                name,
                description,
                goal as nat,
                deadline as int,
            );
        if s.create_error(owner, campaign, vault, name, description, goal as nat) is None {
            lemma_created_consistent(
                s,
                owner,
                campaign,
                vault,
                name,
                description,
                goal as nat,
                deadline as int,
            );
        }
    } else if exists|campaign: Seq<u8>, donor: Seq<u8>, amount: u64|
        t == s.after_donate(campaign, donor, amount as nat) {
        let (campaign, donor, amount) = choose|campaign: Seq<u8>, donor: Seq<u8>, amount: u64|
            t == s.after_donate(campaign, donor, amount as nat);
        if s.donate_error(campaign, donor, amount as nat) is None {
            lemma_donated_consistent(s, campaign, donor, amount as nat);
        }
    } else if exists|campaign: Seq<u8>, caller: Seq<u8>, now: i64|
        t == s.after_withdraw(campaign, caller, now as int) {
        let (campaign, caller, now) = choose|campaign: Seq<u8>, caller: Seq<u8>, now: i64|
            t == s.after_withdraw(campaign, caller, now as int);
        if s.withdraw_error(campaign, caller, now as int) is None {
            let c = s.campaign(campaign);
            assert(s.campaign_sound(campaign));
            lemma_moved_consistent(s, c.vault, c.owner, s.accounts[c.vault].lamports);
        }
    } else {
        let (key, lamports) = choose|key: Seq<u8>, lamports: u64|
            t == s.after_fund(key, lamports as nat);
        if s.fund_allowed(key, lamports as nat) {
            s.lemma_funded_consistent(key, lamports as nat);
        }
    }
}

/// No operation removes an account or turns it into another kind, and none
/// changes the program's address or the price of storage.
pub proof fn law_accounts_stay(s: LedgerView, t: LedgerView, key: Seq<u8>)
    requires
        s.consistent(),
        follows(s, t),
        s.accounts.contains_key(key),
    ensures
        t.accounts.contains_key(key),
        t.is_wallet(key) == s.is_wallet(key),
        t.is_vault(key) == s.is_vault(key),
        t.is_campaign(key) == s.is_campaign(key),
        t.program_id == s.program_id,
        t.lamports_per_byte == s.lamports_per_byte,
{
}

/// No operation lowers a campaign's total or changes anything else of its
/// record.
pub proof fn law_totals_never_shrink(s: LedgerView, t: LedgerView, key: Seq<u8>)
    requires
        s.consistent(),
        follows(s, t),
        s.is_campaign(key),
    ensures
        t.is_campaign(key),
        t.campaign(key).amount >= s.campaign(key).amount,
        t.campaign(key) == s.campaign(key).credited(
            (t.campaign(key).amount - s.campaign(key).amount) as nat,
        ),
{
}

/// Only a donation that is accepted raises a campaign's total, and it raises
/// it by what was given, as it raises what the campaign's vault holds.
pub proof fn law_only_donations_raise_totals(
    s: LedgerView,
    key: Seq<u8>,
    owner: Seq<u8>,
    campaign: Option<(Seq<u8>, u8)>,
    vault: Option<(Seq<u8>, u8)>,
    name: Seq<char>,
    description: Seq<char>,
    goal: nat,
    deadline: int,
    target: Seq<u8>,
    actor: Seq<u8>,
    amount: nat,
    now: int,
)
    requires
        s.consistent(),
        s.is_campaign(key),
    ensures
        s.after_create(owner, campaign, vault, name, description, goal, deadline).campaign(key)
            == s.campaign(key),
        s.after_withdraw(target, actor, now).campaign(key) == s.campaign(key),
        s.after_fund(actor, amount).campaign(key) == s.campaign(key),
        s.after_donate(target, actor, amount).campaign(key) == if target == key && s.donate_error(
            target,
            actor,
            amount,
        ) is None {
            s.campaign(key).credited(amount)
        } else {
            s.campaign(key)
        },
        s.after_donate(target, actor, amount).balance(s.campaign(key).vault) == if target == key
            && s.donate_error(target, actor, amount) is None {
            s.balance(s.campaign(key).vault) + amount
        } else {
            s.balance(s.campaign(key).vault)
        },
{
    assert(s.campaign_sound(key));
    if s.donate_error(target, actor, amount) is None {
        assert(s.campaign_sound(target));
    }
}

/// The lamports of all accounts together stay what they are under a creation,
/// a donation and a withdrawal.
pub proof fn law_supply_is_kept(
    s: LedgerView,
    owner: Seq<u8>,
    campaign: Option<(Seq<u8>, u8)>,
    vault: Option<(Seq<u8>, u8)>,
    name: Seq<char>,
    description: Seq<char>,
    goal: nat,
    deadline: int,
    target: Seq<u8>,
    actor: Seq<u8>,
    amount: nat,
    now: int,
)
    ensures
        s.after_create(owner, campaign, vault, name, description, goal, deadline).supply
            == s.supply,
        s.after_donate(target, actor, amount).supply == s.supply,
        s.after_withdraw(target, actor, now).supply == s.supply,
{
}

/// After donations that were all accepted, the campaign's total and its
/// vault have both grown by the sum of the amounts. For a campaign that was
/// just created, both are that sum.
pub proof fn law_donations_add_up(s: LedgerView, campaign: Seq<u8>, gifts: Seq<Gift>)
    requires
        s.consistent(),
        s.is_campaign(campaign),
        gifts_accepted(s, campaign, gifts),
    ensures
        ({
            let t = after_gifts(s, campaign, gifts);
            let vault = s.campaign(campaign).vault;
            &&& t.consistent()
            &&& t.is_campaign(campaign)
            &&& t.campaign(campaign) == s.campaign(campaign).credited(gifts_sum(gifts))
            &&& t.campaign(campaign).amount == s.campaign(campaign).amount + gifts_sum(gifts)
            &&& t.balance(vault) == s.balance(vault) + gifts_sum(gifts)
            &&& s.campaign(campaign).amount == 0 && s.balance(vault) == 0 ==> t.campaign(
                campaign,
            ).amount == gifts_sum(gifts) && t.balance(vault) == gifts_sum(gifts)
        }),
    decreases gifts.len(),
{
    if gifts.len() > 0 {
        let before = after_gifts(s, campaign, gifts.drop_last());
        law_donations_add_up(s, campaign, gifts.drop_last());
        lemma_donated_consistent(before, campaign, gifts.last().donor, gifts.last().amount);
        assert(before.campaign_sound(campaign));
    }
}

/// A donation that would take a campaign's total out of the unsigned 64-bit
/// range is refused with `Overflow`, whoever gives it, and changes nothing.
pub proof fn law_overflowing_donation_is_refused(
    s: LedgerView,
    campaign: Seq<u8>,
    donor: Seq<u8>,
    amount: nat,
)
    requires
        s.consistent(),
        s.is_campaign(campaign),
        s.campaign(campaign).amount + amount > u64::MAX,
    ensures
        s.donate_error(campaign, donor, amount) == Some(ErrorCode::Overflow),
        s.after_donate(campaign, donor, amount) == s,
{
    assert(s.campaign_sound(campaign));
}

/// Donations that are refused change nothing, however many are tried.
pub proof fn law_refused_donations_change_nothing(
    s: LedgerView,
    campaign: Seq<u8>,
    gifts: Seq<Gift>,
)
    requires
        gifts_refused(s, campaign, gifts),
    ensures
        after_gifts(s, campaign, gifts) == s,
    decreases gifts.len(),
{
    if gifts.len() > 0 {
        law_refused_donations_change_nothing(s, campaign, gifts.drop_last());
    }
}

/// A withdrawal by anyone but the owner is refused with `Unauthorized`,
/// whatever the time and the total.
pub proof fn law_only_owner_withdraws(s: LedgerView, campaign: Seq<u8>, caller: Seq<u8>, now: int)
    requires
        s.is_campaign(campaign),
        caller != s.campaign(campaign).owner,
    ensures
        s.withdraw_error(campaign, caller, now) == Some(ErrorCode::Unauthorized),
        s.after_withdraw(campaign, caller, now) == s,
{
}

/// Until the deadline has passed every withdrawal is refused, whatever the
/// total: the owner's with `DeadlineNotPassed`.
pub proof fn law_deadline_gates_withdrawal(
    s: LedgerView,
    campaign: Seq<u8>,
    caller: Seq<u8>,
    now: int,
)
    requires
        s.is_campaign(campaign),
        now <= s.campaign(campaign).deadline,
    ensures
        s.withdraw_error(campaign, caller, now) is Some,
        !s.campaign(campaign).gates(caller, now).deadline_passed,
        caller == s.campaign(campaign).owner ==> s.withdraw_error(campaign, caller, now) == Some(
            ErrorCode::DeadlineNotPassed,
        ),
        s.after_withdraw(campaign, caller, now) == s,
{
}

/// While less than the goal is donated every withdrawal is refused, whatever
/// the time: the owner's, once the deadline has passed, with
/// `GoalNotReached`.
pub proof fn law_goal_gates_withdrawal(s: LedgerView, campaign: Seq<u8>, caller: Seq<u8>, now: int)
    requires
        s.is_campaign(campaign),
        s.campaign(campaign).amount < s.campaign(campaign).goal,
    ensures
        s.withdraw_error(campaign, caller, now) is Some,
        !s.campaign(campaign).gates(caller, now).goal_reached,
        caller == s.campaign(campaign).owner && now > s.campaign(campaign).deadline
            ==> s.withdraw_error(campaign, caller, now) == Some(ErrorCode::GoalNotReached),
        s.after_withdraw(campaign, caller, now) == s,
{
}

/// A withdrawal that the owner may make stays open to the owner: at every
/// later time, and after every operation.
pub proof fn law_withdrawable_stays(
    s: LedgerView,
    t: LedgerView,
    campaign: Seq<u8>,
    caller: Seq<u8>,
    now: int,
    later: int,
)
    requires
        s.consistent(),
        follows(s, t),
        s.withdraw_error(campaign, caller, now) is None,
        later >= now,
    ensures
        s.withdraw_error(campaign, caller, later) is None,
        t.withdraw_error(campaign, caller, later) is None,
{
    law_totals_never_shrink(s, t, campaign);
}

/// A withdrawal that is accepted moves all that the vault holds to the
/// owner and leaves the campaign as it was; a later one by the owner is
/// accepted again and moves nothing.
pub proof fn law_withdrawal_empties_vault(
    s: LedgerView,
    campaign: Seq<u8>,
    caller: Seq<u8>,
    now: int,
    later: int,
)
    requires
        s.consistent(),
        s.withdraw_error(campaign, caller, now) is None,
        later >= now,
    ensures
        ({
            let t = s.after_withdraw(campaign, caller, now);
            let c = s.campaign(campaign);
            &&& t.consistent()
            &&& t.balance(c.vault) == 0
            &&& t.balance(c.owner) == s.balance(c.owner) + s.balance(c.vault)
            &&& t.campaign(campaign) == c
            &&& t.supply == s.supply
            &&& t.withdraw_error(campaign, caller, later) is None
            &&& t.after_withdraw(campaign, caller, later) == t
        }),
{
    let c = s.campaign(campaign);
    assert(s.campaign_sound(campaign));
    lemma_moved_consistent(s, c.vault, c.owner, s.accounts[c.vault].lamports);
    let t = s.withdrawn(campaign);
    assert(t.withdrawn(campaign).accounts =~= t.accounts);
}

} // verus!
