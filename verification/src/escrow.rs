//! The three operations of the escrow: creating a campaign, donating to it,
//! and withdrawing what was donated.

use vstd::prelude::*;
use vstd::utf8::encode_utf8;
use crate::address::Address;
use crate::campaign::{
    record_space, space, texts_fit, Campaign, CampaignView, ErrorCode, MAX_NAME_LEN,
};
use crate::derive::{
    campaign_address, campaign_seeds, derived_address, derived_bump, derived_view,
    program_address, vault_address, vault_seeds,
};
use crate::ledger::{AccountData, AccountDataView, AccountView, Ledger, LedgerView};

verus! {

/// Who creates a campaign.
#[derive(Clone, Copy, Debug)]
pub struct CreateCampaign {
    /// The creator, who pays for the storage and may later withdraw.
    pub owner: Address,
}

/// Who donates, and to which campaign.
#[derive(Clone, Copy, Debug)]
pub struct Donate {
    pub campaign: Address,
    pub donor: Address,
}

/// Who withdraws, and from which campaign.
#[derive(Clone, Copy, Debug)]
pub struct Withdraw {
    pub campaign: Address,
    /// The caller, who must be the campaign's owner.
    pub owner: Address,
}

/// The result of an operation that `error` refuses, or that nothing does.
pub open spec fn outcome(error: Option<ErrorCode>) -> Result<(), ErrorCode> {
    match error {
        Some(e) => Err(e),
        None => Ok(()),
    }
}

impl LedgerView {
    /// The address and bump derived for the campaign of `owner` under `name`.
    pub open spec fn derived_campaign(self, owner: Seq<u8>, name: Seq<char>) -> Option<
        (Seq<u8>, u8),
    > {
        program_address(campaign_seeds(owner, name), self.program_id)
    }

    /// The address and bump derived for the vault of a derived campaign.
    pub open spec fn derived_vault(self, campaign: Option<(Seq<u8>, u8)>) -> Option<
        (Seq<u8>, u8),
    > {
        match campaign {
            Some((c, _)) => program_address(vault_seeds(c), self.program_id),
            None => None,
        }
    }

    /// The price of storing a campaign with these texts.
    pub open spec fn creation_cost(self, name: Seq<char>, description: Seq<char>) -> nat {
        self.lamports_per_byte * record_space(name, description)
    }

    /// The error that refuses the creation of a campaign at the derived
    /// addresses `campaign` and `vault`, if one does. The name's bound and
    /// the campaign's address are looked at first, so that a name already
    /// taken by this owner collides whatever else is asked for.
    pub open spec fn create_error(
        self,
        owner: Seq<u8>,
        campaign: Option<(Seq<u8>, u8)>,
        vault: Option<(Seq<u8>, u8)>,
        name: Seq<char>,
        description: Seq<char>,
        goal: nat,
    ) -> Option<ErrorCode> {
        if encode_utf8(name).len() > MAX_NAME_LEN || campaign is None {
            Some(ErrorCode::InvalidInput)
        } else if self.accounts.contains_key(derived_address(campaign)) {
            Some(ErrorCode::AddressCollision)
        } else if !texts_fit(name, description) || goal == 0 || vault is None {
            Some(ErrorCode::InvalidInput)
        } else if derived_address(vault) == derived_address(campaign) || self.accounts.contains_key(derived_address(vault)) {
            Some(ErrorCode::AddressCollision)
        } else if !self.is_wallet(owner) || self.accounts[owner].lamports < self.creation_cost(
            name,
            description,
        ) {
            Some(ErrorCode::InsufficientFunds)
        } else {
            None
        }
    }

    /// The store after a campaign was created at `campaign` with its vault
    /// at `vault`: both accounts are new, nothing is donated, and the owner
    /// has paid the campaign's storage.
    pub open spec fn created(
        self,
        owner: Seq<u8>,
        campaign: Seq<u8>,
        vault: Seq<u8>,
        vault_bump: u8,
        name: Seq<char>,
        description: Seq<char>,
        goal: nat,
        deadline: int,
    ) -> LedgerView {
        self.with_account(
            vault,
            AccountView { lamports: 0, data: AccountDataView::Vault },
        ).with_account(
            campaign,
            AccountView {
                lamports: 0,
                data: AccountDataView::Campaign(
                    CampaignView {
                        name,
                        description,
                        goal,
                        amount: 0,
                        deadline,
                        owner,
                        vault,
                        vault_bump,
                    },
                ),
            },
        ).moved(owner, campaign, self.creation_cost(name, description))
    }

    /// The store after the creation of a campaign was asked for: changed
    /// where nothing refuses it, and as before where something does.
    pub open spec fn after_create(
        self,
        owner: Seq<u8>,
        campaign: Option<(Seq<u8>, u8)>,
        vault: Option<(Seq<u8>, u8)>,
        name: Seq<char>,
        description: Seq<char>,
        goal: nat,
        deadline: int,
    ) -> LedgerView {
        if self.create_error(owner, campaign, vault, name, description, goal) is None {
            self.created(
                owner,
                derived_address(campaign),
                derived_address(vault),
                derived_bump(vault),
                name,
                description,
                goal,
                deadline,
            )
        } else {
            self
        }
    }

    /// The error that refuses the creation of the campaign of `owner` under
    /// `name` at the addresses derived for it and for its vault, if one does.
    pub open spec fn creation_error(
        self,
        owner: Seq<u8>,
        name: Seq<char>,
        description: Seq<char>,
        goal: nat,
    ) -> Option<ErrorCode> {
        self.create_error(
            owner,
            self.derived_campaign(owner, name),
            self.derived_vault(self.derived_campaign(owner, name)),
            name,
            description,
            goal,
        )
    }

    /// The store after the creation of the campaign of `owner` under `name`
    /// was asked for, at the addresses derived for it and for its vault.
    pub open spec fn after_creation(
        self,
        owner: Seq<u8>,
        name: Seq<char>,
        description: Seq<char>,
        goal: nat,
        deadline: int,
    ) -> LedgerView {
        self.after_create(
            owner,
            self.derived_campaign(owner, name),
            self.derived_vault(self.derived_campaign(owner, name)),
            name,
            description,
            goal,
            deadline,
        )
    }

    /// The error that refuses a donation of `amount` by `donor` to the
    /// campaign at `campaign`, if one does. The total is looked at before the
    /// donor's funds, so that nothing moves where the total cannot be kept.
    pub open spec fn donate_error(self, campaign: Seq<u8>, donor: Seq<u8>, amount: nat) -> Option<
        ErrorCode,
    > {
        if !self.is_campaign(campaign) {
            Some(ErrorCode::InvalidInput)
        } else if self.campaign(campaign).donation_error(amount) is Some {
            self.campaign(campaign).donation_error(amount)
        } else if self.spendable(donor) < amount {
            Some(ErrorCode::TransferFailed)
        } else {
            None
        }
    }

    /// The store after `donor` donated `amount` to the campaign at
    /// `campaign`.
    pub open spec fn donated(self, campaign: Seq<u8>, donor: Seq<u8>, amount: nat) -> LedgerView {
        self.credited(campaign, amount).moved(donor, self.campaign(campaign).vault, amount)
    }

    /// The store after a donation was asked for: changed where nothing
    /// refuses it, and as before where something does.
    pub open spec fn after_donate(self, campaign: Seq<u8>, donor: Seq<u8>, amount: nat)
        -> LedgerView {
        if self.donate_error(campaign, donor, amount) is None {
            self.donated(campaign, donor, amount)
        } else {
            self
        }
    }

    /// The error that refuses a withdrawal by `caller` at time `now` from the
    /// campaign at `campaign`, if one does.
    pub open spec fn withdraw_error(self, campaign: Seq<u8>, caller: Seq<u8>, now: int) -> Option<
        ErrorCode,
    > {
        if !self.is_campaign(campaign) {
            Some(ErrorCode::InvalidInput)
        } else {
            self.campaign(campaign).withdraw_error(caller, now)
        }
    }

    /// The store after the owner of the campaign at `campaign` withdrew: all
    /// that the vault held is the owner's.
    pub open spec fn withdrawn(self, campaign: Seq<u8>) -> LedgerView {
        let c = self.campaign(campaign);
        self.moved(c.vault, c.owner, self.accounts[c.vault].lamports)
    }

    /// The store after a withdrawal was asked for: changed where nothing
    /// refuses it, and as before where something does.
    pub open spec fn after_withdraw(self, campaign: Seq<u8>, caller: Seq<u8>, now: int)
        -> LedgerView {
        if self.withdraw_error(campaign, caller, now) is None {
            self.withdrawn(campaign)
        } else {
            self
        }
    }
}

/// An account that is no campaign, put at a new address, leaves the store
/// consistent.
proof fn lemma_plain_account_consistent(s: LedgerView, key: Seq<u8>, account: AccountView)
    requires
        s.consistent(),
        !s.accounts.contains_key(key),
        !(account.data is Campaign),
    ensures
        s.with_account(key, account).consistent(),
{
    let after = s.with_account(key, account);
    assert forall|k: Seq<u8>| #[trigger] after.is_campaign(k) implies after.campaign_sound(k) by {
        assert(s.is_campaign(k));
        assert(s.campaign_sound(k));
    }
    assert forall|j: Seq<u8>, k: Seq<u8>|
        #[trigger] after.is_campaign(j) && #[trigger] after.is_campaign(k) && j
            != k implies after.campaign(j).vault != after.campaign(k).vault by {
        assert(s.is_campaign(j));
        assert(s.is_campaign(k));
    }
}

/// A sound campaign with a vault of its own, put at a new address, leaves
/// the store consistent.
proof fn lemma_campaign_account_consistent(s: LedgerView, key: Seq<u8>, record: CampaignView)
    requires
        s.consistent(),
        !s.accounts.contains_key(key),
        record.valid(),
        record.amount == 0,
        s.is_wallet(record.owner),
        s.is_vault(record.vault),
        s.accounts[record.vault].lamports == 0,
        forall|k: Seq<u8>| #[trigger] s.is_campaign(k) ==> s.campaign(k).vault != record.vault,
    ensures
        s.with_account(
            key,
            AccountView { lamports: 0, data: AccountDataView::Campaign(record) },
        ).consistent(),
{
    let after = s.with_account(
        key,
        AccountView { lamports: 0, data: AccountDataView::Campaign(record) },
    );
    assert forall|k: Seq<u8>| #[trigger] after.is_campaign(k) implies after.campaign_sound(k) by {
        if k != key {
            assert(s.is_campaign(k));
            assert(s.campaign_sound(k));
        }
    }
    assert forall|j: Seq<u8>, k: Seq<u8>|
        #[trigger] after.is_campaign(j) && #[trigger] after.is_campaign(k) && j
            != k implies after.campaign(j).vault != after.campaign(k).vault by {
        if j != key {
            assert(s.is_campaign(j));
        }
        if k != key {
            assert(s.is_campaign(k));
        }
    }
}

/// Lamports that move to an account that is no vault leave the store
/// consistent.
pub(crate) proof fn lemma_moved_consistent(s: LedgerView, from: Seq<u8>, to: Seq<u8>, lamports: nat)
    requires
        s.consistent(),
        from != to,
        s.accounts.contains_key(from),
        s.accounts.contains_key(to),
        s.accounts[from].lamports >= lamports,
        !s.is_vault(to),
    ensures
        s.moved(from, to, lamports).consistent(),
{
    let after = s.moved(from, to, lamports);
    assert forall|k: Seq<u8>| #[trigger] after.is_campaign(k) implies after.campaign_sound(k) by {
        assert(s.is_campaign(k));
        assert(s.campaign_sound(k));
    }
    assert forall|j: Seq<u8>, k: Seq<u8>|
        #[trigger] after.is_campaign(j) && #[trigger] after.is_campaign(k) && j
            != k implies after.campaign(j).vault != after.campaign(k).vault by {
        assert(s.is_campaign(j));
        assert(s.is_campaign(k));
    }
}

/// A donation leaves the store consistent.
pub(crate) proof fn lemma_donated_consistent(s: LedgerView, campaign: Seq<u8>, donor: Seq<u8>, amount: nat)
    requires
        s.consistent(),
        s.donate_error(campaign, donor, amount) is None,
    ensures
        s.donated(campaign, donor, amount).consistent(),
        s.credited(campaign, amount).accounts.contains_key(donor),
        s.credited(campaign, amount).accounts.contains_key(s.campaign(campaign).vault),
        s.credited(campaign, amount).accounts[donor].lamports >= amount,
        donor != s.campaign(campaign).vault,
{
    assert(s.campaign_sound(campaign));
    let vault = s.campaign(campaign).vault;
    let after = s.donated(campaign, donor, amount);
    assert forall|k: Seq<u8>| #[trigger] after.is_campaign(k) implies after.campaign_sound(k) by {
        assert(s.is_campaign(k));
        assert(s.campaign_sound(k));
        if k != campaign {
            assert(s.campaign(k).vault != vault);
        }
    }
    assert forall|j: Seq<u8>, k: Seq<u8>|
        #[trigger] after.is_campaign(j) && #[trigger] after.is_campaign(k) && j
            != k implies after.campaign(j).vault != after.campaign(k).vault by {
        assert(s.is_campaign(j));
        assert(s.is_campaign(k));
    }
}

/// A creation leaves the store consistent, each of its three steps does.
pub(crate) proof fn lemma_created_consistent(
    s: LedgerView,
    owner: Seq<u8>,
    campaign: Option<(Seq<u8>, u8)>,
    vault: Option<(Seq<u8>, u8)>,
    name: Seq<char>,
    description: Seq<char>,
    goal: nat,
    deadline: int,
)
    requires
        s.consistent(),
        s.create_error(owner, campaign, vault, name, description, goal) is None,
        goal <= u64::MAX,
    ensures
        s.after_create(owner, campaign, vault, name, description, goal, deadline).consistent(),
        ({
            let with_vault = s.with_account(
                derived_address(vault),
                AccountView { lamports: 0, data: AccountDataView::Vault },
            );
            let record = CampaignView {
                name,
                description,
                goal,
                amount: 0,
                deadline,
                owner,
                vault: derived_address(vault),
                vault_bump: derived_bump(vault),
            };
            let with_campaign = with_vault.with_account(
                derived_address(campaign),
                AccountView { lamports: 0, data: AccountDataView::Campaign(record) },
            );
            &&& with_vault.consistent()
            &&& with_campaign.consistent()
        }),
{
    let at = derived_address(campaign);
    let vault_at = derived_address(vault);
    let record = CampaignView {
        name,
        description,
        goal,
        amount: 0,
        deadline,
        owner,
        vault: vault_at,
        vault_bump: derived_bump(vault),
    };
    let s1 = s.with_account(vault_at, AccountView { lamports: 0, data: AccountDataView::Vault });
    let s2 = s1.with_account(
        at,
        AccountView { lamports: 0, data: AccountDataView::Campaign(record) },
    );
    lemma_plain_account_consistent(
        s,
        vault_at,
        AccountView { lamports: 0, data: AccountDataView::Vault },
    );
    assert forall|k: Seq<u8>| #[trigger] s1.is_campaign(k) implies s1.campaign(k).vault
        != vault_at by {
        assert(s.is_campaign(k));
        assert(s.campaign_sound(k));
    }
    lemma_campaign_account_consistent(s1, at, record);
    lemma_moved_consistent(s2, owner, at, s.creation_cost(name, description));
}

/// Creates the campaign of `ctx.owner` under `name`, with its vault, at the
/// addresses derived for them.
///
/// The campaign starts with nothing donated and an empty vault, and the owner
/// pays its storage. The call is refused, and changes nothing, with
/// `InvalidInput` where a text is out of bounds, the goal is zero or no
/// address can be derived, with `AddressCollision` where an account stands at
/// either address, and with `InsufficientFunds` where the owner is no wallet
/// that holds the price.
pub fn create_campaign(
    ledger: &mut Ledger,
    ctx: &CreateCampaign,
    name: String,
    description: String,
    goal: u64,
    deadline: i64,
) -> (r: Result<(), ErrorCode>)
    requires
        old(ledger).wf(),
    ensures
        final(ledger).wf(),
        r == outcome(
            old(ledger)@.creation_error(ctx.owner@, name@, description@, goal as nat),
        ),
        final(ledger)@ == old(ledger)@.after_creation(
            ctx.owner@,
            name@,
            description@,
            goal as nat,
            deadline as int,
        ),
{
    let program_id = ledger.program_id();
    let campaign = campaign_address(&program_id, &ctx.owner, name.as_str());
    let vault = match campaign {
        Some((c, _)) => vault_address(&program_id, &c),
        None => None,
    };
    create_campaign_at(ledger, ctx, campaign, vault, name, description, goal, deadline)
}

/// Creates the campaign of `ctx.owner` under `name` at `campaign`, with its
/// vault at `vault`: the addresses and bumps that were derived for them, or
/// `None` where none could be.
pub fn create_campaign_at(
    ledger: &mut Ledger,
    ctx: &CreateCampaign,
    campaign: Option<(Address, u8)>,
    vault: Option<(Address, u8)>,
    name: String,
    description: String,
    goal: u64,
    deadline: i64,
) -> (r: Result<(), ErrorCode>)
    requires
        old(ledger).wf(),
    ensures
        final(ledger).wf(),
        r == outcome(
            old(ledger)@.create_error(
                ctx.owner@,
                derived_view(campaign),
                derived_view(vault),
                name@,
                description@,
                goal as nat,
            ),
        ),
        final(ledger)@ == old(ledger)@.after_create(
            ctx.owner@,
            derived_view(campaign),
            derived_view(vault),
            name@,
            description@,
            goal as nat,
            deadline as int,
        ),
{
    if name.as_str().as_bytes().len() > MAX_NAME_LEN {
        return Err(ErrorCode::InvalidInput);
    }
    let at = match campaign {
        Some((at, _)) => at,
        None => {
            return Err(ErrorCode::InvalidInput);
        },
    };
    if ledger.contains(&at) {
        return Err(ErrorCode::AddressCollision);
    }
    let bytes = match space(name.as_str(), description.as_str()) {
        Ok(bytes) => bytes,
        Err(e) => {
            return Err(e);
        },
    };
    if goal == 0 {
        return Err(ErrorCode::InvalidInput);
    }
    let (vault_at, vault_bump) = match vault {
        Some(v) => v,
        None => {
            return Err(ErrorCode::InvalidInput);
        },
    };
    if vault_at.same(&at) || ledger.contains(&vault_at) {
        return Err(ErrorCode::AddressCollision);
    }
    let cost = match ledger.lamports_per_byte().checked_mul(bytes as u64) {
        Some(cost) => cost,
        None => {
            proof {
                ledger.lemma_bounds();
            }
            return Err(ErrorCode::InsufficientFunds);
        },
    };
    if !ledger.is_wallet(&ctx.owner) || ledger.balance(&ctx.owner) < cost {
        return Err(ErrorCode::InsufficientFunds);
    }
    let record = match Campaign::new(
        name,
        description,
        goal,
        deadline,
        ctx.owner,
        vault_at,
        vault_bump,
    ) {
        Ok(record) => record,
        Err(e) => {
            return Err(e);
        },
    };
    proof {
        lemma_created_consistent(
            ledger@,
            ctx.owner@,
            derived_view(campaign),
            derived_view(vault),
            name@,
            description@,
            goal as nat,
            deadline as int,
        );
    }
    ledger.open_account(vault_at, AccountData::Vault);
    ledger.open_account(at, AccountData::Campaign(record));
    ledger.transfer(&ctx.owner, &at, cost);
    Ok(())
}

/// Donates `amount` from `ctx.donor` to the campaign at `ctx.campaign`: the
/// lamports move from the donor to the campaign's vault, and the campaign's
/// total grows by as much.
///
/// The call is refused, and changes nothing, with `InvalidInput` where no
/// campaign stands at `ctx.campaign` or the amount is zero, with `Overflow`
/// where the total would leave the unsigned 64-bit range, and with
/// `TransferFailed` where the donor is no wallet that holds the amount. The
/// total is looked at before anything moves.
pub fn donate(ledger: &mut Ledger, ctx: &Donate, amount: u64) -> (r: Result<(), ErrorCode>)
    requires
        old(ledger).wf(),
    ensures
        final(ledger).wf(),
        r == outcome(old(ledger)@.donate_error(ctx.campaign@, ctx.donor@, amount as nat)),
        final(ledger)@ == old(ledger)@.after_donate(ctx.campaign@, ctx.donor@, amount as nat),
{
    let vault = match ledger.campaign(&ctx.campaign) {
        Some(c) => {
            match c.check_donation(amount) {
                Ok(_) => c.vault,
                Err(e) => {
                    return Err(e);
                },
            }
        },
        None => {
            return Err(ErrorCode::InvalidInput);
        },
    };
    if ledger.spendable(&ctx.donor) < amount {
        return Err(ErrorCode::TransferFailed);
    }
    proof {
        lemma_donated_consistent(ledger@, ctx.campaign@, ctx.donor@, amount as nat);
    }
    ledger.credit_campaign(&ctx.campaign, amount);
    ledger.transfer(&ctx.donor, &vault, amount);
    Ok(())
}

/// Withdraws all that the vault of the campaign at `ctx.campaign` holds to
/// its owner, at time `now`. The campaign itself is left as it was, so a
/// second withdrawal passes again and moves nothing.
///
/// The call is refused, and changes nothing, with `InvalidInput` where no
/// campaign stands at `ctx.campaign`, with `Unauthorized` unless `ctx.owner`
/// is the campaign's owner, else with `DeadlineNotPassed` unless `now` is
/// later than the deadline, else with `GoalNotReached` unless at least the
/// goal was donated.
pub fn withdraw(ledger: &mut Ledger, ctx: &Withdraw, now: i64) -> (r: Result<(), ErrorCode>)
    requires
        old(ledger).wf(),
    ensures
        final(ledger).wf(),
        r == outcome(old(ledger)@.withdraw_error(ctx.campaign@, ctx.owner@, now as int)),
        final(ledger)@ == old(ledger)@.after_withdraw(ctx.campaign@, ctx.owner@, now as int),
{
    let (vault, owner) = match ledger.campaign(&ctx.campaign) {
        Some(c) => {
            match c.check_withdraw(&ctx.owner, now) {
                Ok(_) => (c.vault, c.owner),
                Err(e) => {
                    return Err(e);
                },
            }
        },
        None => {
            return Err(ErrorCode::InvalidInput);
        },
    };
    let held = ledger.balance(&vault);
    proof {
        assert(ledger@.campaign_sound(ctx.campaign@));
        lemma_moved_consistent(ledger@, vault@, owner@, held as nat);
    }
    ledger.transfer(&vault, &owner, held);
    Ok(())
}

} // verus!
