//! The engine instance: all durable state, its well-formedness invariant,
//! and the monotonicity predicate every state-mutating entry point obeys.

use vstd::prelude::*;

use crate::types::{
    AccountId, Balance, Campaign, CampaignState, Donation, Error, Event, MatchingRound,
    ReceiptRequest, TransferRequest, VoteRecord,
};
use crate::types::{
    donations_wf, has_pair, pair_keys_unique, state_reachable, sum_amounts, sum_percentages,
    vote_key_is, vote_keys_unique, FULL_BASIS_POINTS, MAX_GOAL, MAX_RAISED,
};

verus! {

/// A complete, self-contained settlement engine. The host supplies caller
/// identity and timestamps as arguments; transfers, receipt requests and
/// events the host must act on are appended to the logs at the end.
#[derive(Debug, Clone)]
pub struct Engine {
    /// The administrator account, fixed at construction.
    pub admin: AccountId,
    /// The treasury account receiving platform fees, fixed at construction.
    pub treasury: AccountId,
    /// The reentrancy lock. Guarded entry points fail fast while it is held.
    pub locked: bool,
    /// Version of the engine logic.
    pub version: u32,
    /// Maximum number of inner operations in one batch.
    pub max_batch_size: u32,
    /// The receipt contract to call after donations, if configured.
    pub nft_contract: Option<AccountId>,
    /// Whether donation receipts are requested at all.
    pub nft_enabled: bool,
    /// Ids below this were assigned by a predecessor instance and have no
    /// record here; the next campaign id is `id_base + campaigns.len()`.
    pub id_base: u32,
    /// Campaign records, indexed by `id - id_base`.
    pub campaigns: Vec<Campaign>,
    /// The donation ledger of each campaign, parallel to `campaigns`.
    pub donations: Vec<Vec<Donation>>,
    /// Refund claim markers, keyed by campaign id and donor.
    pub refund_claims: Vec<(u32, AccountId)>,
    /// Unique donor markers, keyed by campaign id and donor.
    pub unique_donors: Vec<(u32, AccountId)>,
    /// Milestone votes, keyed by campaign id, milestone index and voter.
    pub votes: Vec<VoteRecord>,
    /// Undistributed funds available for future matching rounds.
    pub matching_pool_balance: Balance,
    /// The round new campaigns are tagged with, if one is open.
    pub current_round: Option<u32>,
    /// Matching rounds, indexed by round id.
    pub rounds: Vec<MatchingRound>,
    /// Currency transfers the host must perform. Append-only.
    pub transfers: Vec<TransferRequest>,
    /// Best-effort receipt mints the host should attempt. Append-only.
    pub receipts: Vec<ReceiptRequest>,
    /// Domain events for the host to publish. Append-only.
    pub events: Vec<Event>,
}

impl Engine {
    /// Total number of campaign ids assigned so far, including those of a
    /// predecessor instance.
    pub open spec fn campaign_count_int(self) -> int {
        self.id_base + self.campaigns@.len()
    }

    /// Whether `id` names a campaign recorded in this instance.
    pub open spec fn has_campaign(self, id: u32) -> bool {
        self.id_base <= id && (id as int) < self.campaign_count_int()
    }

    /// The index in `campaigns` of the campaign with id `id`.
    pub open spec fn idx_of(self, id: u32) -> int {
        id - self.id_base
    }

    /// The campaign record with id `id`.
    pub open spec fn campaign_at(self, id: u32) -> Campaign {
        self.campaigns@[self.idx_of(id)]
    }

    /// The donation ledgers as mathematical sequences.
    pub open spec fn ledgers(self) -> Seq<Seq<Donation>> {
        self.donations@.map(|i: int, v: Vec<Donation>| v@)
    }

    /// The donation ledger of the campaign with id `id`.
    pub open spec fn ledger_at(self, id: u32) -> Seq<Donation> {
        self.donations@[self.idx_of(id)]@
    }

    /// Everything that must hold of the campaign record and ledger at
    /// index `j`. The ledger/raised equation is the accounting invariant:
    /// the gross sum of the ledger always equals the raised total.
    pub open spec fn campaign_ok(self, j: int) -> bool {
        let c = self.campaigns@[j];
        let d = self.donations@[j]@;
        &&& c.id == self.id_base + j
        &&& 1 <= c.title@.len() <= 100
        &&& c.description@.len() <= 1000
        &&& 0 < c.goal <= MAX_GOAL
        &&& c.beneficiary != 0
        &&& c.raised <= MAX_RAISED
        &&& (c.state == CampaignState::Active ==> c.raised < c.goal)
        &&& (c.state == CampaignState::Successful ==> c.raised >= c.goal)
        &&& sum_amounts(d) == c.raised
        &&& c.donation_count == d.len()
        &&& donations_wf(d)
        &&& (c.state == CampaignState::Active ==> forall|m: int|
            0 <= m < c.milestones@.len() ==> !(#[trigger] c.milestones@[m]).released
                && !c.milestones@[m].voting_active)
        &&& (c.uses_milestones ==> sum_percentages(c.milestones@) == FULL_BASIS_POINTS)
        &&& forall|m: int|
            0 <= m < c.milestones@.len() ==> (#[trigger] c.milestones@[m]).percentage
                <= FULL_BASIS_POINTS
        &&& (c.matching_round matches Some(r) ==> (r as int) < self.rounds@.len())
    }

    /// Well-formedness of the whole engine state. Constructors establish it
    /// and every entry point preserves it.
    pub open spec fn wf(self) -> bool {
        &&& self.campaigns@.len() == self.donations@.len()
        &&& self.campaign_count_int() <= u32::MAX
        &&& forall|j: int| 0 <= j < self.campaigns@.len() ==> #[trigger] self.campaign_ok(j)
        &&& self.rounds@.len() <= u32::MAX
        &&& forall|k: int|
            0 <= k < self.rounds@.len() ==> (#[trigger] self.rounds@[k]).id == k
        &&& (self.current_round matches Some(r) ==> (r as int) < self.rounds@.len())
        &&& pair_keys_unique(self.refund_claims@)
        &&& pair_keys_unique(self.unique_donors@)
        &&& vote_keys_unique(self.votes@)
    }
}

/// How one campaign record may change under any entry point: identity and
/// creation-time attributes are frozen, the raised total and donation count
/// never decrease, the lifecycle state only moves forward, released
/// milestones stay released, and milestone gating is never turned off.
pub open spec fn campaign_evolves(pre: Campaign, post: Campaign) -> bool {
    &&& post.id == pre.id
    &&& post.owner == pre.owner
    &&& post.title@ == pre.title@
    &&& post.description@ == pre.description@
    &&& post.goal == pre.goal
    &&& post.deadline == pre.deadline
    &&& post.beneficiary == pre.beneficiary
    &&& post.matching_round == pre.matching_round
    &&& pre.raised <= post.raised
    &&& pre.donation_count <= post.donation_count
    &&& state_reachable(pre.state, post.state)
    &&& (pre.uses_milestones ==> post.uses_milestones)
    &&& forall|m: int|
        0 <= m < pre.milestones@.len() && (#[trigger] pre.milestones@[m]).released
            ==> m < post.milestones@.len() && post.milestones@[m].released
}

/// How the whole engine may change under any entry point: records are only
/// appended, campaigns evolve monotonically, distributed rounds stay
/// distributed, and the ledgers, markers and outgoing logs are append-only.
pub open spec fn engine_evolves(pre: Engine, post: Engine) -> bool {
    &&& post.admin == pre.admin
    &&& post.treasury == pre.treasury
    &&& post.id_base == pre.id_base
    &&& pre.campaigns@.len() <= post.campaigns@.len()
    &&& forall|j: int|
        0 <= j < pre.campaigns@.len() ==> campaign_evolves(
            #[trigger] pre.campaigns@[j],
            post.campaigns@[j],
        )
    &&& pre.donations@.len() <= post.donations@.len()
    &&& forall|j: int|
        0 <= j < pre.donations@.len() ==> (#[trigger] pre.donations@[j]@).is_prefix_of(
            post.donations@[j]@,
        )
    &&& pre.rounds@.len() <= post.rounds@.len()
    &&& forall|k: int|
        0 <= k < pre.rounds@.len() && (#[trigger] pre.rounds@[k]).distributed
            ==> post.rounds@[k].distributed
    &&& pre.refund_claims@.is_prefix_of(post.refund_claims@)
    &&& pre.unique_donors@.is_prefix_of(post.unique_donors@)
    &&& pre.votes@.is_prefix_of(post.votes@)
    &&& pre.transfers@.is_prefix_of(post.transfers@)
    &&& pre.receipts@.is_prefix_of(post.receipts@)
    &&& pre.events@.is_prefix_of(post.events@)
}

/// The construction-time configuration and the lock, unchanged between two
/// states. Entry points restore the lock before returning, so this holds
/// of every call.
pub open spec fn config_unchanged(pre: Engine, post: Engine) -> bool {
    &&& post.admin == pre.admin
    &&& post.treasury == pre.treasury
    &&& post.locked == pre.locked
    &&& post.version == pre.version
    &&& post.max_batch_size == pre.max_batch_size
    &&& post.nft_contract == pre.nft_contract
    &&& post.nft_enabled == pre.nft_enabled
    &&& post.id_base == pre.id_base
}

/// A sequence is a prefix of itself.
pub proof fn lemma_prefix_refl<A>(s: Seq<A>)
    ensures
        s.is_prefix_of(s),
{
    assert(s.subrange(0, s.len() as int) =~= s);
}

/// A sequence is a prefix of itself with one element appended.
pub proof fn lemma_prefix_push<A>(s: Seq<A>, x: A)
    ensures
        s.is_prefix_of(s.push(x)),
{
    assert(s.push(x).subrange(0, s.len() as int) =~= s);
}

/// Prefixes compose: a prefix of a prefix is a prefix.
pub proof fn lemma_prefix_trans<A>(a: Seq<A>, b: Seq<A>, c: Seq<A>)
    requires
        a.is_prefix_of(b),
        b.is_prefix_of(c),
    ensures
        a.is_prefix_of(c),
{
    assert(a =~= c.subrange(0, a.len() as int));
}

/// Well-formedness only looks at the records, not at the configuration:
/// a state with the same records as a well-formed one is well-formed.
pub proof fn lemma_wf_same_records(pre: Engine, post: Engine)
    requires
        pre.wf(),
        post.campaigns@ == pre.campaigns@,
        post.donations@ == pre.donations@,
        post.rounds@ == pre.rounds@,
        post.id_base == pre.id_base,
        post.current_round == pre.current_round,
        post.refund_claims@ == pre.refund_claims@,
        post.unique_donors@ == pre.unique_donors@,
        post.votes@ == pre.votes@,
    ensures
        post.wf(),
{
    assert forall|j: int| 0 <= j < post.campaigns@.len() implies #[trigger] post.campaign_ok(
        j,
    ) by {
        assert(pre.campaign_ok(j));
    }
}


/// `engine_evolves` composes: two evolutions in sequence are one evolution.
pub proof fn lemma_evolves_transitive(a: Engine, b: Engine, c: Engine)
    requires
        engine_evolves(a, b),
        engine_evolves(b, c),
    ensures
        engine_evolves(a, c),
{
    assert forall|j: int| 0 <= j < a.campaigns@.len() implies campaign_evolves(
        #[trigger] a.campaigns@[j],
        c.campaigns@[j],
    ) by {
        assert(campaign_evolves(a.campaigns@[j], b.campaigns@[j]));
        assert(campaign_evolves(b.campaigns@[j], c.campaigns@[j]));
    }
    assert forall|j: int| 0 <= j < a.donations@.len() implies (
    #[trigger] a.donations@[j]@).is_prefix_of(c.donations@[j]@) by {
        assert(a.donations@[j]@.is_prefix_of(b.donations@[j]@));
        assert(b.donations@[j]@.is_prefix_of(c.donations@[j]@));
    }
}

impl Engine {
    /// A fresh engine. The constructing account becomes both the
    /// administrator and the treasury.
    pub fn new(caller: AccountId) -> (e: Engine)
        ensures
            e.wf(),
            e.admin == caller,
            e.treasury == caller,
            !e.locked,
            e.version == 2,
            e.max_batch_size == 50,
            e.nft_contract is None,
            !e.nft_enabled,
            e.id_base == 0,
            e.campaigns@.len() == 0,
            e.donations@.len() == 0,
            e.refund_claims@.len() == 0,
            e.unique_donors@.len() == 0,
            e.votes@.len() == 0,
            e.matching_pool_balance == 0,
            e.current_round is None,
            e.rounds@.len() == 0,
            e.transfers@.len() == 0,
            e.receipts@.len() == 0,
            e.events@.len() == 0,
    {
        Engine {
            admin: caller,
            treasury: caller,
            locked: false,
            version: 2,
            max_batch_size: 50,
            nft_contract: None,
            nft_enabled: false,
            id_base: 0,
            campaigns: Vec::new(),
            donations: Vec::new(),
            refund_claims: Vec::new(),
            unique_donors: Vec::new(),
            votes: Vec::new(),
            matching_pool_balance: 0,
            current_round: None,
            rounds: Vec::new(),
            transfers: Vec::new(),
            receipts: Vec::new(),
            events: Vec::new(),
        }
    }

    /// An engine taking over from a predecessor instance: the predecessor's
    /// campaign count is preserved, so new ids continue after its last one,
    /// while the predecessor's records themselves are not carried over.
    pub fn migrate_from_v1(campaign_count: u32, caller: AccountId) -> (e: Engine)
        ensures
            e.wf(),
            e.admin == caller,
            e.treasury == caller,
            !e.locked,
            e.version == 2,
            e.max_batch_size == 50,
            e.id_base == campaign_count,
            e.campaigns@.len() == 0,
            e.donations@.len() == 0,
            e.refund_claims@.len() == 0,
            e.unique_donors@.len() == 0,
            e.votes@.len() == 0,
            e.matching_pool_balance == 0,
            e.current_round is None,
            e.rounds@.len() == 0,
            e.transfers@.len() == 0,
            e.receipts@.len() == 0,
            e.events@.len() == 0,
    {
        let mut e = Engine::new(caller);
        e.id_base = campaign_count;
        e
    }

    /// The engine logic version.
    pub fn get_version(&self) -> (r: u32)
        ensures
            r == self.version,
    {
        self.version
    }

    /// Total number of campaign ids assigned so far.
    pub fn get_campaign_count(&self) -> (r: u32)
        requires
            self.wf(),
        ensures
            r == self.campaign_count_int(),
    {
        self.id_base + self.campaigns.len() as u32
    }

    /// The configured maximum batch size.
    pub fn get_max_batch_size(&self) -> (r: u32)
        ensures
            r == self.max_batch_size,
    {
        self.max_batch_size
    }

    /// Update the maximum batch size. Admin only.
    pub fn set_max_batch_size(&mut self, caller: AccountId, size: u32) -> (result: Result<
        (),
        Error,
    >)
        requires
            old(self).wf(),
        ensures
            final(self).wf(),
            engine_evolves(*old(self), *final(self)),
            caller != old(self).admin ==> result == Err::<(), Error>(Error::NotAdmin)
                && *final(self) == *old(self),
            caller == old(self).admin ==> result == Ok::<(), Error>(()) && *final(self) == (Engine {
                max_batch_size: size,
                ..*old(self)
            }),
    {
        if caller != self.admin {
            return Err(Error::NotAdmin);
        }
        self.max_batch_size = size;
        proof {
            lemma_wf_same_records(*old(self), *self);
        }
        Ok(())
    }

    /// The configured receipt contract, if any.
    pub fn get_nft_contract(&self) -> (r: Option<AccountId>)
        ensures
            r == self.nft_contract,
    {
        self.nft_contract
    }

    /// Configure the receipt contract. Admin only.
    pub fn set_nft_contract(&mut self, caller: AccountId, nft_contract: AccountId) -> (result:
        Result<(), Error>)
        requires
            old(self).wf(),
        ensures
            final(self).wf(),
            engine_evolves(*old(self), *final(self)),
            caller != old(self).admin ==> result == Err::<(), Error>(Error::NotAdmin)
                && *final(self) == *old(self),
            caller == old(self).admin ==> result == Ok::<(), Error>(()) && *final(self) == (Engine {
                nft_contract: Some(nft_contract),
                ..*old(self)
            }),
    {
        if caller != self.admin {
            return Err(Error::NotAdmin);
        }
        self.nft_contract = Some(nft_contract);
        proof {
            lemma_wf_same_records(*old(self), *self);
        }
        Ok(())
    }

    /// Whether donation receipts are requested.
    pub fn is_nft_enabled(&self) -> (r: bool)
        ensures
            r == self.nft_enabled,
    {
        self.nft_enabled
    }

    /// Enable or disable donation receipts. Admin only.
    pub fn set_nft_enabled(&mut self, caller: AccountId, enabled: bool) -> (result: Result<
        (),
        Error,
    >)
        requires
            old(self).wf(),
        ensures
            final(self).wf(),
            engine_evolves(*old(self), *final(self)),
            caller != old(self).admin ==> result == Err::<(), Error>(Error::NotAdmin)
                && *final(self) == *old(self),
            caller == old(self).admin ==> result == Ok::<(), Error>(()) && *final(self) == (Engine {
                nft_enabled: enabled,
                ..*old(self)
            }),
    {
        if caller != self.admin {
            return Err(Error::NotAdmin);
        }
        self.nft_enabled = enabled;
        proof {
            lemma_wf_same_records(*old(self), *self);
        }
        Ok(())
    }
}

/// Linear membership scan for a (campaign, account) key.
pub(crate) fn pair_contains(v: &Vec<(u32, AccountId)>, c: u32, a: AccountId) -> (r: bool)
    ensures
        r == has_pair(v@, c, a),
{
    let n = v.len();
    let mut i: usize = 0;
    while i < n
        invariant
            n == v@.len(),
            0 <= i <= n,
            forall|k: int| 0 <= k < i ==> v@[k] != (c, a),
        decreases n - i,
    {
        if v[i].0 == c && v[i].1 == a {
            assert(v@[i as int] == (c, a));
            return true;
        }
        i += 1;
    }
    false
}

} // verus!
