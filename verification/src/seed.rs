//! The ledger entry of one seed and its balance accounting.

use crate::farm_set::FarmSet;
use crate::seed_id::{classified, classify, SeedType};
use crate::token_map::TokenMap;
use vstd::prelude::*;

verus! {

/// Identifier of a seed: a token contract id, or a contract id and an inner
/// index.
pub type SeedId = String;

/// An amount of the staked token.
pub type Balance = u128;

/// What a seed shows of itself to people.
#[derive(Clone, Debug)]
pub struct FarmSeedMetadata {
    pub title: Option<String>,
    pub media: Option<String>,
}

/// The ledger entry of one seed.
#[derive(Debug)]
pub struct FarmSeed {
    /// The token that this entry stands for.
    pub seed_id: SeedId,
    /// Whether the token is fungible, multi-fungible or non-fungible.
    pub seed_type: SeedType,
    /// The farms that accept this seed.
    pub farms: FarmSet,
    /// Sequence number of the next farm created under this seed.
    pub next_index: u32,
    /// Total staked balance of this seed.
    pub amount: Balance,
    /// Least deposit that callers accept for this seed.
    pub min_deposit: Balance,
    /// Quantity per token, for a non-fungible seed.
    pub nft_balance: Option<TokenMap<Balance>>,
    pub metadata: Option<FarmSeedMetadata>,
}

/// One step of balance accounting.
pub enum AmountOp {
    Add(Balance),
    Sub(Balance),
}

/// Sum of the amounts that the steps of `ops` add.
pub open spec fn total_added(ops: Seq<AmountOp>) -> int
    decreases ops.len(),
{
    if ops.len() == 0 {
        0
    } else {
        total_added(ops.drop_last()) + match ops.last() {
            AmountOp::Add(amount) => amount as int,
            AmountOp::Sub(_) => 0,
        }
    }
}

/// Sum of the amounts that the steps of `ops` subtract.
pub open spec fn total_subtracted(ops: Seq<AmountOp>) -> int
    decreases ops.len(),
{
    if ops.len() == 0 {
        0
    } else {
        total_subtracted(ops.drop_last()) + match ops.last() {
            AmountOp::Add(_) => 0,
            AmountOp::Sub(amount) => amount as int,
        }
    }
}

impl FarmSeed {
    /// The type says non-fungible exactly when a balance map is there.
    pub open spec fn well_formed(self) -> bool {
        self.seed_type == SeedType::NFT <==> self.nft_balance is Some
    }

    /// `self` is the entry that `new` makes of these arguments.
    pub open spec fn is_new(
        self,
        seed_id: Seq<char>,
        min_deposit: Balance,
        nft_balance: Option<TokenMap<Balance>>,
        metadata: Option<FarmSeedMetadata>,
    ) -> bool {
        &&& self.seed_id@ == seed_id
        &&& self.seed_type == classified(seed_id, nft_balance is Some)
        &&& self.farms@ == Set::<Seq<char>>::empty()
        &&& self.farms.ids() == Seq::<Seq<char>>::empty()
        &&& self.next_index == 0
        &&& self.amount == 0
        &&& self.min_deposit == min_deposit
        &&& self.nft_balance == nft_balance
        &&& self.metadata == metadata
    }

    /// `amount` can be added without leaving the 128-bit range.
    pub open spec fn can_add(self, amount: Balance) -> bool {
        self.amount + amount <= u128::MAX
    }

    /// `amount` can be subtracted without the balance going negative.
    pub open spec fn can_sub(self, amount: Balance) -> bool {
        amount <= self.amount
    }

    /// The entry with `amount` added to its balance and nothing else changed.
    pub open spec fn added(self, amount: Balance) -> FarmSeed {
        FarmSeed { amount: (self.amount + amount) as u128, ..self }
    }

    /// The entry with `amount` taken from its balance and nothing else
    /// changed.
    pub open spec fn subtracted(self, amount: Balance) -> FarmSeed {
        FarmSeed { amount: (self.amount - amount) as u128, ..self }
    }

    /// The entry allows the step `op`.
    pub open spec fn admits(self, op: AmountOp) -> bool {
        match op {
            AmountOp::Add(amount) => self.can_add(amount),
            AmountOp::Sub(amount) => self.can_sub(amount),
        }
    }

    /// The entry after the step `op`.
    pub open spec fn after(self, op: AmountOp) -> FarmSeed {
        match op {
            AmountOp::Add(amount) => self.added(amount),
            AmountOp::Sub(amount) => self.subtracted(amount),
        }
    }

    /// The entry after the steps of `ops`, first to last.
    pub open spec fn after_all(self, ops: Seq<AmountOp>) -> FarmSeed
        decreases ops.len(),
    {
        if ops.len() == 0 {
            self
        } else {
            self.after_all(ops.drop_last()).after(ops.last())
        }
    }

    /// A new entry for `seed_id`: nothing staked, no farm, and the type that
    /// the identifier and the presence of a balance map give.
    pub fn new(
        seed_id: &SeedId,
        min_deposit: Balance,
        nft_balance: Option<TokenMap<Balance>>,
        metadata: Option<FarmSeedMetadata>,
    ) -> (seed: Self)
        ensures
            seed.is_new(seed_id@, min_deposit, nft_balance, metadata),
            seed.well_formed(),
    {
        let seed_type = classify(seed_id.as_str(), nft_balance.is_some());
        FarmSeed {
            seed_id: seed_id.clone(),
            seed_type,
            farms: FarmSet::new(),
            next_index: 0,
            amount: 0,
            min_deposit,
            nft_balance,
            metadata,
        }
    }

    /// Adds `amount` to the staked balance.
    pub fn add_amount(&mut self, amount: Balance)
        requires
            old(self).can_add(amount),
        ensures
            *final(self) == old(self).added(amount),
            final(self).amount == old(self).amount + amount,
    {
        self.amount += amount;
    }

    /// Takes `amount` from the staked balance and returns what remains.
    pub fn sub_amount(&mut self, amount: Balance) -> (remaining: Balance)
        requires
            old(self).can_sub(amount),
        ensures
            *final(self) == old(self).subtracted(amount),
            remaining == old(self).amount - amount,
            remaining == final(self).amount,
    {
        self.amount -= amount;
        self.amount
    }

    /// Adds `amount` if the balance stays in range: then returns `true`.
    /// Otherwise leaves the entry as it is and returns `false`.
    pub fn try_add_amount(&mut self, amount: Balance) -> (done: bool)
        ensures
            done == old(self).can_add(amount),
            done ==> *final(self) == old(self).added(amount),
            !done ==> *final(self) == *old(self),
    {
        if amount <= u128::MAX - self.amount {
            self.add_amount(amount);
            true
        } else {
            false
        }
    }

    /// Takes `amount` if the balance covers it: then returns what remains.
    /// Otherwise leaves the entry as it is and returns `None`.
    pub fn try_sub_amount(&mut self, amount: Balance) -> (remaining: Option<Balance>)
        ensures
            old(self).can_sub(amount) ==> remaining == Some((old(self).amount - amount) as u128)
                && *final(self) == old(self).subtracted(amount),
            !old(self).can_sub(amount) ==> remaining is None && *final(self) == *old(self),
    {
        if amount <= self.amount {
            Some(self.sub_amount(amount))
        } else {
            None
        }
    }
}

/// The prefix of a sequence without its last element is a prefix of the
/// sequence.
proof fn lemma_take_drop_last(ops: Seq<AmountOp>, k: int)
    requires
        0 <= k < ops.len(),
    ensures
        ops.drop_last().take(k) == ops.take(k),
{
    assert(ops.drop_last().take(k) =~= ops.take(k));
}

/// Accounting is exact: over a run of additions and subtractions in which
/// the running balance never goes below zero nor above the 128-bit range,
/// every step is allowed where it stands, the final balance is the first
/// balance plus all that was added less all that was subtracted, and no
/// other field changes, so that a well-formed entry stays well-formed.
pub proof fn lemma_amount_is_sum_of_changes(seed: FarmSeed, ops: Seq<AmountOp>)
    requires
        forall|k: int|
            0 <= k <= ops.len() ==> 0 <= seed.amount + total_added(#[trigger] ops.take(k))
                - total_subtracted(ops.take(k)) <= u128::MAX,
    ensures
        forall|k: int| 0 <= k < ops.len() ==> seed.after_all(#[trigger] ops.take(k)).admits(ops[k]),
        seed.after_all(ops).amount == seed.amount + total_added(ops) - total_subtracted(ops),
        seed.after_all(ops) == (FarmSeed { amount: seed.after_all(ops).amount, ..seed }),
        seed.well_formed() ==> seed.after_all(ops).well_formed(),
    decreases ops.len(),
{
    if ops.len() > 0 {
        let front = ops.drop_last();
        let n = front.len() as int;
        assert forall|k: int| 0 <= k <= front.len() implies 0 <= seed.amount + total_added(
            #[trigger] front.take(k),
        ) - total_subtracted(front.take(k)) <= u128::MAX by {
            lemma_take_drop_last(ops, k);
        }
        lemma_amount_is_sum_of_changes(seed, front);
        assert(ops.take(n) =~= front);
        assert(ops.take(n + 1) =~= ops);
        assert forall|k: int| 0 <= k < ops.len() implies seed.after_all(
            #[trigger] ops.take(k),
        ).admits(ops[k]) by {
            if k < n {
                lemma_take_drop_last(ops, k);
                assert(front[k] == ops[k]);
            }
        }
    }
}

} // verus!
