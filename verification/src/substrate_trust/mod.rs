//! Per-substrate participation status and trust values, and the routing
//! of an unavailable answer to one of the three distinguishable
//! unavailable cases: engine-imagined (not shipped), substrate-unreachable
//! (shipping) and substrate-authored (live).
use vstd::prelude::*;
use crate::refusal_token::{RefusalToken, SubstrateId, UnavailableReason};
use crate::text::push_str;

verus! {

/// Where a substrate stands in its rollout.
#[derive(Debug, Clone, Copy, PartialEq, Eq, Hash)]
pub enum SubstrateParticipationStatus {
    /// Not shipped: any answer attributed to it would be engine-imagined.
    NotShipped,
    /// Shipping but not yet reachable.
    Shipping,
    /// Live.
    Live,
}

impl Default for SubstrateParticipationStatus {
    /// `NotShipped`.
    fn default() -> (s: Self)
        ensures
            s == SubstrateParticipationStatus::NotShipped,
    {
        SubstrateParticipationStatus::NotShipped
    }
}

/// A substrate's trust signal. A score is held as the bit pattern of its
/// IEEE-754 `f64`, which the library carries without reading.
#[derive(Debug, Clone, Copy, PartialEq)]
pub enum TrustValue {
    /// A score, as the bits of an `f64`.
    Score(u64),
    /// A yes/no signal.
    Flag(bool),
    /// A remaining budget.
    BudgetRemaining(i64),
    /// No value.
    Unavailable,
}

/// A substrate's status and trust value.
#[derive(Debug, Clone, Copy, PartialEq)]
pub struct TrustEntry {
    /// Participation status.
    pub status: SubstrateParticipationStatus,
    /// Trust value.
    pub value: TrustValue,
}

impl TrustEntry {
    /// The entry of a substrate that is not shipped: no value.
    pub fn not_shipped() -> (e: Self)
        ensures
            e == not_shipped_entry(),
    {
        TrustEntry { status: SubstrateParticipationStatus::NotShipped, value: TrustValue::Unavailable }
    }

    /// A live substrate with a score (the bits of an `f64`).
    pub fn live_score(score_bits: u64) -> (e: Self)
        ensures
            e == (TrustEntry {
                status: SubstrateParticipationStatus::Live,
                value: TrustValue::Score(score_bits),
            }),
    {
        TrustEntry { status: SubstrateParticipationStatus::Live, value: TrustValue::Score(score_bits) }
    }

    /// A live substrate with a flag.
    pub fn live_flag(flag: bool) -> (e: Self)
        ensures
            e == (TrustEntry {
                status: SubstrateParticipationStatus::Live,
                value: TrustValue::Flag(flag),
            }),
    {
        TrustEntry { status: SubstrateParticipationStatus::Live, value: TrustValue::Flag(flag) }
    }

    /// A live substrate with a remaining budget.
    pub fn live_budget(remaining: i64) -> (e: Self)
        ensures
            e == (TrustEntry {
                status: SubstrateParticipationStatus::Live,
                value: TrustValue::BudgetRemaining(remaining),
            }),
    {
        TrustEntry {
            status: SubstrateParticipationStatus::Live,
            value: TrustValue::BudgetRemaining(remaining),
        }
    }
}

/// The entry reported for a substrate nobody has set.
pub open spec fn not_shipped_entry() -> TrustEntry {
    TrustEntry { status: SubstrateParticipationStatus::NotShipped, value: TrustValue::Unavailable }
}

/// The slot of a substrate in the table (a bijection onto `0..10`).
pub open spec fn slot(s: SubstrateId) -> int {
    match s {
        SubstrateId::Atuin => 0,
        SubstrateId::Stcortex => 1,
        SubstrateId::HabitatConductor => 2,
        SubstrateId::HabitatInjection => 3,
        SubstrateId::Cc5LoopClocks => 4,
        SubstrateId::Watcher => 5,
        SubstrateId::Ralph => 6,
        SubstrateId::CargoBuildGraph => 7,
        SubstrateId::Lcm => 8,
        SubstrateId::SynthexV2 => 9,
    }
}

fn slot_exec(s: SubstrateId) -> (i: usize)
    ensures
        i == slot(s),
{
    match s {
        SubstrateId::Atuin => 0,
        SubstrateId::Stcortex => 1,
        SubstrateId::HabitatConductor => 2,
        SubstrateId::HabitatInjection => 3,
        SubstrateId::Cc5LoopClocks => 4,
        SubstrateId::Watcher => 5,
        SubstrateId::Ralph => 6,
        SubstrateId::CargoBuildGraph => 7,
        SubstrateId::Lcm => 8,
        SubstrateId::SynthexV2 => 9,
    }
}

/// Every substrate, in slot order.
pub open spec fn substrate_list() -> Seq<SubstrateId> {
    seq![
        SubstrateId::Atuin,
        SubstrateId::Stcortex,
        SubstrateId::HabitatConductor,
        SubstrateId::HabitatInjection,
        SubstrateId::Cc5LoopClocks,
        SubstrateId::Watcher,
        SubstrateId::Ralph,
        SubstrateId::CargoBuildGraph,
        SubstrateId::Lcm,
        SubstrateId::SynthexV2,
    ]
}

/// Every substrate.
pub open spec fn all_substrates() -> Set<SubstrateId> {
    substrate_list().to_set()
}

/// Trust entries per substrate: at most one entry each.
#[derive(Debug)]
pub struct SubstrateTrust {
    slots: Vec<Option<TrustEntry>>,
    count: usize,
}

impl View for SubstrateTrust {
    type V = Map<SubstrateId, TrustEntry>;

    closed spec fn view(&self) -> Map<SubstrateId, TrustEntry> {
        Map::new(|s: SubstrateId| self.slots@[slot(s)] is Some, |s: SubstrateId| self.slots@[slot(s)]->0)
    }
}

/// The participation status recorded for `s`, `NotShipped` when unset.
pub open spec fn status_in(m: Map<SubstrateId, TrustEntry>, s: SubstrateId) -> SubstrateParticipationStatus {
    if m.contains_key(s) {
        m[s].status
    } else {
        SubstrateParticipationStatus::NotShipped
    }
}

impl SubstrateTrust {
    #[verifier::type_invariant]
    spec fn wf(&self) -> bool {
        &&& self.slots@.len() == 10
        &&& self.count == self@.dom().len()
    }

    proof fn lemma_dom_finite(&self)
        requires
            self.slots@.len() == 10,
        ensures
            self@.dom().finite(),
            self@.dom().subset_of(all_substrates()),
    {
        assert forall|x: SubstrateId| self@.dom().contains(x) implies all_substrates().contains(x) by {
            assert(substrate_list()[slot(x)] == x);
        }
        vstd::seq_lib::seq_to_set_is_finite(substrate_list());
        vstd::set_lib::lemma_set_subset_finite(all_substrates(), self@.dom());
    }

    /// An empty table.
    pub fn new() -> (t: Self)
        ensures
            t@ == Map::<SubstrateId, TrustEntry>::empty(),
    {
        let mut slots: Vec<Option<TrustEntry>> = Vec::new();
        let mut i: usize = 0;
        while i < 10
            invariant
                i <= 10,
                slots@.len() == i,
                forall|k: int| 0 <= k < i ==> #[trigger] slots@[k] is None,
            decreases 10 - i,
        {
            slots.push(None);
            i = i + 1;
        }
        let ghost m = Map::new(
            |s: SubstrateId| slots@[slot(s)] is Some,
            |s: SubstrateId| slots@[slot(s)]->0,
        );
        assert(m =~= Map::<SubstrateId, TrustEntry>::empty());
        assert(m.dom() =~= Set::<SubstrateId>::empty());
        SubstrateTrust { slots, count: 0 }
    }

    /// Record `entry` for `substrate`, returning the entry it replaces.
    pub fn set(&mut self, substrate: SubstrateId, entry: TrustEntry) -> (prev: Option<TrustEntry>)
        ensures
            final(self)@ == old(self)@.insert(substrate, entry),
            prev == (if old(self)@.contains_key(substrate) {
                Some(old(self)@[substrate])
            } else {
                None
            }),
    {
        proof {
            use_type_invariant(&*self);
            self.lemma_dom_finite();
        }
        let i = slot_exec(substrate);
        let prev = self.slots[i];
        let ghost before = self@;
        let new_count = if prev.is_none() {
            assert(self.count <= 10) by {
                vstd::seq_lib::seq_to_set_is_finite(substrate_list());
                vstd::set_lib::lemma_len_subset(before.dom(), all_substrates());
                substrate_list().lemma_cardinality_of_set();
            }
            self.count + 1
        } else {
            self.count
        };
        let mut slots: Vec<Option<TrustEntry>> = Vec::new();
        let mut k: usize = 0;
        while k < 10
            invariant
                k <= 10,
                i < 10,
                self.slots@.len() == 10,
                slots@.len() == k,
                forall|j: int|
                    0 <= j < k ==> #[trigger] slots@[j] == (if j == i {
                        Some(entry)
                    } else {
                        self.slots@[j]
                    }),
            decreases 10 - k,
        {
            if k == i {
                slots.push(Some(entry));
            } else {
                slots.push(self.slots[k]);
            }
            k = k + 1;
        }
        assert(slots@ =~= self.slots@.update(i as int, Some(entry)));
        let ghost after = Map::new(
            |s: SubstrateId| slots@[slot(s)] is Some,
            |s: SubstrateId| slots@[slot(s)]->0,
        );
        proof {
            assert(after =~= before.insert(substrate, entry));
            if prev.is_none() {
                assert(after.dom() =~= before.dom().insert(substrate));
            } else {
                assert(after.dom() =~= before.dom());
            }
        }
        *self = SubstrateTrust { slots, count: new_count };
        prev
    }

    /// The entry recorded for `substrate`, or the not-shipped entry.
    pub fn get(&self, substrate: SubstrateId) -> (e: TrustEntry)
        ensures
            e == (if self@.contains_key(substrate) {
                self@[substrate]
            } else {
                not_shipped_entry()
            }),
    {
        proof {
            use_type_invariant(self);
        }
        match self.slots[slot_exec(substrate)] {
            Some(e) => e,
            None => TrustEntry::not_shipped(),
        }
    }

    /// The participation status recorded for `substrate` (`NotShipped`
    /// when unset).
    pub fn substrate_participation_status(&self, substrate: SubstrateId) -> (s:
        SubstrateParticipationStatus)
        ensures
            s == status_in(self@, substrate),
    {
        proof {
            use_type_invariant(self);
        }
        match self.slots[slot_exec(substrate)] {
            Some(e) => e.status,
            None => SubstrateParticipationStatus::NotShipped,
        }
    }

    /// Any answer attributed to `substrate` would be engine-imagined: it is
    /// not shipped.
    pub fn is_substrate_imagined_for(&self, substrate: SubstrateId) -> (b: bool)
        ensures
            b == (status_in(self@, substrate) == SubstrateParticipationStatus::NotShipped),
    {
        match self.substrate_participation_status(substrate) {
            SubstrateParticipationStatus::NotShipped => true,
            _ => false,
        }
    }

    /// The unavailable-answer token for `substrate`, routed by its status:
    /// engine-imagined when not shipped, substrate-unreachable when
    /// shipping, substrate-authored when live; the reason is prefixed with
    /// the case name and a colon.
    pub fn refusal_for_unavailable(&self, substrate: SubstrateId, reason: &str) -> (t: RefusalToken)
        ensures
            status_in(self@, substrate) == SubstrateParticipationStatus::NotShipped ==> (t matches RefusalToken::Unavailable(
                UnavailableReason::EngineImagined { substrate_id, reason: r },
            ) && substrate_id == substrate && r@ == "engine_imagined:"@ + reason@),
            status_in(self@, substrate) == SubstrateParticipationStatus::Shipping ==> (t matches RefusalToken::Unavailable(
                UnavailableReason::SubstrateUnreachable { substrate_id, transport_reason: r },
            ) && substrate_id == substrate && r@ == "substrate_unreachable:"@ + reason@),
            status_in(self@, substrate) == SubstrateParticipationStatus::Live ==> (t matches RefusalToken::Unavailable(
                UnavailableReason::SubstrateAuthored { substrate_id, substrate_reason: r },
            ) && substrate_id == substrate && r@ == "substrate_authored:"@ + reason@),
    {
        match self.substrate_participation_status(substrate) {
            SubstrateParticipationStatus::NotShipped => {
                let mut r = String::from_str("engine_imagined:");
                push_str(&mut r, reason);
                RefusalToken::unavailable_engine_imagined(substrate, r)
            },
            SubstrateParticipationStatus::Shipping => {
                let mut r = String::from_str("substrate_unreachable:");
                push_str(&mut r, reason);
                RefusalToken::unavailable_substrate_unreachable(substrate, r)
            },
            SubstrateParticipationStatus::Live => {
                let mut r = String::from_str("substrate_authored:");
                push_str(&mut r, reason);
                RefusalToken::unavailable_substrate_authored(substrate, r)
            },
        }
    }

    /// Number of substrates with an entry.
    pub fn len(&self) -> (n: usize)
        ensures
            n == self@.dom().len(),
    {
        proof {
            use_type_invariant(self);
        }
        self.count
    }

    /// No substrate has an entry.
    pub fn is_empty(&self) -> (b: bool)
        ensures
            b == (self@.dom().len() == 0),
    {
        proof {
            use_type_invariant(self);
        }
        self.count == 0
    }
}

impl Default for SubstrateTrust {
    /// An empty table.
    fn default() -> (t: Self)
        ensures
            t@ == Map::<SubstrateId, TrustEntry>::empty(),
    {
        SubstrateTrust::new()
    }
}

/// What `set` records, `get` gives back; other substrates are unaffected.
pub proof fn lemma_set_then_get(
    m: Map<SubstrateId, TrustEntry>,
    s: SubstrateId,
    e: TrustEntry,
    other: SubstrateId,
)
    ensures
        m.insert(s, e).contains_key(s) && m.insert(s, e)[s] == e,
        other != s ==> status_in(m.insert(s, e), other) == status_in(m, other),
{
}

} // verus!
