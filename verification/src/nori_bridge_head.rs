//! The state of a Nori bridge head between finality updates, and the
//! decisions taken on each update: whether the head is stale, whether the
//! first sync-committee update is already known, and how the proven public
//! values move the head forward.

use vstd::prelude::*;

use crate::proof_outputs::{
    decode_abi, ProofOutputsError, ProofOutputsView, RustProofOutputs, ABI_OUTPUT_BYTES,
};

verus! {

/// Seconds between two beacon-chain slots.
pub const SECONDS_PER_SLOT: u64 = 12;

/// Slots in one epoch.
pub const SLOTS_PER_EPOCH: u64 = 32;

/// Slots in one sync-committee period.
pub const SLOTS_PER_PERIOD: u64 = SLOTS_PER_EPOCH * 256;

/// Which beacon updates the bridge head follows.
#[derive(Clone, Copy, Debug, PartialEq, Eq, Structural)]
pub enum NoriBridgeHeadMode {
    Finality,
    Optimistic,
}

/// The 32-byte word of zeros, the default hash.
pub open spec fn zero_word() -> Seq<u8> {
    Seq::new(32, |i: int| 0u8)
}

/// The message with which an unknown mode name is refused.
pub open spec fn invalid_mode_message(s: Seq<char>) -> Seq<char> {
    "Invalid value for NoriBridgeHeadMode: '"@ + s
        + "'. Expected 'finality' or 'optimistic'."@
}

/// The mode that a name denotes, or the message that refuses it.
pub open spec fn parse_mode(s: Seq<char>) -> Result<NoriBridgeHeadMode, Seq<char>> {
    if s == "finality"@ {
        Ok(NoriBridgeHeadMode::Finality)
    } else if s == "optimistic"@ {
        Ok(NoriBridgeHeadMode::Optimistic)
    } else {
        Err(invalid_mode_message(s))
    }
}

/// The name under which a mode is shown.
pub open spec fn mode_name(m: NoriBridgeHeadMode) -> Seq<char> {
    match m {
        NoriBridgeHeadMode::Finality => "Finality"@,
        NoriBridgeHeadMode::Optimistic => "Optimistic"@,
    }
}

impl NoriBridgeHeadMode {
    /// Reads a mode from its lower-case name, `finality` or `optimistic`.
    pub fn from_str(s: &str) -> (r: Result<Self, String>)
        ensures
            match (r, parse_mode(s@)) {
                (Ok(m), Ok(n)) => m == n,
                (Err(e), Err(msg)) => e@ == msg,
                _ => false,
            },
    {
        let owned = s.to_owned();
        if owned == "finality".to_owned() {
            Ok(NoriBridgeHeadMode::Finality)
        } else if owned == "optimistic".to_owned() {
            Ok(NoriBridgeHeadMode::Optimistic)
        } else {
            let mut msg = "Invalid value for NoriBridgeHeadMode: '".to_owned();
            msg.append(s);
            msg.append("'. Expected 'finality' or 'optimistic'.");
            Err(msg)
        }
    }

    /// The name under which the mode is shown: `Finality` or `Optimistic`.
    pub fn to_string(&self) -> (r: String)
        ensures
            r@ == mode_name(*self),
    {
        match self {
            NoriBridgeHeadMode::Finality => "Finality".to_owned(),
            NoriBridgeHeadMode::Optimistic => "Optimistic".to_owned(),
        }
    }
}

impl std::str::FromStr for NoriBridgeHeadMode {
    type Err = String;

    /// Reads a mode from its lower-case name, as the inherent `from_str`.
    fn from_str(s: &str) -> (r: Result<Self, String>)
        ensures
            match (r, parse_mode(s@)) {
                (Ok(m), Ok(n)) => m == n,
                (Err(e), Err(msg)) => e@ == msg,
                _ => false,
            },
    {
        NoriBridgeHeadMode::from_str(s)
    }
}

/// The state of a bridge head as it is saved between runs.
#[derive(Clone, Copy, Debug, PartialEq, Eq)]
pub struct NoriBridgeCheckpoint {
    pub slot_head: u64,
    pub current_sync_commitee: [u8; 32],
    pub next_sync_committee: [u8; 32],
}

/// Where a bridge head starts from.
pub enum StartPoint {
    /// A checkpoint saved by an earlier run.
    Warm(NoriBridgeCheckpoint),
    /// The latest finalized slot, with the hash of the sync committee of
    /// the client bootstrapped at that slot; no next committee is known.
    Cold { slot_head: u64, current_sync_committee: [u8; 32] },
}

/// The mathematical content of a [`NoriBridgeHead`].
pub struct NoriBridgeHeadView {
    pub slot_head: u64,
    pub next_sync_committee: Seq<u8>,
    pub current_sync_committee: Seq<u8>,
    pub nb_checkpoint_location: Seq<char>,
    pub bridge_mode: NoriBridgeHeadMode,
}

/// The head that a start point gives.
pub open spec fn start_head(
    nb_checkpoint_location: Seq<char>,
    bridge_mode: NoriBridgeHeadMode,
    start: StartPoint,
) -> NoriBridgeHeadView {
    match start {
        StartPoint::Warm(cp) => NoriBridgeHeadView {
            slot_head: cp.slot_head,
            next_sync_committee: cp.next_sync_committee@,
            current_sync_committee: cp.current_sync_commitee@,
            nb_checkpoint_location,
            bridge_mode,
        },
        StartPoint::Cold { slot_head, current_sync_committee } => NoriBridgeHeadView {
            slot_head,
            next_sync_committee: zero_word(),
            current_sync_committee: current_sync_committee@,
            nb_checkpoint_location,
            bridge_mode,
        },
    }
}

/// The head after a proof up to `latest_slot` with outputs `o`: the slot
/// moves to `latest_slot`, the current committee to the proven one, and
/// the next committee to the proven one unless that is all zeros.
pub open spec fn advanced_head(
    h: NoriBridgeHeadView,
    latest_slot: u64,
    o: ProofOutputsView,
) -> NoriBridgeHeadView {
    NoriBridgeHeadView {
        slot_head: latest_slot,
        next_sync_committee: if o.next_sync_committee_hash == zero_word() {
            h.next_sync_committee
        } else {
            o.next_sync_committee_hash
        },
        current_sync_committee: o.sync_committee_hash,
        ..h
    }
}

/// Whether a finality update at `latest_slot` is ahead of the head.
pub open spec fn is_stale_at(h: NoriBridgeHeadView, latest_slot: u64) -> bool {
    latest_slot > h.slot_head
}

/// The checkpoint that saves a head.
pub open spec fn checkpoint_matches(h: NoriBridgeHeadView, cp: NoriBridgeCheckpoint) -> bool {
    &&& cp.slot_head == h.slot_head
    &&& cp.current_sync_commitee@ == h.current_sync_committee
    &&& cp.next_sync_committee@ == h.next_sync_committee
}

/// A light-client head that follows the beacon chain by finality updates.
pub struct NoriBridgeHead {
    slot_head: u64,
    next_sync_committee: [u8; 32],
    current_sync_commitee: [u8; 32],
    nb_checkpoint_location: String,
    bridge_mode: NoriBridgeHeadMode,
}

impl View for NoriBridgeHead {
    type V = NoriBridgeHeadView;

    closed spec fn view(&self) -> NoriBridgeHeadView {
        NoriBridgeHeadView {
            slot_head: self.slot_head,
            next_sync_committee: self.next_sync_committee@,
            current_sync_committee: self.current_sync_commitee@,
            nb_checkpoint_location: self.nb_checkpoint_location@,
            bridge_mode: self.bridge_mode,
        }
    }
}

/// Whether all 32 bytes of `w` are zero.
fn is_zero_word(w: &[u8; 32]) -> (r: bool)
    ensures
        r == (w@ == zero_word()),
{
    let mut i: usize = 0;
    while i < 32
        invariant
            i <= 32,
            forall|k: int| 0 <= k < i ==> w@[k] == 0u8,
        decreases 32 - i,
    {
        if w[i] != 0 {
            assert(w@[i as int] != zero_word()[i as int]);
            return false;
        }
        i = i + 1;
    }
    assert(w@ =~= zero_word());
    true
}

/// Whether two 32-byte words are equal.
fn words_equal(a: &[u8; 32], b: &[u8; 32]) -> (r: bool)
    ensures
        r == (a@ == b@),
{
    let mut i: usize = 0;
    while i < 32
        invariant
            i <= 32,
            forall|k: int| 0 <= k < i ==> a@[k] == b@[k],
        decreases 32 - i,
    {
        if a[i] != b[i] {
            return false;
        }
        i = i + 1;
    }
    assert(a@ =~= b@);
    true
}

impl NoriBridgeHead {
    /// Only finality mode is supported: every head follows finality updates.
    #[verifier::type_invariant]
    spec fn supported_mode(self) -> bool {
        self.bridge_mode == NoriBridgeHeadMode::Finality
    }

    /// Starts a head in finality mode from a saved checkpoint or from a cold
    /// start.
    pub fn new(
        nb_checkpoint_location: String,
        bridge_mode: NoriBridgeHeadMode,
        start: StartPoint,
    ) -> (r: Self)
        requires
            bridge_mode == NoriBridgeHeadMode::Finality,
        ensures
            r@ == start_head(nb_checkpoint_location@, bridge_mode, start),
            r@.nb_checkpoint_location == nb_checkpoint_location@,
            r@.bridge_mode == bridge_mode,
            start matches StartPoint::Warm(cp) ==> {
                &&& r@.slot_head == cp.slot_head
                &&& r@.current_sync_committee == cp.current_sync_commitee@
                &&& r@.next_sync_committee == cp.next_sync_committee@
            },
            start matches StartPoint::Cold { slot_head, current_sync_committee } ==> {
                &&& r@.slot_head == slot_head
                &&& r@.current_sync_committee == current_sync_committee@
                &&& r@.next_sync_committee.len() == 32
                &&& forall|k: int| 0 <= k < 32 ==> #[trigger] r@.next_sync_committee[k] == 0u8
            },
    {
        match start {
            StartPoint::Warm(cp) => NoriBridgeHead {
                slot_head: cp.slot_head,
                next_sync_committee: cp.next_sync_committee,
                current_sync_commitee: cp.current_sync_commitee,
                nb_checkpoint_location,
                bridge_mode,
            },
            StartPoint::Cold { slot_head, current_sync_committee } => {
                let next: [u8; 32] = [0u8; 32];
                assert(next@ =~= zero_word());
                NoriBridgeHead {
                    slot_head,
                    next_sync_committee: next,
                    current_sync_commitee: current_sync_committee,
                    nb_checkpoint_location,
                    bridge_mode,
                }
            },
        }
    }

    /// The sync-committee period that `slot` falls in.
    pub fn get_sync_committee_period(self, slot: u64) -> (r: u64)
        ensures
            r == slot / SLOTS_PER_PERIOD,
    {
        slot / SLOTS_PER_PERIOD
    }

    /// Whether a finality update at `latest_slot` moves the head: it does
    /// exactly when it is past the head.
    pub fn is_stale(&self, latest_slot: u64) -> (r: bool)
        ensures
            r == is_stale_at(self@, latest_slot),
            r == (latest_slot > self@.slot_head),
    {
        latest_slot > self.slot_head
    }

    /// Whether the first sync-committee update can be applied locally and
    /// left out of the proof: it can when its next committee hashes to the
    /// next committee the head already holds.
    pub fn sync_committee_update_is_known(
        &self,
        first_update_next_committee: Option<[u8; 32]>,
    ) -> (r: bool)
        ensures
            r == (first_update_next_committee matches Some(root) && root@
                == self@.next_sync_committee),
    {
        match first_update_next_committee {
            Some(root) => words_equal(&root, &self.next_sync_committee),
            None => false,
        }
    }

    /// Moves the head to `latest_slot` with the committees that a proof
    /// committed to; an all-zero next committee keeps the one held.
    pub fn advance(&mut self, latest_slot: u64, outputs: &RustProofOutputs)
        ensures
            final(self)@ == advanced_head(old(self)@, latest_slot, outputs@),
            final(self)@.slot_head == latest_slot,
            final(self)@.current_sync_committee == outputs.sync_committee_hash@,
            (forall|k: int| 0 <= k < 32 ==> #[trigger] outputs.next_sync_committee_hash@[k] == 0u8)
                ==> final(self)@.next_sync_committee == old(self)@.next_sync_committee,
            (exists|k: int| 0 <= k < 32 && #[trigger] outputs.next_sync_committee_hash@[k] != 0u8)
                ==> final(self)@.next_sync_committee == outputs.next_sync_committee_hash@,
            final(self)@.nb_checkpoint_location == old(self)@.nb_checkpoint_location,
            final(self)@.bridge_mode == old(self)@.bridge_mode,
    {
        proof {
            use_type_invariant(&*self);
        }
        proof {
            if forall|k: int| 0 <= k < 32 ==> #[trigger] outputs.next_sync_committee_hash@[k] == 0u8 {
                assert(outputs.next_sync_committee_hash@ =~= zero_word());
            }
        }
        self.slot_head = latest_slot;
        if !is_zero_word(&outputs.next_sync_committee_hash) {
            self.next_sync_committee = outputs.next_sync_committee_hash;
        }
        self.current_sync_commitee = outputs.sync_committee_hash;
    }

    /// Decodes the public values of a proof up to `latest_slot` and moves the
    /// head with them; values that do not decode leave the head as it was.
    pub fn apply_public_values(
        &mut self,
        latest_slot: u64,
        public_values: &[u8],
    ) -> (r: Result<(), ProofOutputsError>)
        ensures
            r is Ok <==> public_values@.len() == ABI_OUTPUT_BYTES,
            r is Ok ==> final(self)@ == advanced_head(
                old(self)@,
                latest_slot,
                decode_abi(public_values@),
            ),
            r matches Err(e) ==> e == ProofOutputsError::InvalidLength,
            r is Err ==> final(self)@ == old(self)@,
            r is Ok ==> {
                &&& final(self)@.slot_head == latest_slot
                &&& final(self)@.current_sync_committee == public_values@.subrange(192, 224)
                &&& (forall|k: int| 64 <= k < 96 ==> #[trigger] public_values@[k] == 0u8)
                    ==> final(self)@.next_sync_committee == old(self)@.next_sync_committee
                &&& (exists|k: int| 64 <= k < 96 && #[trigger] public_values@[k] != 0u8)
                    ==> final(self)@.next_sync_committee == public_values@.subrange(64, 96)
            },
    {
        match RustProofOutputs::from_abi(public_values) {
            Ok(outputs) => {
                proof {
                    let pv = public_values@;
                    let next = outputs.next_sync_committee_hash@;
                    assert(next == pv.subrange(64, 96));
                    assert(forall|k: int| 0 <= k < 32 ==> #[trigger] next[k] == pv[64 + k]);
                    if forall|k: int| 64 <= k < 96 ==> #[trigger] pv[k] == 0u8 {
                        assert forall|k: int| 0 <= k < 32 implies #[trigger] next[k] == 0u8 by {
                            assert(next[k] == pv[64 + k]);
                        }
                    }
                    if exists|k: int| 64 <= k < 96 && #[trigger] pv[k] != 0u8 {
                        let k = choose|k: int| 64 <= k < 96 && #[trigger] pv[k] != 0u8;
                        assert(next[k - 64] == pv[k]);
                    }
                }
                self.advance(latest_slot, &outputs);
                Ok(())
            },
            Err(e) => Err(e),
        }
    }

    /// Moves the head with the public values of a proof up to `latest_slot`,
    /// but only when that slot is past the head: a head that is up to date
    /// is left as it is and `Ok(false)` is returned. The head never moves
    /// backwards.
    pub fn advance_if_stale(
        &mut self,
        latest_slot: u64,
        public_values: &[u8],
    ) -> (r: Result<bool, ProofOutputsError>)
        ensures
            final(self)@.slot_head >= old(self)@.slot_head,
            r == Ok::<bool, ProofOutputsError>(false) <==> !is_stale_at(old(self)@, latest_slot),
            r == Ok::<bool, ProofOutputsError>(true) <==> (is_stale_at(old(self)@, latest_slot)
                && public_values@.len() == ABI_OUTPUT_BYTES),
            r == Ok::<bool, ProofOutputsError>(true) ==> final(self)@ == advanced_head(
                old(self)@,
                latest_slot,
                decode_abi(public_values@),
            ),
            r matches Err(e) ==> e == ProofOutputsError::InvalidLength,
            r != Ok::<bool, ProofOutputsError>(true) ==> final(self)@ == old(self)@,
            r == Ok::<bool, ProofOutputsError>(false) <==> latest_slot <= old(self)@.slot_head,
            r == Ok::<bool, ProofOutputsError>(true) ==> {
                &&& final(self)@.slot_head == latest_slot
                &&& final(self)@.current_sync_committee == public_values@.subrange(192, 224)
                &&& (forall|k: int| 64 <= k < 96 ==> #[trigger] public_values@[k] == 0u8)
                    ==> final(self)@.next_sync_committee == old(self)@.next_sync_committee
                &&& (exists|k: int| 64 <= k < 96 && #[trigger] public_values@[k] != 0u8)
                    ==> final(self)@.next_sync_committee == public_values@.subrange(64, 96)
            },
    {
        if !self.is_stale(latest_slot) {
            return Ok(false);
        }
        match self.apply_public_values(latest_slot, public_values) {
            Ok(()) => Ok(true),
            Err(e) => Err(e),
        }
    }

    /// The checkpoint that saves this head.
    pub fn to_checkpoint(&self) -> (r: NoriBridgeCheckpoint)
        ensures
            checkpoint_matches(self@, r),
            r.slot_head == self@.slot_head,
            r.current_sync_commitee@ == self@.current_sync_committee,
            r.next_sync_committee@ == self@.next_sync_committee,
    {
        NoriBridgeCheckpoint {
            slot_head: self.slot_head,
            current_sync_commitee: self.current_sync_commitee,
            next_sync_committee: self.next_sync_committee,
        }
    }
    /// The mode the head follows, always finality.
    pub fn bridge_mode(&self) -> (r: NoriBridgeHeadMode)
        ensures
            r == self@.bridge_mode,
            r == NoriBridgeHeadMode::Finality,
    {
        proof {
            use_type_invariant(self);
        }
        self.bridge_mode
    }

    /// The last slot the head has been proven up to.
    pub fn slot_head(&self) -> (r: u64)
        ensures
            r == self@.slot_head,
    {
        self.slot_head
    }

    /// The hash of the next sync committee, all zeros while none is known.
    pub fn next_sync_committee(&self) -> (r: [u8; 32])
        ensures
            r@ == self@.next_sync_committee,
    {
        self.next_sync_committee
    }

    /// The hash of the current sync committee.
    pub fn current_sync_committee(&self) -> (r: [u8; 32])
        ensures
            r@ == self@.current_sync_committee,
    {
        self.current_sync_commitee
    }

    /// Where the checkpoint of this head is saved.
    pub fn nb_checkpoint_location(&self) -> (r: &String)
        ensures
            r@ == self@.nb_checkpoint_location,
    {
        &self.nb_checkpoint_location
    }
}

/// A checkpoint saved from a head starts a head with the same slot and
/// committees (and the same location and mode).
pub proof fn lemma_checkpoint_round_trip(h: NoriBridgeHeadView, cp: NoriBridgeCheckpoint)
    requires
        checkpoint_matches(h, cp),
    ensures
        start_head(h.nb_checkpoint_location, h.bridge_mode, StartPoint::Warm(cp)) == h,
{
}

/// A proof for a stale head moves its slot strictly forward.
pub proof fn lemma_stale_update_moves_head_forward(
    h: NoriBridgeHeadView,
    latest_slot: u64,
    o: ProofOutputsView,
)
    requires
        is_stale_at(h, latest_slot),
    ensures
        advanced_head(h, latest_slot, o).slot_head > h.slot_head,
{
}

/// Once moved to a slot, the head is up to date with a finality update at
/// that slot: the same update is not processed twice.
pub proof fn lemma_advanced_head_is_up_to_date(
    h: NoriBridgeHeadView,
    latest_slot: u64,
    o: ProofOutputsView,
)
    ensures
        !is_stale_at(advanced_head(h, latest_slot, o), latest_slot),
{
}

/// A known next sync committee is never replaced by the all-zero hash.
pub proof fn lemma_next_committee_never_cleared(
    h: NoriBridgeHeadView,
    latest_slot: u64,
    o: ProofOutputsView,
)
    requires
        h.next_sync_committee != zero_word(),
    ensures
        advanced_head(h, latest_slot, o).next_sync_committee != zero_word(),
{
}

/// Moving the head keeps where it is saved and the mode it follows.
pub proof fn lemma_advance_keeps_location_and_mode(
    h: NoriBridgeHeadView,
    latest_slot: u64,
    o: ProofOutputsView,
)
    ensures
        advanced_head(h, latest_slot, o).nb_checkpoint_location == h.nb_checkpoint_location,
        advanced_head(h, latest_slot, o).bridge_mode == h.bridge_mode,
{
}

/// A finality update makes a head stale exactly when its slot is past the
/// head's slot.
pub proof fn lemma_stale_exactly_past_head(h: NoriBridgeHeadView, latest_slot: u64)
    ensures
        is_stale_at(h, latest_slot) <==> latest_slot > h.slot_head,
        !is_stale_at(h, h.slot_head),
{
}

/// A warm start takes the checkpoint's slot and committee bytes unchanged.
pub proof fn lemma_warm_start_takes_checkpoint(
    loc: Seq<char>,
    mode: NoriBridgeHeadMode,
    cp: NoriBridgeCheckpoint,
)
    ensures
        start_head(loc, mode, StartPoint::Warm(cp)).slot_head == cp.slot_head,
        start_head(loc, mode, StartPoint::Warm(cp)).current_sync_committee
            == cp.current_sync_commitee@,
        start_head(loc, mode, StartPoint::Warm(cp)).next_sync_committee
            == cp.next_sync_committee@,
        start_head(loc, mode, StartPoint::Warm(cp)).nb_checkpoint_location == loc,
        start_head(loc, mode, StartPoint::Warm(cp)).bridge_mode == mode,
{
}

/// A cold start keeps the given slot and committee bytes and knows no next
/// committee: all 32 of its bytes are zero.
pub proof fn lemma_cold_start_keeps_committee(
    loc: Seq<char>,
    mode: NoriBridgeHeadMode,
    slot_head: u64,
    current: [u8; 32],
)
    ensures
        start_head(loc, mode, StartPoint::Cold { slot_head, current_sync_committee: current })
            .slot_head == slot_head,
        start_head(loc, mode, StartPoint::Cold { slot_head, current_sync_committee: current })
            .current_sync_committee == current@,
        start_head(loc, mode, StartPoint::Cold { slot_head, current_sync_committee: current })
            .next_sync_committee.len() == 32,
        forall|k: int|
            0 <= k < 32 ==> #[trigger] start_head(
                loc,
                mode,
                StartPoint::Cold { slot_head, current_sync_committee: current },
            ).next_sync_committee[k] == 0u8,
{
}

/// Moving a head puts it at the update's slot with the proven current
/// committee byte for byte; the next committee becomes the proven one unless
/// that is all zeros, in which case the held one stays.
pub proof fn lemma_advance_takes_proven_committees(
    h: NoriBridgeHeadView,
    latest_slot: u64,
    o: ProofOutputsView,
)
    ensures
        advanced_head(h, latest_slot, o).slot_head == latest_slot,
        advanced_head(h, latest_slot, o).current_sync_committee == o.sync_committee_hash,
        (o.next_sync_committee_hash.len() == 32 && forall|k: int|
            0 <= k < 32 ==> #[trigger] o.next_sync_committee_hash[k] == 0u8) ==> advanced_head(
            h,
            latest_slot,
            o,
        ).next_sync_committee == h.next_sync_committee,
        (exists|k: int|
            0 <= k < o.next_sync_committee_hash.len() && #[trigger] o.next_sync_committee_hash[k]
                != 0u8) ==> advanced_head(h, latest_slot, o).next_sync_committee
            == o.next_sync_committee_hash,
{
    if o.next_sync_committee_hash.len() == 32 && forall|k: int|
        0 <= k < 32 ==> #[trigger] o.next_sync_committee_hash[k] == 0u8 {
        assert(o.next_sync_committee_hash =~= zero_word());
    }
    if exists|k: int|
        0 <= k < o.next_sync_committee_hash.len() && #[trigger] o.next_sync_committee_hash[k]
            != 0u8 {
        let k = choose|k: int|
            0 <= k < o.next_sync_committee_hash.len() && #[trigger] o.next_sync_committee_hash[k]
                != 0u8;
        assert(zero_word().len() == 32);
        if o.next_sync_committee_hash.len() == 32 {
            assert(zero_word()[k] == 0u8);
        }
        assert(o.next_sync_committee_hash != zero_word());
    }
}

/// A checkpoint saves a head exactly when it holds the head's slot and the
/// head's committee bytes unchanged.
pub proof fn lemma_checkpoint_holds_head_bytes(h: NoriBridgeHeadView, cp: NoriBridgeCheckpoint)
    ensures
        checkpoint_matches(h, cp) <==> {
            &&& cp.slot_head == h.slot_head
            &&& cp.current_sync_commitee@ == h.current_sync_committee
            &&& cp.next_sync_committee@ == h.next_sync_committee
        },
{
}

} // verus!
