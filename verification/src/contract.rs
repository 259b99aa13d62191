use std::collections::HashMap;
use vstd::prelude::*;
use crate::address::Address;
use crate::error::SoroError;
use crate::stream::{Stream, StreamView, lemma_stream_vested_in_range};
use crate::effects::{
    DataKey, Transfer, Event, Action, Effects, TransferView, EventView, ActionView, EffectsView,
    ordered_actions,
};

verus! {

broadcast use vstd::std_specs::hash::group_hash_axioms;

/// The mathematical value of the contract state: what its persistent
/// storage holds.
pub struct SoroStreamView {
    /// `DataKey::Init`.
    pub initialized: bool,
    /// `DataKey::Admin`.
    pub admin: Option<Seq<u8>>,
    /// `DataKey::NextStreamId`: the id the next stream receives.
    pub next_stream_id: u64,
    /// `DataKey::Stream(id)` for every stored stream.
    pub streams: Map<u64, StreamView>,
}

/// A payout of `amount` of `token` to `to`, or no transfer at all when
/// `amount` is not positive.
pub open spec fn payout_if_positive(token: Seq<u8>, to: Seq<u8>, amount: int) -> Seq<TransferView> {
    if amount > 0 {
        seq![TransferView::Payout { token, to, amount: amount as i128 }]
    } else {
        Seq::empty()
    }
}

impl SoroStreamView {
    /// The invariant of the contract state: each stored stream is
    /// well-formed, is stored under its own id, and that id was taken from
    /// the counter; before `initialize` nothing is stored.
    pub open spec fn well_formed(self) -> bool {
        &&& forall|k: u64| #[trigger]
            self.streams.contains_key(k) ==> {
                &&& self.streams[k].id == k
                &&& k < self.next_stream_id
                &&& self.streams[k].well_formed()
            }
        &&& !self.initialized ==> {
            &&& self.admin is None
            &&& self.next_stream_id == 0
            &&& self.streams =~= Map::<u64, StreamView>::empty()
        }
    }

    /// Whether `self` and `other` hold the same entry under `key`.
    pub open spec fn same_entry(self, other: Self, key: DataKey) -> bool {
        match key {
            DataKey::Init => self.initialized == other.initialized,
            DataKey::Admin => self.admin == other.admin,
            DataKey::NextStreamId => self.next_stream_id == other.next_stream_id,
            DataKey::Stream(id) => {
                &&& self.streams.contains_key(id) == other.streams.contains_key(id)
                &&& self.streams.contains_key(id) ==> self.streams[id] == other.streams[id]
            },
        }
    }

    /// The state with `s` stored under `id`.
    pub open spec fn with_stream(self, id: u64, s: StreamView) -> Self {
        SoroStreamView { streams: self.streams.insert(id, s), ..self }
    }

    // ── initialize ───────────────────────────────────────────────────────

    /// `initialize(admin)`: refused once the contract is initialized;
    /// otherwise records the admin and starts the id counter at 0.
    pub open spec fn initialize_result(self, admin: Seq<u8>) -> Result<Self, SoroError> {
        if self.initialized {
            Err(SoroError::AlreadyInitialized)
        } else {
            Ok(SoroStreamView { initialized: true, admin: Some(admin), next_stream_id: 0, ..self })
        }
    }

    pub open spec fn initialize_effects(admin: Seq<u8>) -> EffectsView {
        EffectsView {
            actions: ordered_actions(
                admin,
                seq![DataKey::Init, DataKey::Admin, DataKey::NextStreamId],
                Seq::empty(),
                EventView::ProtocolInitialized { admin },
            ),
        }
    }

    // ── create_stream ────────────────────────────────────────────────────

    /// The first check that `create_stream` fails, if any.
    pub open spec fn create_error(self, amount: i128, start_time: u64, end_time: u64, now: u64) -> Option<
        SoroError,
    > {
        if !self.initialized {
            Some(SoroError::NotInitialized)
        } else if amount <= 0 {
            Some(SoroError::InvalidAmount)
        } else if start_time < now {
            Some(SoroError::InvalidTimeRange)
        } else if end_time <= start_time {
            Some(SoroError::InvalidTimeRange)
        } else {
            None
        }
    }

    /// The stream that `create_stream` stores under the current counter.
    pub open spec fn new_stream(
        self,
        sender: Seq<u8>,
        recipient: Seq<u8>,
        token: Seq<u8>,
        amount: i128,
        start_time: u64,
        end_time: u64,
    ) -> StreamView {
        StreamView {
            id: self.next_stream_id,
            sender,
            recipient,
            token,
            total_amount: amount,
            claimed_amount: 0,
            start_time,
            end_time,
            is_cancelled: false,
        }
    }

    /// `create_stream`: on success the new stream is stored under the
    /// counter's value, which is the returned id, and the counter moves on
    /// by one.
    pub open spec fn create_result(
        self,
        sender: Seq<u8>,
        recipient: Seq<u8>,
        token: Seq<u8>,
        amount: i128,
        start_time: u64,
        end_time: u64,
        now: u64,
    ) -> Result<(Self, u64), SoroError> {
        match self.create_error(amount, start_time, end_time, now) {
            Some(e) => Err(e),
            None => Ok(
                (
                    SoroStreamView {
                        next_stream_id: (self.next_stream_id + 1) as u64,
                        ..self.with_stream(
                            self.next_stream_id,
                            self.new_stream(sender, recipient, token, amount, start_time, end_time),
                        )
                    },
                    self.next_stream_id,
                ),
            ),
        }
    }

    pub open spec fn create_effects(
        self,
        sender: Seq<u8>,
        recipient: Seq<u8>,
        token: Seq<u8>,
        amount: i128,
        start_time: u64,
        end_time: u64,
    ) -> EffectsView {
        EffectsView {
            actions: ordered_actions(
                sender,
                seq![DataKey::Stream(self.next_stream_id), DataKey::NextStreamId],
                seq![TransferView::Deposit { token, from: sender, amount }],
                EventView::StreamCreated {
                    stream_id: self.next_stream_id,
                    sender,
                    recipient,
                    token,
                    amount,
                    start_time,
                    end_time,
                },
            ),
        }
    }

    // ── claim_stream ─────────────────────────────────────────────────────

    /// Whether `claim_stream` gets as far as evaluating the vesting formula.
    pub open spec fn claim_reaches_vesting(self, stream_id: u64, recipient: Seq<u8>) -> bool {
        &&& self.streams.contains_key(stream_id)
        &&& self.streams[stream_id].recipient == recipient
        &&& !self.streams[stream_id].is_cancelled
    }

    /// The first check that `claim_stream` fails, if any.
    pub open spec fn claim_error(self, stream_id: u64, recipient: Seq<u8>, now: u64) -> Option<
        SoroError,
    > {
        if !self.streams.contains_key(stream_id) {
            Some(SoroError::StreamNotFound)
        } else if self.streams[stream_id].recipient != recipient {
            Some(SoroError::Unauthorized)
        } else if self.streams[stream_id].is_cancelled {
            Some(SoroError::StreamEnded)
        } else if self.streams[stream_id].claimable(now) == 0 {
            Some(SoroError::NothingToClaim)
        } else {
            None
        }
    }

    /// `claim_stream`: on success everything claimable at `now` is paid to
    /// the recipient and added to the stream's claimed amount.
    pub open spec fn claim_result(self, stream_id: u64, recipient: Seq<u8>, now: u64) -> Result<
        (Self, i128),
        SoroError,
    > {
        match self.claim_error(stream_id, recipient, now) {
            Some(e) => Err(e),
            None => {
                let s = self.streams[stream_id];
                let c = s.claimable(now);
                Ok(
                    (
                        self.with_stream(
                            stream_id,
                            StreamView { claimed_amount: (s.claimed_amount + c) as i128, ..s },
                        ),
                        c as i128,
                    ),
                )
            },
        }
    }

    pub open spec fn claim_effects(self, stream_id: u64, recipient: Seq<u8>, amount: i128) -> EffectsView {
        EffectsView {
            actions: ordered_actions(
                recipient,
                seq![DataKey::Stream(stream_id)],
                seq![TransferView::Payout { token: self.streams[stream_id].token, to: recipient, amount }],
                EventView::StreamClaimed { stream_id, recipient, amount },
            ),
        }
    }

    // ── cancel_stream ────────────────────────────────────────────────────

    /// Whether `cancel_stream` gets as far as evaluating the vesting formula.
    pub open spec fn cancel_reaches_vesting(self, stream_id: u64, sender: Seq<u8>) -> bool {
        &&& self.streams.contains_key(stream_id)
        &&& self.streams[stream_id].sender == sender
        &&& !self.streams[stream_id].is_cancelled
    }

    /// The first check that `cancel_stream` fails, if any.
    pub open spec fn cancel_error(self, stream_id: u64, sender: Seq<u8>) -> Option<SoroError> {
        if !self.streams.contains_key(stream_id) {
            Some(SoroError::StreamNotFound)
        } else if self.streams[stream_id].sender != sender {
            Some(SoroError::Unauthorized)
        } else if self.streams[stream_id].is_cancelled {
            Some(SoroError::StreamEnded)
        } else {
            None
        }
    }

    /// `cancel_stream`: on success the recipient gets what is claimable at
    /// `now`, the sender gets the rest of the unclaimed amount back, and the
    /// stream is marked cancelled with the recipient's part counted as
    /// claimed. The result is `(state, recipient_claimable, sender_refund)`.
    pub open spec fn cancel_result(self, stream_id: u64, sender: Seq<u8>, now: u64) -> Result<
        (Self, i128, i128),
        SoroError,
    > {
        match self.cancel_error(stream_id, sender) {
            Some(e) => Err(e),
            None => {
                let s = self.streams[stream_id];
                let rc = s.claimable(now);
                let refund = s.total_amount - s.claimed_amount - rc;
                Ok(
                    (
                        self.with_stream(
                            stream_id,
                            StreamView {
                                claimed_amount: (s.claimed_amount + rc) as i128,
                                is_cancelled: true,
                                ..s
                            },
                        ),
                        rc as i128,
                        refund as i128,
                    ),
                )
            },
        }
    }

    pub open spec fn cancel_effects(
        self,
        stream_id: u64,
        recipient_claimable: i128,
        sender_refund: i128,
    ) -> EffectsView {
        let s = self.streams[stream_id];
        EffectsView {
            actions: ordered_actions(
                s.sender,
                seq![DataKey::Stream(stream_id)],
                payout_if_positive(s.token, s.recipient, recipient_claimable as int)
                    + payout_if_positive(s.token, s.sender, sender_refund as int),
                EventView::StreamCancelled { stream_id, sender_refund, recipient_claimable },
            ),
        }
    }

    // ── claimable_amount ─────────────────────────────────────────────────

    /// `claimable_amount`: what is claimable from the stream at `now`;
    /// nothing once the stream is cancelled.
    pub open spec fn claimable_result(self, stream_id: u64, now: u64) -> Result<i128, SoroError> {
        if !self.streams.contains_key(stream_id) {
            Err(SoroError::StreamNotFound)
        } else if self.streams[stream_id].is_cancelled {
            Ok(0)
        } else {
            Ok(self.streams[stream_id].claimable(now) as i128)
        }
    }
}

/// The state of the stream contract: the initialization flag, the admin,
/// the stream id counter and the stored streams.
///
/// A host that keeps this state in keyed storage may build a value that
/// holds only the entries an operation reads (see `from_storage` and
/// `restore_stream`); every operation reports in its `Effects` the entries
/// it changed.
pub struct SoroStream {
    initialized: bool,
    admin: Option<Address>,
    next_stream_id: u64,
    streams: HashMap<u64, Stream>,
}

impl View for SoroStream {
    type V = SoroStreamView;

    closed spec fn view(&self) -> SoroStreamView {
        SoroStreamView {
            initialized: self.initialized,
            admin: match self.admin {
                Some(a) => Some(a@),
                None => None,
            },
            next_stream_id: self.next_stream_id,
            streams: self.streams@.map_values(|s: Stream| s@),
        }
    }
}

impl SoroStream {
    /// The invariant of the state.
    pub open spec fn wf(&self) -> bool {
        self@.well_formed()
    }

    /// A contract that has not been initialized and stores nothing.
    pub fn new() -> (r: SoroStream)
        ensures
            r.wf(),
            !r@.initialized,
            r@.admin is None,
            r@.next_stream_id == 0,
            r@.streams == Map::<u64, StreamView>::empty(),
    {
        let r = SoroStream {
            initialized: false,
            admin: None,
            next_stream_id: 0,
            streams: HashMap::new(),
        };
        assert(r@.streams =~= Map::<u64, StreamView>::empty());
        r
    }

    /// Rebuilds the state from the entries under `DataKey::Init`,
    /// `DataKey::Admin` and `DataKey::NextStreamId`, with no stream loaded
    /// yet. `None` where the entries contradict each other (an admin or a
    /// non-zero counter without the initialization flag).
    pub fn from_storage(initialized: bool, admin: Option<Address>, next_stream_id: u64) -> (r: Option<SoroStream>)
        ensures
            r is Some <==> (initialized || (admin is None && next_stream_id == 0)),
            r matches Some(st) ==> {
                &&& st.wf()
                &&& st@.initialized == initialized
                &&& st@.admin == (match admin { Some(a) => Some(a@), None => None::<Seq<u8>> })
                &&& st@.next_stream_id == next_stream_id
                &&& st@.streams == Map::<u64, StreamView>::empty()
            },
    {
        if !initialized && (admin.is_some() || next_stream_id != 0) {
            return None;
        }
        let r = SoroStream { initialized, admin, next_stream_id, streams: HashMap::new() };
        assert(r@.streams =~= Map::<u64, StreamView>::empty());
        Some(r)
    }

    /// Loads a stream read from storage into the state. Accepted, and then
    /// stored under its id, exactly when the contract is initialized, the
    /// stream is well-formed, its id was taken from the counter and no
    /// stream is loaded under that id yet; otherwise the state is unchanged.
    pub fn restore_stream(&mut self, stream: Stream) -> (accepted: bool)
        requires
            old(self).wf(),
        ensures
            final(self).wf(),
            accepted == {
                &&& old(self)@.initialized
                &&& stream@.well_formed()
                &&& stream.id < old(self)@.next_stream_id
                &&& !old(self)@.streams.contains_key(stream.id)
            },
            accepted ==> final(self)@ == old(self)@.with_stream(stream.id, stream@),
            !accepted ==> final(self)@ == old(self)@,
    {
        if !self.initialized || stream.total_amount <= 0 || stream.claimed_amount < 0
            || stream.claimed_amount > stream.total_amount || stream.start_time >= stream.end_time
            || stream.id >= self.next_stream_id || self.streams.contains_key(&stream.id)
        {
            return false;
        }
        let ghost pre = self@;
        let ghost sv = stream@;
        let id: u64 = stream.id;
        self.streams.insert(id, stream);
        assert(self@.streams =~= pre.streams.insert(id, sv));
        true
    }

    /// Initialize the protocol: record `admin` and start the stream id
    /// counter at 0; the effects require the admin's signature. Refused
    /// with `AlreadyInitialized` when called again.
    pub fn initialize(&mut self, admin: Address) -> (r: Result<Effects, SoroError>)
        requires
            old(self).wf(),
        ensures
            final(self).wf(),
            match r {
                Ok(fx) => {
                    &&& old(self)@.initialize_result(admin@) == Ok::<SoroStreamView, SoroError>(final(self)@)
                    &&& fx@ == SoroStreamView::initialize_effects(admin@)
                },
                Err(e) => {
                    &&& old(self)@.initialize_result(admin@) == Err::<SoroStreamView, SoroError>(e)
                    &&& final(self)@ == old(self)@
                },
            },
    {
        if self.initialized {
            return Err(SoroError::AlreadyInitialized);
        }
        let ghost admin_view = admin@;
        let event_admin = admin.duplicate();
        let signer = admin.duplicate();
        self.initialized = true;
        self.admin = Some(admin);
        self.next_stream_id = 0;
        let fx = Effects {
            actions: vec![
                Action::RequireAuth(signer),
                Action::Write(DataKey::Init),
                Action::Write(DataKey::Admin),
                Action::Write(DataKey::NextStreamId),
                Action::Publish(Event::ProtocolInitialized { admin: event_admin }),
            ],
        };
        assert(fx@.actions =~= SoroStreamView::initialize_effects(admin_view).actions);
        Ok(fx)
    }

    /// Create a new stream of `amount` of `token` from `sender` to
    /// `recipient`, vesting linearly from `start_time` to `end_time`, at
    /// ledger time `now`. Returns the new stream's id, which is the value of
    /// the id counter; the counter moves on by one. The effects require the
    /// sender's signature, write the stream and the counter, then ask for
    /// the deposit of `amount` from `sender` into escrow.
    ///
    /// Refused with `NotInitialized` before `initialize`, with
    /// `InvalidAmount` when `amount <= 0`, and with `InvalidTimeRange` when
    /// `start_time < now` or `end_time <= start_time`, checked in that order.
    pub fn create_stream(
        &mut self,
        sender: Address,
        recipient: Address,
        token: Address,
        amount: i128,
        start_time: u64,
        end_time: u64,
        now: u64,
    ) -> (r: Result<(u64, Effects), SoroError>)
        requires
            old(self).wf(),
            old(self)@.create_error(amount, start_time, end_time, now) is None
                ==> old(self)@.next_stream_id < u64::MAX,
        ensures
            final(self).wf(),
            match r {
                Ok((id, fx)) => {
                    &&& old(self)@.create_result(sender@, recipient@, token@, amount, start_time, end_time, now)
                        == Ok::<(SoroStreamView, u64), SoroError>((final(self)@, id))
                    &&& fx@ == old(self)@.create_effects(sender@, recipient@, token@, amount, start_time, end_time)
                },
                Err(e) => {
                    &&& old(self)@.create_result(sender@, recipient@, token@, amount, start_time, end_time, now)
                        == Err::<(SoroStreamView, u64), SoroError>(e)
                    &&& final(self)@ == old(self)@
                },
            },
    {
        if !self.initialized {
            return Err(SoroError::NotInitialized);
        }
        if amount <= 0 {
            return Err(SoroError::InvalidAmount);
        }
        if start_time < now {
            return Err(SoroError::InvalidTimeRange);
        }
        if end_time <= start_time {
            return Err(SoroError::InvalidTimeRange);
        }
        let ghost pre = self@;
        let stream_id: u64 = self.next_stream_id;
        let event = Event::StreamCreated {
            stream_id,
            sender: sender.duplicate(),
            recipient: recipient.duplicate(),
            token: token.duplicate(),
            amount,
            start_time,
            end_time,
        };
        let deposit = Transfer::Deposit { token: token.duplicate(), from: sender.duplicate(), amount };
        let signer = sender.duplicate();
        let ghost expected = pre.create_effects(sender@, recipient@, token@, amount, start_time, end_time);
        let stream = Stream {
            id: stream_id,
            sender,
            recipient,
            token,
            total_amount: amount,
            claimed_amount: 0,
            start_time,
            end_time,
            is_cancelled: false,
        };
        let ghost sv = stream@;
        self.streams.insert(stream_id, stream);
        self.next_stream_id = stream_id + 1;
        assert(self@.streams =~= pre.streams.insert(stream_id, sv));
        let fx = Effects {
            actions: vec![
                Action::RequireAuth(signer),
                Action::Write(DataKey::Stream(stream_id)),
                Action::Write(DataKey::NextStreamId),
                Action::Transfer(deposit),
                Action::Publish(event),
            ],
        };
        assert(fx@.actions =~= expected.actions);
        Ok((stream_id, fx))
    }

    /// Claim everything vested and not yet claimed from stream `stream_id`
    /// at ledger time `now`. Returns the amount, which is added to the
    /// stream's claimed amount; the effects require the recipient's
    /// signature, write the stream, then ask for the payout to `recipient`.
    ///
    /// Refused with `StreamNotFound` when no stream has that id, with
    /// `Unauthorized` when `recipient` is not the stream's recipient, with
    /// `StreamEnded` when the stream was cancelled and with `NothingToClaim`
    /// when nothing is claimable, checked in that order.
    pub fn claim_stream(&mut self, stream_id: u64, recipient: &Address, now: u64) -> (r: Result<
        (i128, Effects),
        SoroError,
    >)
        requires
            old(self).wf(),
            old(self)@.claim_reaches_vesting(stream_id, recipient@)
                ==> old(self)@.streams[stream_id].vesting_fits(now),
        ensures
            final(self).wf(),
            match r {
                Ok((amount, fx)) => {
                    &&& old(self)@.claim_result(stream_id, recipient@, now)
                        == Ok::<(SoroStreamView, i128), SoroError>((final(self)@, amount))
                    &&& fx@ == old(self)@.claim_effects(stream_id, recipient@, amount)
                },
                Err(e) => {
                    &&& old(self)@.claim_result(stream_id, recipient@, now)
                        == Err::<(SoroStreamView, i128), SoroError>(e)
                    &&& final(self)@ == old(self)@
                },
            },
    {
        let ghost pre = self@;
        let claimable: i128;
        let token: Address;
        match self.streams.get(&stream_id) {
            None => {
                return Err(SoroError::StreamNotFound);
            },
            Some(stream) => {
                assert(stream@ == pre.streams[stream_id]);
                if !stream.recipient.same_as(recipient) {
                    return Err(SoroError::Unauthorized);
                }
                if stream.is_cancelled {
                    return Err(SoroError::StreamEnded);
                }
                claimable = Self::compute_claimable(stream, now);
                if claimable == 0 {
                    return Err(SoroError::NothingToClaim);
                }
                proof {
                    lemma_stream_vested_in_range(stream@, now);
                }
                token = stream.token.duplicate();
            },
        }
        let mut stream = self.streams.remove(&stream_id).unwrap();
        stream.claimed_amount = stream.claimed_amount + claimable;
        let ghost sv = stream@;
        self.streams.insert(stream_id, stream);
        assert(self@.streams =~= pre.streams.insert(stream_id, sv));
        let fx = Effects {
            actions: vec![
                Action::RequireAuth(recipient.duplicate()),
                Action::Write(DataKey::Stream(stream_id)),
                Action::Transfer(Transfer::Payout { token, to: recipient.duplicate(), amount: claimable }),
                Action::Publish(
                    Event::StreamClaimed { stream_id, recipient: recipient.duplicate(), amount: claimable },
                ),
            ],
        };
        assert(fx@.actions =~= pre.claim_effects(stream_id, recipient@, claimable).actions);
        Ok((claimable, fx))
    }

    /// Cancel stream `stream_id` at ledger time `now`: the recipient is owed
    /// what is claimable now, the sender the rest of the unclaimed amount.
    /// The stream is marked cancelled with the recipient's part counted as
    /// claimed; the effects require the sender's signature, write the
    /// stream, then ask for a payout of each part that is positive, first
    /// the recipient's, then the sender's.
    ///
    /// Refused with `StreamNotFound` when no stream has that id, with
    /// `Unauthorized` when `sender` is not the stream's sender and with
    /// `StreamEnded` when the stream was already cancelled, checked in that
    /// order.
    pub fn cancel_stream(&mut self, stream_id: u64, sender: &Address, now: u64) -> (r: Result<
        Effects,
        SoroError,
    >)
        requires
            old(self).wf(),
            old(self)@.cancel_reaches_vesting(stream_id, sender@)
                ==> old(self)@.streams[stream_id].vesting_fits(now),
        ensures
            final(self).wf(),
            match r {
                Ok(fx) => match old(self)@.cancel_result(stream_id, sender@, now) {
                    Ok((post, rc, refund)) => {
                        &&& final(self)@ == post
                        &&& fx@ == old(self)@.cancel_effects(stream_id, rc, refund)
                    },
                    Err(_) => false,
                },
                Err(e) => {
                    &&& old(self)@.cancel_result(stream_id, sender@, now)
                        == Err::<(SoroStreamView, i128, i128), SoroError>(e)
                    &&& final(self)@ == old(self)@
                },
            },
    {
        let ghost pre = self@;
        let recipient_claimable: i128;
        let sender_refund: i128;
        let token: Address;
        let recipient: Address;
        let stream_sender: Address;
        match self.streams.get(&stream_id) {
            None => {
                return Err(SoroError::StreamNotFound);
            },
            Some(stream) => {
                assert(stream@ == pre.streams[stream_id]);
                if !stream.sender.same_as(sender) {
                    return Err(SoroError::Unauthorized);
                }
                if stream.is_cancelled {
                    return Err(SoroError::StreamEnded);
                }
                recipient_claimable = Self::compute_claimable(stream, now);
                proof {
                    lemma_stream_vested_in_range(stream@, now);
                }
                sender_refund = stream.total_amount - stream.claimed_amount - recipient_claimable;
                token = stream.token.duplicate();
                recipient = stream.recipient.duplicate();
                stream_sender = stream.sender.duplicate();
            },
        }
        let mut stream = self.streams.remove(&stream_id).unwrap();
        stream.claimed_amount = stream.claimed_amount + recipient_claimable;
        stream.is_cancelled = true;
        let ghost sv = stream@;
        self.streams.insert(stream_id, stream);
        assert(self@.streams =~= pre.streams.insert(stream_id, sv));
        let ghost ps = pre.streams[stream_id];
        let mut actions: Vec<Action> = Vec::new();
        actions.push(Action::RequireAuth(stream_sender.duplicate()));
        actions.push(Action::Write(DataKey::Stream(stream_id)));
        let ghost w = seq![ActionView::RequireAuth(ps.sender), ActionView::Write(DataKey::Stream(stream_id))];
        assert(actions@.map_values(|a: Action| a@) =~= w);
        let ghost t1 = payout_if_positive(ps.token, ps.recipient, recipient_claimable as int);
        let ghost t2 = payout_if_positive(ps.token, ps.sender, sender_refund as int);
        if recipient_claimable > 0 {
            actions.push(
                Action::Transfer(
                    Transfer::Payout { token: token.duplicate(), to: recipient, amount: recipient_claimable },
                ),
            );
        }
        assert(actions@.map_values(|a: Action| a@) =~= w + t1.map_values(|t: TransferView| ActionView::Transfer(t)));
        if sender_refund > 0 {
            actions.push(Action::Transfer(Transfer::Payout { token, to: stream_sender, amount: sender_refund }));
        }
        assert(actions@.map_values(|a: Action| a@) =~= w + (t1 + t2).map_values(|t: TransferView| ActionView::Transfer(t)));
        actions.push(Action::Publish(Event::StreamCancelled { stream_id, sender_refund, recipient_claimable }));
        let fx = Effects { actions };
        assert(fx@.actions =~= pre.cancel_effects(stream_id, recipient_claimable, sender_refund).actions);
        assert(pre.cancel_result(stream_id, sender@, now)
            == Ok::<(SoroStreamView, i128, i128), SoroError>((self@, recipient_claimable, sender_refund)));
        Ok(fx)
    }

    /// The stream stored under `stream_id`; `StreamNotFound` when there is
    /// none.
    pub fn get_stream(&self, stream_id: u64) -> (r: Result<&Stream, SoroError>)
        ensures
            match r {
                Ok(s) => self@.streams.contains_key(stream_id) && s@ == self@.streams[stream_id],
                Err(e) => !self@.streams.contains_key(stream_id) && e == SoroError::StreamNotFound,
            },
    {
        match self.streams.get(&stream_id) {
            Some(s) => Ok(s),
            None => Err(SoroError::StreamNotFound),
        }
    }

    /// What is claimable from stream `stream_id` at ledger time `now`,
    /// without changing anything; `StreamNotFound` when there is no such
    /// stream. Nothing is claimable from a cancelled stream: its claims are
    /// refused, and cancelling settled both parties.
    pub fn claimable_amount(&self, stream_id: u64, now: u64) -> (r: Result<i128, SoroError>)
        requires
            self.wf(),
            self@.streams.contains_key(stream_id) && !self@.streams[stream_id].is_cancelled
                ==> self@.streams[stream_id].vesting_fits(now),
        ensures
            r == self@.claimable_result(stream_id, now),
    {
        match self.streams.get(&stream_id) {
            Some(s) => {
                assert(s@ == self@.streams[stream_id]);
                if s.is_cancelled {
                    return Ok(0);
                }
                Ok(Self::compute_claimable(s, now))
            },
            None => Err(SoroError::StreamNotFound),
        }
    }

    /// Whether the vesting formula of stream `stream_id` can be evaluated at
    /// `now` without overflowing an `i128`. True when there is no such
    /// stream or it is cancelled: the formula is never evaluated for those.
    pub fn vesting_fits(&self, stream_id: u64, now: u64) -> (b: bool)
        requires
            self.wf(),
        ensures
            b == (self@.streams.contains_key(stream_id) && !self@.streams[stream_id].is_cancelled
                ==> self@.streams[stream_id].vesting_fits(now)),
    {
        match self.streams.get(&stream_id) {
            Some(s) => {
                assert(s@ == self@.streams[stream_id]);
                assert(self@.streams.contains_key(stream_id));
                if s.is_cancelled || now <= s.start_time {
                    return true;
                }
                let effective_now: u64 = if now < s.end_time {
                    now
                } else {
                    s.end_time
                };
                let elapsed: i128 = (effective_now - s.start_time) as i128;
                s.total_amount.checked_mul(elapsed).is_some()
            },
            None => true,
        }
    }

    /// Whether `initialize` has been called.
    pub fn is_initialized(&self) -> (b: bool)
        ensures
            b == self@.initialized,
    {
        self.initialized
    }

    /// The admin recorded by `initialize`.
    pub fn admin(&self) -> (r: Option<&Address>)
        ensures
            r matches Some(a) ==> self@.admin == Some(a@),
            r is None ==> self@.admin is None,
    {
        match &self.admin {
            Some(a) => Some(a),
            None => None,
        }
    }

    /// The id the next stream will receive.
    pub fn next_stream_id(&self) -> (r: u64)
        ensures
            r == self@.next_stream_id,
    {
        self.next_stream_id
    }

    /// Compute the claimable (vested but unclaimed) amount of a stream at
    /// ledger timestamp `now`: 0 before the start, otherwise
    /// `total_amount * (min(now, end_time) - start_time) / (end_time - start_time)`
    /// minus what was claimed, and never negative. It is meant for the
    /// contract's own streams, which are always well-formed, and at times
    /// where the product in the formula fits in an `i128`.
    pub fn compute_claimable(stream: &Stream, now: u64) -> (r: i128)
        requires
            stream@.well_formed(),
            stream@.vesting_fits(now),
        ensures
            r == stream@.claimable(now),
    {
        if now <= stream.start_time {
            return 0;
        }
        let effective_now: u64 = if now < stream.end_time {
            now
        } else {
            stream.end_time
        };
        let elapsed: i128 = (effective_now - stream.start_time) as i128;
        let duration: i128 = (stream.end_time - stream.start_time) as i128;
        proof {
            lemma_stream_vested_in_range(stream@, now);
        }
        let vested: i128 = stream.total_amount * elapsed / duration;
        let claimable: i128 = vested - stream.claimed_amount;
        if claimable > 0 {
            claimable
        } else {
            0
        }
    }
}

} // verus!
