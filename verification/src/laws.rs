use vstd::prelude::*;
use crate::error::SoroError;
use crate::stream::{StreamView, lemma_stream_vested_in_range};
use crate::effects::{
    DataKey, TransferView, EventView, ActionView, net_inflow, ordered_actions,
    auth_then_effects_then_interactions,
};
use crate::contract::{SoroStreamView, payout_if_positive};
use vstd::arithmetic::div_mod::lemma_div_is_ordered;
use vstd::arithmetic::mul::lemma_mul_inequality;

verus! {

// ── The shape of an operation's actions ─────────────────────────────────────

/// The net amount of `token` a sequence of transfers moves into the escrow.
pub open spec fn transfer_inflow(ts: Seq<TransferView>, token: Seq<u8>) -> int
    decreases ts.len(),
{
    if ts.len() == 0 {
        0
    } else {
        transfer_inflow(ts.drop_last(), token) + ts.last().inflow(token)
    }
}

proof fn lemma_net_inflow_concat(a: Seq<ActionView>, b: Seq<ActionView>, token: Seq<u8>)
    ensures
        net_inflow(a + b, token) == net_inflow(a, token) + net_inflow(b, token),
    decreases b.len(),
{
    if b.len() > 0 {
        lemma_net_inflow_concat(a, b.drop_last(), token);
        assert((a + b).drop_last() =~= a + b.drop_last());
    } else {
        assert(a + b =~= a);
    }
}

proof fn lemma_net_inflow_no_transfers(a: Seq<ActionView>, token: Seq<u8>)
    requires
        forall|i: int| 0 <= i < a.len() ==> !(#[trigger] a[i] is Transfer),
    ensures
        net_inflow(a, token) == 0,
    decreases a.len(),
{
    if a.len() > 0 {
        lemma_net_inflow_no_transfers(a.drop_last(), token);
        assert(!(a[a.len() - 1] is Transfer));
    }
}

proof fn lemma_net_inflow_of_transfers(ts: Seq<TransferView>, token: Seq<u8>)
    ensures
        net_inflow(ts.map_values(|t: TransferView| ActionView::Transfer(t)), token) == transfer_inflow(ts, token),
    decreases ts.len(),
{
    if ts.len() > 0 {
        lemma_net_inflow_of_transfers(ts.drop_last(), token);
        assert(ts.map_values(|t: TransferView| ActionView::Transfer(t)).drop_last()
            =~= ts.drop_last().map_values(|t: TransferView| ActionView::Transfer(t)));
    }
}

/// Actions laid out by `ordered_actions` carry out the signature first, then the
/// writes, then the transfers, then the event; they write exactly the keys
/// in `ws`; and they move exactly the transfers `ts` into the escrow.
pub proof fn lemma_ordered_actions(signer: Seq<u8>, ws: Seq<DataKey>, ts: Seq<TransferView>, e: EventView, token: Seq<u8>)
    requires
        ws.len() >= 1,
    ensures
        auth_then_effects_then_interactions(ordered_actions(signer, ws, ts, e), signer),
        forall|k: DataKey| #[trigger] ordered_actions(signer, ws, ts, e).contains(ActionView::Write(k)) <==> ws.contains(k),
        net_inflow(ordered_actions(signer, ws, ts, e), token) == transfer_inflow(ts, token),
{
    let a = seq![ActionView::RequireAuth(signer)];
    let w = ws.map_values(|k: DataKey| ActionView::Write(k));
    let t = ts.map_values(|t: TransferView| ActionView::Transfer(t));
    let p = seq![ActionView::Publish(e)];
    let all = ordered_actions(signer, ws, ts, e);
    assert(all =~= a + w + t + p);
    let n1 = 1 + ws.len();
    let n2 = n1 + ts.len();
    assert(all.len() == n2 + 1);
    assert forall|i: int| 0 <= i < all.len() implies {
        &&& (i == 0 ==> all[i] == ActionView::RequireAuth(signer))
        &&& (1 <= i < n1 ==> all[i] == ActionView::Write(ws[i - 1]))
        &&& (n1 <= i < n2 ==> all[i] == ActionView::Transfer(ts[i - n1]))
        &&& (i == n2 ==> all[i] == ActionView::Publish(e))
    } by {
        if i == 0 {
        } else if i < n1 {
            assert(all[i] == w[i - 1]);
        } else if i < n2 {
            assert(all[i] == t[i - n1]);
        } else {
            assert(all[i] == p[0]);
        }
    }
    assert forall|k: DataKey| #[trigger] all.contains(ActionView::Write(k)) <==> ws.contains(k) by {
        if ws.contains(k) {
            let j = choose|j: int| 0 <= j < ws.len() && ws[j] == k;
            assert(all[j + 1] == ActionView::Write(k));
        }
        if all.contains(ActionView::Write(k)) {
            let j = choose|j: int| 0 <= j < all.len() && all[j] == ActionView::Write(k);
            assert(ws[j - 1] == k);
        }
    }
    lemma_net_inflow_concat(a + w + t, p, token);
    lemma_net_inflow_concat(a + w, t, token);
    lemma_net_inflow_concat(a, w, token);
    lemma_net_inflow_no_transfers(a, token);
    lemma_net_inflow_no_transfers(w, token);
    lemma_net_inflow_no_transfers(p, token);
    lemma_net_inflow_of_transfers(ts, token);
}

/// The transfers of `ts` that move something other than `stream_token`
/// move nothing of `token` when `token` is another token.
proof fn lemma_transfer_inflow_other_token(ts: Seq<TransferView>, stream_token: Seq<u8>, token: Seq<u8>)
    requires
        stream_token != token,
        forall|i: int| 0 <= i < ts.len() ==> #[trigger] ts[i].token() == stream_token,
    ensures
        transfer_inflow(ts, token) == 0,
    decreases ts.len(),
{
    if ts.len() > 0 {
        lemma_transfer_inflow_other_token(ts.drop_last(), stream_token, token);
        assert(ts.last().token() == stream_token);
    }
}

proof fn lemma_transfer_inflow_concat(a: Seq<TransferView>, b: Seq<TransferView>, token: Seq<u8>)
    ensures
        transfer_inflow(a + b, token) == transfer_inflow(a, token) + transfer_inflow(b, token),
    decreases b.len(),
{
    if b.len() > 0 {
        lemma_transfer_inflow_concat(a, b.drop_last(), token);
        assert((a + b).drop_last() =~= a + b.drop_last());
    } else {
        assert(a + b =~= a);
    }
}

proof fn lemma_transfer_inflow_single(t: TransferView, token: Seq<u8>)
    ensures
        transfer_inflow(seq![t], token) == t.inflow(token),
{
    assert(seq![t].drop_last() =~= Seq::<TransferView>::empty());
    assert(transfer_inflow(Seq::<TransferView>::empty(), token) == 0);
    assert(seq![t].last() == t);
}

// ── The state is its storage entries ───────────────────────────────────────

/// Two states that hold the same entry under every storage key are the same
/// state: the entries `Init`, `Admin`, `NextStreamId` and `Stream(id)` are
/// all there is to the contract's state.
pub proof fn lemma_entries_determine_state(a: SoroStreamView, b: SoroStreamView)
    requires
        forall|k: DataKey| #[trigger] a.same_entry(b, k),
    ensures
        a == b,
{
    assert(a.same_entry(b, DataKey::Init));
    assert(a.same_entry(b, DataKey::Admin));
    assert(a.same_entry(b, DataKey::NextStreamId));
    assert forall|id: u64| #[trigger] a.streams.contains_key(id) == b.streams.contains_key(id) by {
        assert(a.same_entry(b, DataKey::Stream(id)));
    }
    assert forall|id: u64| a.streams.contains_key(id) implies #[trigger] a.streams[id] == b.streams[id] by {
        assert(a.same_entry(b, DataKey::Stream(id)));
    }
    assert(a.streams =~= b.streams);
}

/// Whether the stored streams of `pre` all survive into `post` with the
/// same terms (parties, token, amount, window), and with a claimed amount
/// that has not gone down.
pub open spec fn streams_persist(pre: SoroStreamView, post: SoroStreamView) -> bool {
    forall|k: u64| #[trigger]
        pre.streams.contains_key(k) ==> {
            &&& post.streams.contains_key(k)
            &&& post.streams[k].id == pre.streams[k].id
            &&& post.streams[k].sender == pre.streams[k].sender
            &&& post.streams[k].recipient == pre.streams[k].recipient
            &&& post.streams[k].token == pre.streams[k].token
            &&& post.streams[k].total_amount == pre.streams[k].total_amount
            &&& post.streams[k].start_time == pre.streams[k].start_time
            &&& post.streams[k].end_time == pre.streams[k].end_time
            &&& post.streams[k].claimed_amount >= pre.streams[k].claimed_amount
            &&& pre.streams[k].is_cancelled ==> post.streams[k] == pre.streams[k]
        }
}

/// What the escrow holds for stream `id` in state `s` (0 when there is no
/// such stream).
pub open spec fn escrowed_at(s: SoroStreamView, id: u64) -> int {
    if s.streams.contains_key(id) {
        s.streams[id].escrowed()
    } else {
        0
    }
}

// ── Vesting ───────────────────────────────────────────────────────────────

/// The vested amount never goes down as time passes.
pub proof fn lemma_vested_monotone(s: StreamView, t1: u64, t2: u64)
    requires
        s.well_formed(),
        t1 <= t2,
    ensures
        s.vested(t1) <= s.vested(t2),
{
    assert(s.elapsed(t1) <= s.elapsed(t2));
    lemma_mul_inequality(s.elapsed(t1), s.elapsed(t2), s.total_amount as int);
    assert(s.elapsed(t1) * s.total_amount == s.total_amount * s.elapsed(t1)) by (nonlinear_arith);
    assert(s.elapsed(t2) * s.total_amount == s.total_amount * s.elapsed(t2)) by (nonlinear_arith);
    lemma_div_is_ordered(s.total_amount * s.elapsed(t1), s.total_amount * s.elapsed(t2), s.duration());
}

/// Nothing is vested, and nothing is claimable, until the stream starts.
pub proof fn lemma_nothing_before_start(s: StreamView, now: u64)
    requires
        s.well_formed(),
        now <= s.start_time,
    ensures
        s.vested(now) == 0,
        s.claimable(now) == 0,
{
}

/// From the end time on, the whole amount is vested and everything not yet
/// claimed is claimable.
pub proof fn lemma_fully_vested_from_end(s: StreamView, now: u64)
    requires
        s.well_formed(),
        s.end_time <= now,
    ensures
        s.vested(now) == s.total_amount,
        s.claimable(now) == s.total_amount - s.claimed_amount,
{
    assert(s.total_amount * s.duration() / s.duration() == s.total_amount as int) by (nonlinear_arith)
        requires
            s.duration() > 0,
    ;
}

/// The vested amount is the linear share of the total, rounded down: at a
/// time `elapsed` seconds into a window of `duration` seconds,
/// `vested * duration <= total * elapsed < (vested + 1) * duration`.
pub proof fn lemma_vested_is_linear_share(s: StreamView, now: u64)
    requires
        s.well_formed(),
    ensures
        s.vested(now) * s.duration() <= s.total_amount * s.elapsed(now),
        s.total_amount * s.elapsed(now) < (s.vested(now) + 1) * s.duration(),
{
    let x = s.total_amount * s.elapsed(now);
    let d = s.duration();
    assert(d > 0);
    assert((x / d) * d <= x && x < (x / d + 1) * d) by (nonlinear_arith)
        requires
            d > 0,
    ;
}

// ── initialize ──────────────────────────────────────────────────────────

/// `initialize` succeeds exactly once: after it succeeded, every further
/// call is refused with `AlreadyInitialized` and changes nothing.
pub proof fn lemma_initialize_only_once(s: SoroStreamView, admin: Seq<u8>, other: Seq<u8>)
    requires
        s.initialize_result(admin) is Ok,
    ensures
        s.initialize_result(admin)->Ok_0.initialize_result(other) == Err::<SoroStreamView, SoroError>(
            SoroError::AlreadyInitialized,
        ),
        s.initialize_result(admin)->Ok_0.admin == Some(admin),
        s.initialize_result(admin)->Ok_0.next_stream_id == 0,
{
}

/// `initialize` keeps the state well-formed and changes only the entries
/// its effects report.
pub proof fn lemma_initialize_frame(s: SoroStreamView, admin: Seq<u8>)
    requires
        s.well_formed(),
        s.initialize_result(admin) is Ok,
    ensures
        s.initialize_result(admin)->Ok_0.well_formed(),
        auth_then_effects_then_interactions(SoroStreamView::initialize_effects(admin).actions, admin),
        forall|k: DataKey|
            !SoroStreamView::initialize_effects(admin).actions.contains(ActionView::Write(k))
                ==> #[trigger] s.same_entry(s.initialize_result(admin)->Ok_0, k),
        streams_persist(s, s.initialize_result(admin)->Ok_0),
{
    let post = s.initialize_result(admin)->Ok_0;
    let w = seq![DataKey::Init, DataKey::Admin, DataKey::NextStreamId];
    lemma_ordered_actions(admin, w, Seq::empty(), EventView::ProtocolInitialized { admin }, admin);
    assert forall|k: DataKey|
        !SoroStreamView::initialize_effects(admin).actions.contains(ActionView::Write(k)) implies #[trigger] s.same_entry(post, k) by {
        assert(w[0] == DataKey::Init && w[1] == DataKey::Admin && w[2] == DataKey::NextStreamId);
    }
}


// ── create_stream ───────────────────────────────────────────────────────

/// A stream that `create_stream` stores is found under the returned id with
/// exactly the terms it was given, nothing claimed and not cancelled; the
/// id is the counter's old value and the counter moves on by one. The
/// state stays well-formed, the other streams are untouched, and only the
/// reported entries change.
pub proof fn lemma_create_then_get(
    s: SoroStreamView,
    sender: Seq<u8>,
    recipient: Seq<u8>,
    token: Seq<u8>,
    amount: i128,
    start_time: u64,
    end_time: u64,
    now: u64,
)
    requires
        s.well_formed(),
        s.next_stream_id < u64::MAX,
        s.create_result(sender, recipient, token, amount, start_time, end_time, now) is Ok,
    ensures
        ({
            let (post, id) = s.create_result(sender, recipient, token, amount, start_time, end_time, now)->Ok_0;
            &&& id == s.next_stream_id
            &&& post.next_stream_id == id + 1
            &&& !s.streams.contains_key(id)
            &&& post.streams.contains_key(id)
            &&& post.streams[id] == StreamView {
                id,
                sender,
                recipient,
                token,
                total_amount: amount,
                claimed_amount: 0,
                start_time,
                end_time,
                is_cancelled: false,
            }
            &&& post.well_formed()
            &&& streams_persist(s, post)
            &&& forall|k: u64| k != id ==> #[trigger] s.same_entry(post, DataKey::Stream(k))
            &&& auth_then_effects_then_interactions(
                s.create_effects(sender, recipient, token, amount, start_time, end_time).actions,
                sender,
            )
            &&& forall|k: DataKey|
                !s.create_effects(sender, recipient, token, amount, start_time, end_time).actions.contains(
                    ActionView::Write(k),
                ) ==> #[trigger] s.same_entry(post, k)
        }),
{
    let (post, id) = s.create_result(sender, recipient, token, amount, start_time, end_time, now)->Ok_0;
    let w = seq![DataKey::Stream(id), DataKey::NextStreamId];
    lemma_ordered_actions(
        sender,
        w,
        seq![TransferView::Deposit { token, from: sender, amount }],
        EventView::StreamCreated { stream_id: id, sender, recipient, token, amount, start_time, end_time },
        token,
    );
    assert(w[0] == DataKey::Stream(id) && w[1] == DataKey::NextStreamId);
    assert forall|k: DataKey| !w.contains(k) implies #[trigger] s.same_entry(post, k) by {
        match k {
            DataKey::Stream(j) => {
                if j == id {
                    assert(w.contains(DataKey::Stream(id)));
                }
            },
            DataKey::NextStreamId => {
                assert(w.contains(DataKey::NextStreamId));
            },
            _ => {},
        }
    }
    assert forall|k: u64| #[trigger] post.streams.contains_key(k) implies {
        &&& post.streams[k].id == k
        &&& k < post.next_stream_id
        &&& post.streams[k].well_formed()
    } by {
        if k != id {
            assert(s.streams.contains_key(k));
        }
    }
}

/// Streams created one after the other receive consecutive ids, so no two
/// streams ever share an id.
pub proof fn lemma_successive_ids(
    s: SoroStreamView,
    sender: Seq<u8>,
    recipient: Seq<u8>,
    token: Seq<u8>,
    amount: i128,
    start_time: u64,
    end_time: u64,
    now: u64,
    sender2: Seq<u8>,
    recipient2: Seq<u8>,
    token2: Seq<u8>,
    amount2: i128,
    start_time2: u64,
    end_time2: u64,
    now2: u64,
)
    requires
        s.well_formed(),
        s.next_stream_id + 1 < u64::MAX,
        s.create_result(sender, recipient, token, amount, start_time, end_time, now) is Ok,
        s.create_result(sender, recipient, token, amount, start_time, end_time, now)->Ok_0.0.create_result(
            sender2,
            recipient2,
            token2,
            amount2,
            start_time2,
            end_time2,
            now2,
        ) is Ok,
    ensures
        ({
            let (mid, id1) = s.create_result(sender, recipient, token, amount, start_time, end_time, now)->Ok_0;
            let (post, id2) = mid.create_result(
                sender2,
                recipient2,
                token2,
                amount2,
                start_time2,
                end_time2,
                now2,
            )->Ok_0;
            &&& id2 == id1 + 1
            &&& post.streams.contains_key(id1)
            &&& post.streams[id1] == mid.streams[id1]
        }),
{
}

/// `create_stream` puts exactly the deposited amount into escrow: the
/// escrow of the new stream equals the net inflow of the effects' transfers.
pub proof fn lemma_create_escrow(
    s: SoroStreamView,
    sender: Seq<u8>,
    recipient: Seq<u8>,
    token: Seq<u8>,
    amount: i128,
    start_time: u64,
    end_time: u64,
    now: u64,
)
    requires
        s.well_formed(),
        s.next_stream_id < u64::MAX,
        s.create_result(sender, recipient, token, amount, start_time, end_time, now) is Ok,
    ensures
        ({
            let (post, id) = s.create_result(sender, recipient, token, amount, start_time, end_time, now)->Ok_0;
            escrowed_at(post, id) - escrowed_at(s, id) == net_inflow(
                s.create_effects(sender, recipient, token, amount, start_time, end_time).actions,
                token,
            )
        }),
{
    let id = s.next_stream_id;
    let t = TransferView::Deposit { token, from: sender, amount };
    lemma_ordered_actions(
        sender,
        seq![DataKey::Stream(id), DataKey::NextStreamId],
        seq![t],
        EventView::StreamCreated { stream_id: id, sender, recipient, token, amount, start_time, end_time },
        token,
    );
    lemma_transfer_inflow_single(t, token);
    assert(!s.streams.contains_key(s.next_stream_id));
}


// ── claim_stream ────────────────────────────────────────────────────────

/// A successful claim pays a positive amount, exactly the vested amount at
/// `now` minus what was claimed before, so that afterwards the claimed
/// amount equals the vested amount and never exceeds the total. The
/// escrow of the stream goes down by exactly the amount paid out; the
/// state stays well-formed, streams persist, and only the reported entry
/// changes.
pub proof fn lemma_claim_accounting(s: SoroStreamView, stream_id: u64, recipient: Seq<u8>, now: u64)
    requires
        s.well_formed(),
        s.claim_result(stream_id, recipient, now) is Ok,
    ensures
        ({
            let (post, amount) = s.claim_result(stream_id, recipient, now)->Ok_0;
            let pre_s = s.streams[stream_id];
            &&& 0 < amount
            &&& amount == pre_s.vested(now) - pre_s.claimed_amount
            &&& post.streams[stream_id].claimed_amount == pre_s.vested(now)
            &&& post.streams[stream_id].claimed_amount <= post.streams[stream_id].total_amount
            &&& post.well_formed()
            &&& streams_persist(s, post)
            &&& escrowed_at(post, stream_id) - escrowed_at(s, stream_id) == net_inflow(
                s.claim_effects(stream_id, recipient, amount).actions,
                pre_s.token,
            )
            &&& recipient == pre_s.recipient
            &&& auth_then_effects_then_interactions(s.claim_effects(stream_id, recipient, amount).actions, recipient)
            &&& forall|k: DataKey|
                !s.claim_effects(stream_id, recipient, amount).actions.contains(ActionView::Write(k))
                    ==> #[trigger] s.same_entry(post, k)
        }),
{
    let (post, amount) = s.claim_result(stream_id, recipient, now)->Ok_0;
    let pre_s = s.streams[stream_id];
    lemma_stream_vested_in_range(pre_s, now);
    let w = seq![DataKey::Stream(stream_id)];
    let t = TransferView::Payout { token: pre_s.token, to: recipient, amount };
    lemma_ordered_actions(recipient, w, seq![t], EventView::StreamClaimed { stream_id, recipient, amount }, pre_s.token);
    lemma_transfer_inflow_single(t, pre_s.token);
    assert forall|k: DataKey| !w.contains(k) implies #[trigger] s.same_entry(post, k) by {
        if k == DataKey::Stream(stream_id) {
            assert(w[0] == k);
        }
    }
    assert forall|k: u64| #[trigger] post.streams.contains_key(k) implies {
        &&& post.streams[k].id == k
        &&& k < post.next_stream_id
        &&& post.streams[k].well_formed()
    } by {
        assert(s.streams.contains_key(k));
    }
    assert(streams_persist(s, post)) by {
        assert forall|k: u64| #[trigger] s.streams.contains_key(k) implies post.streams.contains_key(k) by {}
    }
}

/// No double claim: right after a successful claim at `now`, claiming
/// again at `now` or at any earlier time is refused with `NothingToClaim`
/// and pays nothing.
pub proof fn lemma_no_double_claim(
    s: SoroStreamView,
    stream_id: u64,
    recipient: Seq<u8>,
    now: u64,
    again: u64,
)
    requires
        s.well_formed(),
        s.claim_result(stream_id, recipient, now) is Ok,
        again <= now,
    ensures
        s.claim_result(stream_id, recipient, now)->Ok_0.0.claim_result(stream_id, recipient, again)
            == Err::<(SoroStreamView, i128), SoroError>(SoroError::NothingToClaim),
{
    lemma_claim_accounting(s, stream_id, recipient, now);
    let post = s.claim_result(stream_id, recipient, now)->Ok_0.0;
    let ps = post.streams[stream_id];
    lemma_vested_monotone(ps, again, now);
    assert(ps.vested(again) == s.streams[stream_id].vested(again));
    assert(ps.vested(now) == s.streams[stream_id].vested(now));
}

/// The read-only query predicts a claim: where the recipient may claim at
/// all, `claimable_amount` at `now` returns what `claim_stream` at `now`
/// would pay, and a claim is refused with `NothingToClaim` exactly when
/// the query returns 0.
pub proof fn lemma_query_predicts_claim(s: SoroStreamView, stream_id: u64, recipient: Seq<u8>, now: u64)
    requires
        s.well_formed(),
        s.claim_reaches_vesting(stream_id, recipient),
    ensures
        s.claimable_result(stream_id, now) is Ok,
        s.claimable_result(stream_id, now)->Ok_0 == 0 ==> s.claim_result(stream_id, recipient, now)
            == Err::<(SoroStreamView, i128), SoroError>(SoroError::NothingToClaim),
        s.claimable_result(stream_id, now)->Ok_0 > 0 ==> (s.claim_result(stream_id, recipient, now) is Ok
            && s.claim_result(stream_id, recipient, now)->Ok_0.1 == s.claimable_result(stream_id, now)->Ok_0),
{
    assert(s.streams.contains_key(stream_id));
    lemma_stream_vested_in_range(s.streams[stream_id], now);
}

/// A claim reads nothing but the entry of its own stream: two states that
/// hold the same entry under `Stream(stream_id)` give the same outcome, and
/// leave the same entry there.
pub proof fn lemma_claim_reads_only_its_stream(
    a: SoroStreamView,
    b: SoroStreamView,
    stream_id: u64,
    recipient: Seq<u8>,
    now: u64,
)
    requires
        a.same_entry(b, DataKey::Stream(stream_id)),
    ensures
        a.claim_result(stream_id, recipient, now) is Ok <==> b.claim_result(stream_id, recipient, now) is Ok,
        a.claim_result(stream_id, recipient, now) is Err ==> a.claim_result(stream_id, recipient, now)
            == b.claim_result(stream_id, recipient, now),
        a.claim_result(stream_id, recipient, now) is Ok ==> {
            let (pa, ca) = a.claim_result(stream_id, recipient, now)->Ok_0;
            let (pb, cb) = b.claim_result(stream_id, recipient, now)->Ok_0;
            &&& ca == cb
            &&& pa.same_entry(pb, DataKey::Stream(stream_id))
            &&& a.claim_effects(stream_id, recipient, ca) == b.claim_effects(stream_id, recipient, cb)
        },
{
}


// ── cancel_stream ───────────────────────────────────────────────────────

/// A successful cancel settles the stream: the recipient's part is what is
/// claimable at `now`, the sender's refund is the rest of the unclaimed
/// amount, both are non-negative and together they are exactly what was
/// still unclaimed. The escrow of the stream drops to zero by exactly the
/// amount paid out. Cancelled before the start the sender gets everything
/// unclaimed back; cancelled from the end on the recipient gets it all. The
/// state stays well-formed, streams persist, and only the reported entry
/// changes.
pub proof fn lemma_cancel_settlement(s: SoroStreamView, stream_id: u64, sender: Seq<u8>, now: u64)
    requires
        s.well_formed(),
        s.cancel_result(stream_id, sender, now) is Ok,
    ensures
        ({
            let (post, rc, refund) = s.cancel_result(stream_id, sender, now)->Ok_0;
            let pre_s = s.streams[stream_id];
            &&& rc == pre_s.claimable(now)
            &&& 0 <= rc
            &&& 0 <= refund
            &&& rc + refund == pre_s.total_amount - pre_s.claimed_amount
            &&& now <= pre_s.start_time ==> rc == 0
            &&& pre_s.end_time <= now ==> refund == 0
            &&& post.streams[stream_id].is_cancelled
            &&& post.streams[stream_id].claimed_amount == pre_s.claimed_amount + rc
            &&& post.well_formed()
            &&& streams_persist(s, post)
            &&& escrowed_at(post, stream_id) == 0
            &&& escrowed_at(post, stream_id) - escrowed_at(s, stream_id) == net_inflow(
                s.cancel_effects(stream_id, rc, refund).actions,
                pre_s.token,
            )
            &&& sender == pre_s.sender
            &&& auth_then_effects_then_interactions(s.cancel_effects(stream_id, rc, refund).actions, sender)
            &&& forall|k: DataKey|
                !s.cancel_effects(stream_id, rc, refund).actions.contains(ActionView::Write(k))
                    ==> #[trigger] s.same_entry(post, k)
        }),
{
    let (post, rc, refund) = s.cancel_result(stream_id, sender, now)->Ok_0;
    let pre_s = s.streams[stream_id];
    lemma_stream_vested_in_range(pre_s, now);
    if pre_s.end_time <= now {
        lemma_fully_vested_from_end(pre_s, now);
    }
    let w = seq![DataKey::Stream(stream_id)];
    let a = payout_if_positive(pre_s.token, pre_s.recipient, rc as int);
    let b = payout_if_positive(pre_s.token, pre_s.sender, refund as int);
    lemma_ordered_actions(
        pre_s.sender,
        w,
        a + b,
        EventView::StreamCancelled { stream_id, sender_refund: refund, recipient_claimable: rc },
        pre_s.token,
    );
    assert forall|k: DataKey| !w.contains(k) implies #[trigger] s.same_entry(post, k) by {
        if k == DataKey::Stream(stream_id) {
            assert(w[0] == k);
        }
    }
    assert forall|k: u64| #[trigger] post.streams.contains_key(k) implies {
        &&& post.streams[k].id == k
        &&& k < post.next_stream_id
        &&& post.streams[k].well_formed()
    } by {
        assert(s.streams.contains_key(k));
    }
    assert(streams_persist(s, post)) by {
        assert forall|k: u64| #[trigger] s.streams.contains_key(k) implies post.streams.contains_key(k) by {}
    }
    lemma_transfer_inflow_concat(a, b, pre_s.token);
    if rc > 0 {
        lemma_transfer_inflow_single(a[0], pre_s.token);
        assert(a =~= seq![a[0]]);
    }
    if refund > 0 {
        lemma_transfer_inflow_single(b[0], pre_s.token);
        assert(b =~= seq![b[0]]);
    }
}

/// Cancel is final: once a stream is cancelled, every later claim and
/// every later cancel of it is refused, whoever calls and whenever; its own
/// recipient and sender are told `StreamEnded`.
pub proof fn lemma_cancel_is_final(
    s: SoroStreamView,
    stream_id: u64,
    sender: Seq<u8>,
    now: u64,
    who: Seq<u8>,
    later: u64,
)
    requires
        s.cancel_result(stream_id, sender, now) is Ok,
    ensures
        ({
            let post = s.cancel_result(stream_id, sender, now)->Ok_0.0;
            &&& post.claim_result(stream_id, who, later) is Err
            &&& post.cancel_result(stream_id, who, later) is Err
            &&& post.claim_result(stream_id, s.streams[stream_id].recipient, later)
                == Err::<(SoroStreamView, i128), SoroError>(SoroError::StreamEnded)
            &&& post.cancel_result(stream_id, sender, later)
                == Err::<(SoroStreamView, i128, i128), SoroError>(SoroError::StreamEnded)
        }),
{
    let post = s.cancel_result(stream_id, sender, now)->Ok_0.0;
    assert(post.streams.contains_key(stream_id));
}

/// A cancel reads nothing but the entry of its own stream: two states that
/// hold the same entry under `Stream(stream_id)` give the same outcome, and
/// leave the same entry there.
pub proof fn lemma_cancel_reads_only_its_stream(
    a: SoroStreamView,
    b: SoroStreamView,
    stream_id: u64,
    sender: Seq<u8>,
    now: u64,
)
    requires
        a.same_entry(b, DataKey::Stream(stream_id)),
    ensures
        a.cancel_result(stream_id, sender, now) is Ok <==> b.cancel_result(stream_id, sender, now) is Ok,
        a.cancel_result(stream_id, sender, now) is Err ==> a.cancel_result(stream_id, sender, now)
            == b.cancel_result(stream_id, sender, now),
        a.cancel_result(stream_id, sender, now) is Ok ==> {
            let (pa, ra, fa) = a.cancel_result(stream_id, sender, now)->Ok_0;
            let (pb, rb, fb) = b.cancel_result(stream_id, sender, now)->Ok_0;
            &&& ra == rb
            &&& fa == fb
            &&& pa.same_entry(pb, DataKey::Stream(stream_id))
            &&& a.cancel_effects(stream_id, ra, fa) == b.cancel_effects(stream_id, rb, fb)
        },
{
}

/// `create_stream` reads nothing but the entries `Init` and
/// `NextStreamId`: two states that agree on them give the same outcome
/// and the same id, and leave the same entries under `Stream(id)` and
/// `NextStreamId`.
pub proof fn lemma_create_reads_only_counter(
    a: SoroStreamView,
    b: SoroStreamView,
    sender: Seq<u8>,
    recipient: Seq<u8>,
    token: Seq<u8>,
    amount: i128,
    start_time: u64,
    end_time: u64,
    now: u64,
)
    requires
        a.same_entry(b, DataKey::Init),
        a.same_entry(b, DataKey::NextStreamId),
    ensures
        a.create_result(sender, recipient, token, amount, start_time, end_time, now) is Ok
            <==> b.create_result(sender, recipient, token, amount, start_time, end_time, now) is Ok,
        a.create_result(sender, recipient, token, amount, start_time, end_time, now) is Err
            ==> a.create_result(sender, recipient, token, amount, start_time, end_time, now)
            == b.create_result(sender, recipient, token, amount, start_time, end_time, now),
        a.create_result(sender, recipient, token, amount, start_time, end_time, now) is Ok ==> {
            let (pa, ia) = a.create_result(sender, recipient, token, amount, start_time, end_time, now)->Ok_0;
            let (pb, ib) = b.create_result(sender, recipient, token, amount, start_time, end_time, now)->Ok_0;
            &&& ia == ib
            &&& pa.same_entry(pb, DataKey::Stream(ia))
            &&& pa.same_entry(pb, DataKey::NextStreamId)
            &&& a.create_effects(sender, recipient, token, amount, start_time, end_time)
                == b.create_effects(sender, recipient, token, amount, start_time, end_time)
        },
{
}

/// `initialize` reads nothing but the entry `Init`.
pub proof fn lemma_initialize_reads_only_flag(a: SoroStreamView, b: SoroStreamView, admin: Seq<u8>)
    requires
        a.same_entry(b, DataKey::Init),
    ensures
        a.initialize_result(admin) is Ok <==> b.initialize_result(admin) is Ok,
        a.initialize_result(admin) is Err ==> a.initialize_result(admin) == b.initialize_result(admin),
        a.initialize_result(admin) is Ok ==> {
            let pa = a.initialize_result(admin)->Ok_0;
            let pb = b.initialize_result(admin)->Ok_0;
            &&& pa.same_entry(pb, DataKey::Init)
            &&& pa.same_entry(pb, DataKey::Admin)
            &&& pa.same_entry(pb, DataKey::NextStreamId)
        },
{
}


// ── The escrow per token ────────────────────────────────────────────────

/// What the escrow holds for stream `id` in `token` (0 when there is no
/// such stream or it streams another token).
pub open spec fn token_escrow_at(s: SoroStreamView, id: u64, token: Seq<u8>) -> int {
    if s.streams.contains_key(id) && s.streams[id].token == token {
        s.streams[id].escrowed()
    } else {
        0
    }
}

/// What the escrow holds in `token` for the streams with ids below `n`.
pub open spec fn escrow_below(s: SoroStreamView, token: Seq<u8>, n: nat) -> int
    decreases n,
{
    if n == 0 {
        0
    } else {
        escrow_below(s, token, (n - 1) as nat) + token_escrow_at(s, (n - 1) as u64, token)
    }
}

/// What the escrow owes in `token` over all streams: the sum, over the
/// active streams of that token, of their unclaimed amounts.
pub open spec fn escrow_total(s: SoroStreamView, token: Seq<u8>) -> int {
    escrow_below(s, token, s.next_stream_id as nat)
}

proof fn lemma_escrow_below_one_change(a: SoroStreamView, b: SoroStreamView, token: Seq<u8>, k: u64, n: nat)
    requires
        n <= u64::MAX + 1,
        forall|j: u64| j != k ==> #[trigger] token_escrow_at(a, j, token) == token_escrow_at(b, j, token),
    ensures
        escrow_below(b, token, n) - escrow_below(a, token, n) == if k < n {
            token_escrow_at(b, k, token) - token_escrow_at(a, k, token)
        } else {
            0
        },
    decreases n,
{
    if n > 0 {
        lemma_escrow_below_one_change(a, b, token, k, (n - 1) as nat);
        let j = (n - 1) as u64;
        assert(token_escrow_at(a, j, token) == token_escrow_at(b, j, token) || j == k);
    }
}

proof fn lemma_escrow_below_empty(s: SoroStreamView, token: Seq<u8>, n: nat)
    requires
        s.streams =~= Map::<u64, StreamView>::empty(),
    ensures
        escrow_below(s, token, n) == 0,
    decreases n,
{
    if n > 0 {
        lemma_escrow_below_empty(s, token, (n - 1) as nat);
    }
}


/// `initialize` owes nothing to anyone and moves no tokens.
pub proof fn lemma_initialize_escrow_total(s: SoroStreamView, admin: Seq<u8>, token: Seq<u8>)
    requires
        s.well_formed(),
        s.initialize_result(admin) is Ok,
    ensures
        escrow_total(s.initialize_result(admin)->Ok_0, token) == 0,
        escrow_total(s, token) == 0,
        net_inflow(SoroStreamView::initialize_effects(admin).actions, token) == 0,
{
    lemma_ordered_actions(
        admin,
        seq![DataKey::Init, DataKey::Admin, DataKey::NextStreamId],
        Seq::empty(),
        EventView::ProtocolInitialized { admin },
        token,
    );
    lemma_escrow_below_empty(s, token, s.next_stream_id as nat);
    lemma_escrow_below_empty(s.initialize_result(admin)->Ok_0, token, 0);
}

/// Token balance: for every token, what the escrow owes over all streams
/// changes under `create_stream` by exactly the net amount of that token
/// its transfers move into the contract.
pub proof fn lemma_create_escrow_total(
    s: SoroStreamView,
    sender: Seq<u8>,
    recipient: Seq<u8>,
    token: Seq<u8>,
    amount: i128,
    start_time: u64,
    end_time: u64,
    now: u64,
    any_token: Seq<u8>,
)
    requires
        s.well_formed(),
        s.next_stream_id < u64::MAX,
        s.create_result(sender, recipient, token, amount, start_time, end_time, now) is Ok,
    ensures
        escrow_total(s.create_result(sender, recipient, token, amount, start_time, end_time, now)->Ok_0.0, any_token)
            - escrow_total(s, any_token) == net_inflow(
            s.create_effects(sender, recipient, token, amount, start_time, end_time).actions,
            any_token,
        ),
{
    let (post, id) = s.create_result(sender, recipient, token, amount, start_time, end_time, now)->Ok_0;
    lemma_create_then_get(s, sender, recipient, token, amount, start_time, end_time, now);
    lemma_create_escrow(s, sender, recipient, token, amount, start_time, end_time, now);
    assert forall|j: u64| j != id implies #[trigger] token_escrow_at(s, j, any_token) == token_escrow_at(post, j, any_token) by {
        assert(s.same_entry(post, DataKey::Stream(j)));
    }
    lemma_escrow_below_one_change(s, post, any_token, id, id as nat);
    assert(escrow_below(post, any_token, (id + 1) as nat) == escrow_below(post, any_token, id as nat)
        + token_escrow_at(post, id, any_token));
    let ts = seq![TransferView::Deposit { token, from: sender, amount }];
    lemma_ordered_actions(
        sender,
        seq![DataKey::Stream(id), DataKey::NextStreamId],
        ts,
        EventView::StreamCreated { stream_id: id, sender, recipient, token, amount, start_time, end_time },
        any_token,
    );
    if token != any_token {
        lemma_transfer_inflow_other_token(ts, token, any_token);
    }
}

/// Token balance: for every token, what the escrow owes over all streams
/// changes under `claim_stream` by exactly the net amount of that token its
/// transfers move into the contract (the claimed amount going out).
pub proof fn lemma_claim_escrow_total(
    s: SoroStreamView,
    stream_id: u64,
    recipient: Seq<u8>,
    now: u64,
    any_token: Seq<u8>,
)
    requires
        s.well_formed(),
        s.claim_result(stream_id, recipient, now) is Ok,
    ensures
        ({
            let (post, amount) = s.claim_result(stream_id, recipient, now)->Ok_0;
            escrow_total(post, any_token) - escrow_total(s, any_token) == net_inflow(
                s.claim_effects(stream_id, recipient, amount).actions,
                any_token,
            )
        }),
{
    let (post, amount) = s.claim_result(stream_id, recipient, now)->Ok_0;
    lemma_claim_accounting(s, stream_id, recipient, now);
    assert forall|j: u64| j != stream_id implies #[trigger] token_escrow_at(s, j, any_token) == token_escrow_at(post, j, any_token) by {
        assert(s.same_entry(post, DataKey::Stream(j)));
    }
    assert(s.streams.contains_key(stream_id));
    lemma_escrow_below_one_change(s, post, any_token, stream_id, s.next_stream_id as nat);
    let tok = s.streams[stream_id].token;
    let ts = seq![TransferView::Payout { token: tok, to: recipient, amount }];
    lemma_ordered_actions(
        recipient,
        seq![DataKey::Stream(stream_id)],
        ts,
        EventView::StreamClaimed { stream_id, recipient, amount },
        any_token,
    );
    if tok != any_token {
        lemma_transfer_inflow_other_token(ts, tok, any_token);
    }
}

/// Token balance: for every token, what the escrow owes over all streams
/// changes under `cancel_stream` by exactly the net amount of that token
/// its transfers move into the contract (the recipient's part and the
/// refund going out).
pub proof fn lemma_cancel_escrow_total(
    s: SoroStreamView,
    stream_id: u64,
    sender: Seq<u8>,
    now: u64,
    any_token: Seq<u8>,
)
    requires
        s.well_formed(),
        s.cancel_result(stream_id, sender, now) is Ok,
    ensures
        ({
            let (post, rc, refund) = s.cancel_result(stream_id, sender, now)->Ok_0;
            escrow_total(post, any_token) - escrow_total(s, any_token) == net_inflow(
                s.cancel_effects(stream_id, rc, refund).actions,
                any_token,
            )
        }),
{
    let (post, rc, refund) = s.cancel_result(stream_id, sender, now)->Ok_0;
    lemma_cancel_settlement(s, stream_id, sender, now);
    assert forall|j: u64| j != stream_id implies #[trigger] token_escrow_at(s, j, any_token) == token_escrow_at(post, j, any_token) by {
        assert(s.same_entry(post, DataKey::Stream(j)));
    }
    assert(s.streams.contains_key(stream_id));
    lemma_escrow_below_one_change(s, post, any_token, stream_id, s.next_stream_id as nat);
    let tok = s.streams[stream_id].token;
    let a = payout_if_positive(tok, s.streams[stream_id].recipient, rc as int);
    let b = payout_if_positive(tok, s.streams[stream_id].sender, refund as int);
    let ts = a + b;
    lemma_ordered_actions(
        s.streams[stream_id].sender,
        seq![DataKey::Stream(stream_id)],
        ts,
        EventView::StreamCancelled { stream_id, sender_refund: refund, recipient_claimable: rc },
        any_token,
    );
    if tok != any_token {
        assert forall|i: int| 0 <= i < ts.len() implies #[trigger] ts[i].token() == tok by {
            if i < a.len() {
                assert(ts[i] == a[i]);
            } else {
                assert(ts[i] == b[i - a.len()]);
            }
        }
        lemma_transfer_inflow_other_token(ts, tok, any_token);
    }
}



/// The queries `get_stream` and `claimable_amount` read nothing but the
/// entry of their own stream.
pub proof fn lemma_queries_read_only_their_stream(a: SoroStreamView, b: SoroStreamView, stream_id: u64, now: u64)
    requires
        a.same_entry(b, DataKey::Stream(stream_id)),
    ensures
        a.streams.contains_key(stream_id) == b.streams.contains_key(stream_id),
        a.streams.contains_key(stream_id) ==> a.streams[stream_id] == b.streams[stream_id],
        a.claimable_result(stream_id, now) == b.claimable_result(stream_id, now),
{
}


// ── Any sequence of calls ───────────────────────────────────────────────

/// A state-changing call of the contract, with the ledger time it runs at.
/// (`get_stream` and `claimable_amount` only read.)
pub enum Call {
    Initialize { admin: Seq<u8> },
    CreateStream {
        sender: Seq<u8>,
        recipient: Seq<u8>,
        token: Seq<u8>,
        amount: i128,
        start_time: u64,
        end_time: u64,
        now: u64,
    },
    ClaimStream { stream_id: u64, recipient: Seq<u8>, now: u64 },
    CancelStream { stream_id: u64, sender: Seq<u8>, now: u64 },
}

/// The state after `call` when it goes through; `None` when the call
/// aborts, leaving the state as it was: when it is refused, and when its
/// arithmetic would overflow (a new id past `u64::MAX`, or a vesting
/// product past `i128::MAX`).
pub open spec fn apply(s: SoroStreamView, call: Call) -> Option<SoroStreamView> {
    match call {
        Call::Initialize { admin } => match s.initialize_result(admin) {
            Ok(t) => Some(t),
            Err(_) => None,
        },
        Call::CreateStream { sender, recipient, token, amount, start_time, end_time, now } => {
            if s.create_error(amount, start_time, end_time, now) is None && s.next_stream_id == u64::MAX {
                None
            } else {
                match s.create_result(sender, recipient, token, amount, start_time, end_time, now) {
                    Ok((t, _)) => Some(t),
                    Err(_) => None,
                }
            }
        },
        Call::ClaimStream { stream_id, recipient, now } => {
            if s.claim_reaches_vesting(stream_id, recipient) && !s.streams[stream_id].vesting_fits(now) {
                None
            } else {
                match s.claim_result(stream_id, recipient, now) {
                    Ok((t, _)) => Some(t),
                    Err(_) => None,
                }
            }
        },
        Call::CancelStream { stream_id, sender, now } => {
            if s.cancel_reaches_vesting(stream_id, sender) && !s.streams[stream_id].vesting_fits(now) {
                None
            } else {
                match s.cancel_result(stream_id, sender, now) {
                    Ok((t, _, _)) => Some(t),
                    Err(_) => None,
                }
            }
        },
    }
}

/// The state after `call`, whether it goes through or aborts.
pub open spec fn after(s: SoroStreamView, call: Call) -> SoroStreamView {
    match apply(s, call) {
        Some(t) => t,
        None => s,
    }
}

/// The state after the calls, one after the other.
pub open spec fn run(s: SoroStreamView, calls: Seq<Call>) -> SoroStreamView
    decreases calls.len(),
{
    if calls.len() == 0 {
        s
    } else {
        run(after(s, calls[0]), calls.drop_first())
    }
}

/// The ids that the successful `create_stream` calls among `calls` return,
/// in order.
pub open spec fn created_ids(s: SoroStreamView, calls: Seq<Call>) -> Seq<u64>
    decreases calls.len(),
{
    if calls.len() == 0 {
        Seq::empty()
    } else {
        let head = if calls[0] is CreateStream && apply(s, calls[0]) is Some {
            seq![s.next_stream_id]
        } else {
            Seq::empty()
        };
        head + created_ids(after(s, calls[0]), calls.drop_first())
    }
}

proof fn lemma_persist_transitive(a: SoroStreamView, b: SoroStreamView, c: SoroStreamView)
    requires
        streams_persist(a, b),
        streams_persist(b, c),
    ensures
        streams_persist(a, c),
{
    assert forall|k: u64| #[trigger] a.streams.contains_key(k) implies c.streams.contains_key(k) by {
        assert(b.streams.contains_key(k));
    }
}

proof fn lemma_after_one_call(s: SoroStreamView, call: Call)
    requires
        s.well_formed(),
    ensures
        after(s, call).well_formed(),
        streams_persist(s, after(s, call)),
        after(s, call).next_stream_id == s.next_stream_id + if call is CreateStream && apply(s, call) is Some {
            1int
        } else {
            0int
        },
{
    match call {
        Call::Initialize { admin } => {
            if apply(s, call) is Some {
                lemma_initialize_frame(s, admin);
            }
        },
        Call::CreateStream { sender, recipient, token, amount, start_time, end_time, now } => {
            if apply(s, call) is Some {
                lemma_create_then_get(s, sender, recipient, token, amount, start_time, end_time, now);
            }
        },
        Call::ClaimStream { stream_id, recipient, now } => {
            if apply(s, call) is Some {
                lemma_claim_accounting(s, stream_id, recipient, now);
            }
        },
        Call::CancelStream { stream_id, sender, now } => {
            if apply(s, call) is Some {
                lemma_cancel_settlement(s, stream_id, sender, now);
            }
        },
    }
    if apply(s, call) is None {
        assert(streams_persist(s, s));
    }
}

/// Over any sequence of calls the state stays well-formed, every stream
/// survives with its terms, a claimed amount that never goes down, and
/// unchanged once cancelled; and the successful `create_stream` calls
/// return consecutive ids starting at the counter, which ends just past
/// the last of them. So ids are never reused and no stream is overwritten.
pub proof fn lemma_any_calls(s: SoroStreamView, calls: Seq<Call>)
    requires
        s.well_formed(),
    ensures
        run(s, calls).well_formed(),
        streams_persist(s, run(s, calls)),
        run(s, calls).next_stream_id == s.next_stream_id + created_ids(s, calls).len(),
        forall|k: int| 0 <= k < created_ids(s, calls).len() ==> #[trigger] created_ids(s, calls)[k] == s.next_stream_id + k,
    decreases calls.len(),
{
    if calls.len() > 0 {
        let t = after(s, calls[0]);
        lemma_after_one_call(s, calls[0]);
        lemma_any_calls(t, calls.drop_first());
        lemma_persist_transitive(s, t, run(t, calls.drop_first()));
        let rest = created_ids(t, calls.drop_first());
        let head = if calls[0] is CreateStream && apply(s, calls[0]) is Some {
            seq![s.next_stream_id]
        } else {
            Seq::<u64>::empty()
        };
        assert(created_ids(s, calls) == head + rest);
        assert forall|k: int| 0 <= k < created_ids(s, calls).len() implies #[trigger] created_ids(s, calls)[k]
            == s.next_stream_id + k by {
            if k < head.len() {
            } else {
                assert(created_ids(s, calls)[k] == rest[k - head.len()]);
            }
        }
    } else {
        assert(streams_persist(s, s));
    }
}

/// Starting from a fresh contract that then gets initialized, the streams
/// created by any later sequence of calls receive the ids 0, 1, 2, … in
/// order.
pub proof fn lemma_ids_from_zero(s: SoroStreamView, admin: Seq<u8>, calls: Seq<Call>)
    requires
        s.well_formed(),
        s.initialize_result(admin) is Ok,
    ensures
        forall|k: int| 0 <= k < created_ids(s.initialize_result(admin)->Ok_0, calls).len()
            ==> #[trigger] created_ids(s.initialize_result(admin)->Ok_0, calls)[k] == k,
{
    lemma_initialize_frame(s, admin);
    lemma_any_calls(s.initialize_result(admin)->Ok_0, calls);
}

/// Cancel is final over any later sequence of calls: once a cancel went
/// through, the stream stays exactly as the cancel left it, and every
/// claim or cancel of it, by anyone at any time, is still refused.
pub proof fn lemma_cancel_final_over_any_calls(
    s: SoroStreamView,
    stream_id: u64,
    sender: Seq<u8>,
    now: u64,
    calls: Seq<Call>,
    who: Seq<u8>,
    when: u64,
)
    requires
        s.well_formed(),
        s.cancel_result(stream_id, sender, now) is Ok,
    ensures
        ({
            let t = s.cancel_result(stream_id, sender, now)->Ok_0.0;
            let u = run(t, calls);
            &&& u.streams.contains_key(stream_id)
            &&& u.streams[stream_id] == t.streams[stream_id]
            &&& u.claim_result(stream_id, who, when) is Err
            &&& u.cancel_result(stream_id, who, when) is Err
            &&& apply(u, Call::ClaimStream { stream_id, recipient: who, now: when }) is None
            &&& apply(u, Call::CancelStream { stream_id, sender: who, now: when }) is None
        }),
{
    let t = s.cancel_result(stream_id, sender, now)->Ok_0.0;
    lemma_cancel_settlement(s, stream_id, sender, now);
    lemma_any_calls(t, calls);
    assert(t.streams.contains_key(stream_id));
}


// ── What each operation computes, in terms of its inputs ────────────────────

/// `claimable_amount` at `now` is the linear share of the total that has
/// vested, less what was claimed, and never negative: 0 up to the start;
/// `total * (now - start) / (end - start)` (rounded down) minus the
/// claimed amount strictly inside the window; everything unclaimed from
/// the end on; and 0 for a cancelled stream.
pub proof fn lemma_claimable_amount_formula(s: SoroStreamView, stream_id: u64, now: u64)
    requires
        s.well_formed(),
        s.streams.contains_key(stream_id),
    ensures
        ({
            let st = s.streams[stream_id];
            let total = st.total_amount as int;
            let claimed = st.claimed_amount as int;
            let share = total * (now - st.start_time) / (st.end_time - st.start_time);
            &&& st.is_cancelled ==> s.claimable_result(stream_id, now) == Ok::<i128, SoroError>(0)
            &&& !st.is_cancelled && now <= st.start_time ==> s.claimable_result(stream_id, now)
                == Ok::<i128, SoroError>(0)
            &&& !st.is_cancelled && st.start_time < now < st.end_time && share > claimed
                ==> s.claimable_result(stream_id, now) == Ok::<i128, SoroError>((share - claimed) as i128)
            &&& !st.is_cancelled && st.start_time < now < st.end_time && share <= claimed
                ==> s.claimable_result(stream_id, now) == Ok::<i128, SoroError>(0)
            &&& !st.is_cancelled && st.end_time <= now ==> s.claimable_result(stream_id, now)
                == Ok::<i128, SoroError>((total - claimed) as i128)
        }),
{
    let st = s.streams[stream_id];
    lemma_stream_vested_in_range(st, now);
    if st.end_time <= now {
        lemma_fully_vested_from_end(st, now);
    }
}

/// A claim by the stream's recipient on an active stream pays exactly the
/// vested share less what was already claimed, and is refused with
/// `NothingToClaim` exactly when that is not positive: before the start
/// nothing; strictly inside the window
/// `total * (now - start) / (end - start) - claimed`; from the end on
/// everything unclaimed. The claimed amount grows by the payment.
pub proof fn lemma_claim_formula(s: SoroStreamView, stream_id: u64, now: u64)
    requires
        s.well_formed(),
        s.streams.contains_key(stream_id),
        !s.streams[stream_id].is_cancelled,
    ensures
        ({
            let st = s.streams[stream_id];
            let r = s.claim_result(stream_id, st.recipient, now);
            let total = st.total_amount as int;
            let claimed = st.claimed_amount as int;
            let share = total * (now - st.start_time) / (st.end_time - st.start_time);
            let owed = if now <= st.start_time {
                0
            } else if now < st.end_time {
                share - claimed
            } else {
                total - claimed
            };
            &&& owed <= 0 ==> r == Err::<(SoroStreamView, i128), SoroError>(SoroError::NothingToClaim)
            &&& owed > 0 ==> {
                &&& r is Ok
                &&& r->Ok_0.1 == owed
                &&& r->Ok_0.0 == SoroStreamView {
                    streams: s.streams.insert(
                        stream_id,
                        StreamView { claimed_amount: (claimed + owed) as i128, ..st },
                    ),
                    ..s
                }
                &&& s.claim_effects(stream_id, st.recipient, owed as i128).actions == seq![
                    ActionView::RequireAuth(st.recipient),
                    ActionView::Write(DataKey::Stream(stream_id)),
                    ActionView::Transfer(
                        TransferView::Payout { token: st.token, to: st.recipient, amount: owed as i128 },
                    ),
                    ActionView::Publish(
                        EventView::StreamClaimed { stream_id, recipient: st.recipient, amount: owed as i128 },
                    ),
                ]
            }
        }),
{
    let st = s.streams[stream_id];
    lemma_stream_vested_in_range(st, now);
    if st.end_time <= now {
        lemma_fully_vested_from_end(st, now);
    }
    let r = s.claim_result(stream_id, st.recipient, now);
    if r is Ok {
        let amount = r->Ok_0.1;
        assert(s.claim_effects(stream_id, st.recipient, amount).actions =~= seq![
            ActionView::RequireAuth(st.recipient),
            ActionView::Write(DataKey::Stream(stream_id)),
            ActionView::Transfer(TransferView::Payout { token: st.token, to: st.recipient, amount }),
            ActionView::Publish(EventView::StreamClaimed { stream_id, recipient: st.recipient, amount }),
        ]);
    }
}

/// A cancel by the stream's sender on an active stream always goes
/// through. It pays the recipient what has vested and is unclaimed (0 up
/// to the start; `total * (now - start) / (end - start) - claimed`, if
/// positive, strictly inside the window; everything unclaimed from the end
/// on), refunds the sender the rest of the unclaimed amount, and leaves the
/// stream cancelled with the recipient's part counted as claimed.
pub proof fn lemma_cancel_formula(s: SoroStreamView, stream_id: u64, now: u64)
    requires
        s.well_formed(),
        s.streams.contains_key(stream_id),
        !s.streams[stream_id].is_cancelled,
    ensures
        ({
            let st = s.streams[stream_id];
            let r = s.cancel_result(stream_id, st.sender, now);
            let total = st.total_amount as int;
            let claimed = st.claimed_amount as int;
            let share = total * (now - st.start_time) / (st.end_time - st.start_time);
            let paid = if now <= st.start_time {
                0
            } else if now < st.end_time {
                if share > claimed {
                    share - claimed
                } else {
                    0
                }
            } else {
                total - claimed
            };
            &&& r is Ok
            &&& r->Ok_0.1 == paid
            &&& r->Ok_0.2 == total - claimed - paid
            &&& r->Ok_0.0 == SoroStreamView {
                streams: s.streams.insert(
                    stream_id,
                    StreamView { claimed_amount: (claimed + paid) as i128, is_cancelled: true, ..st },
                ),
                ..s
            }
            &&& s.cancel_effects(stream_id, paid as i128, (total - claimed - paid) as i128).actions
                == seq![ActionView::RequireAuth(st.sender), ActionView::Write(DataKey::Stream(stream_id))]
                + (if paid > 0 {
                    seq![
                        ActionView::Transfer(
                            TransferView::Payout { token: st.token, to: st.recipient, amount: paid as i128 },
                        ),
                    ]
                } else {
                    Seq::empty()
                }) + (if total - claimed - paid > 0 {
                    seq![
                        ActionView::Transfer(
                            TransferView::Payout {
                                token: st.token,
                                to: st.sender,
                                amount: (total - claimed - paid) as i128,
                            },
                        ),
                    ]
                } else {
                    Seq::empty()
                }) + seq![
                ActionView::Publish(
                    EventView::StreamCancelled {
                        stream_id,
                        sender_refund: (total - claimed - paid) as i128,
                        recipient_claimable: paid as i128,
                    },
                ),
            ]
        }),
{
    let st = s.streams[stream_id];
    lemma_stream_vested_in_range(st, now);
    if st.end_time <= now {
        lemma_fully_vested_from_end(st, now);
    }
    let r = s.cancel_result(stream_id, st.sender, now);
    let rc = r->Ok_0.1;
    let rf = r->Ok_0.2;
    let a = payout_if_positive(st.token, st.recipient, rc as int);
    let b = payout_if_positive(st.token, st.sender, rf as int);
    assert((a + b).map_values(|t: TransferView| ActionView::Transfer(t))
        =~= a.map_values(|t: TransferView| ActionView::Transfer(t))
        + b.map_values(|t: TransferView| ActionView::Transfer(t)));
    assert(s.cancel_effects(stream_id, rc, rf).actions =~= seq![
        ActionView::RequireAuth(st.sender),
        ActionView::Write(DataKey::Stream(stream_id)),
    ] + a.map_values(|t: TransferView| ActionView::Transfer(t)) + b.map_values(
        |t: TransferView| ActionView::Transfer(t),
    ) + seq![
        ActionView::Publish(
            EventView::StreamCancelled { stream_id, sender_refund: rf, recipient_claimable: rc },
        ),
    ]);
}

/// `create_stream` goes through exactly when the contract is initialized,
/// the amount is positive, the start is not in the past and the end comes
/// after the start; it then stores the stream under the counter's value,
/// with nothing claimed, and moves the counter on by one. Otherwise it is
/// refused with `NotInitialized`, `InvalidAmount` or `InvalidTimeRange`, in
/// that order of checks.
pub proof fn lemma_create_formula(
    s: SoroStreamView,
    sender: Seq<u8>,
    recipient: Seq<u8>,
    token: Seq<u8>,
    amount: i128,
    start_time: u64,
    end_time: u64,
    now: u64,
)
    requires
        s.well_formed(),
        s.next_stream_id < u64::MAX,
    ensures
        ({
            let r = s.create_result(sender, recipient, token, amount, start_time, end_time, now);
            &&& !s.initialized ==> r == Err::<(SoroStreamView, u64), SoroError>(SoroError::NotInitialized)
            &&& s.initialized && amount <= 0 ==> r == Err::<(SoroStreamView, u64), SoroError>(
                SoroError::InvalidAmount,
            )
            &&& s.initialized && amount > 0 && start_time < now ==> r == Err::<(SoroStreamView, u64), SoroError>(
                SoroError::InvalidTimeRange,
            )
            &&& s.initialized && amount > 0 && end_time <= start_time ==> r == Err::<
                (SoroStreamView, u64),
                SoroError,
            >(SoroError::InvalidTimeRange)
            &&& r is Ok <==> (s.initialized && amount > 0 && now <= start_time && start_time < end_time)
            &&& r is Ok ==> {
                &&& r->Ok_0.1 == s.next_stream_id
                &&& r->Ok_0.0.next_stream_id == s.next_stream_id + 1
                &&& r->Ok_0.0.initialized == s.initialized
                &&& r->Ok_0.0.admin == s.admin
                &&& !s.streams.contains_key(s.next_stream_id)
                &&& s.create_effects(sender, recipient, token, amount, start_time, end_time).actions == seq![
                    ActionView::RequireAuth(sender),
                    ActionView::Write(DataKey::Stream(s.next_stream_id)),
                    ActionView::Write(DataKey::NextStreamId),
                    ActionView::Transfer(TransferView::Deposit { token, from: sender, amount }),
                    ActionView::Publish(
                        EventView::StreamCreated {
                            stream_id: s.next_stream_id,
                            sender,
                            recipient,
                            token,
                            amount,
                            start_time,
                            end_time,
                        },
                    ),
                ]
                &&& r->Ok_0.0.streams == s.streams.insert(
                    s.next_stream_id,
                    StreamView {
                        id: s.next_stream_id,
                        sender,
                        recipient,
                        token,
                        total_amount: amount,
                        claimed_amount: 0,
                        start_time,
                        end_time,
                        is_cancelled: false,
                    },
                )
            }
        }),
{
    assert(!s.streams.contains_key(s.next_stream_id));
    assert(s.create_effects(sender, recipient, token, amount, start_time, end_time).actions =~= seq![
        ActionView::RequireAuth(sender),
        ActionView::Write(DataKey::Stream(s.next_stream_id)),
        ActionView::Write(DataKey::NextStreamId),
        ActionView::Transfer(TransferView::Deposit { token, from: sender, amount }),
        ActionView::Publish(
            EventView::StreamCreated {
                stream_id: s.next_stream_id,
                sender,
                recipient,
                token,
                amount,
                start_time,
                end_time,
            },
        ),
    ]);
}


/// The vesting formula of a single stream, in terms of its fields: nothing
/// up to the start; `total * (now - start) / (end - start) - claimed`, if
/// positive, strictly inside the window; everything unclaimed from the end
/// on. It can be evaluated without overflow exactly when the product
/// `total * (min(now, end) - start)` fits in an `i128` (or before the
/// start).
pub proof fn lemma_stream_claimable_formula(st: StreamView, now: u64)
    requires
        st.well_formed(),
    ensures
        now <= st.start_time ==> st.claimable(now) == 0,
        st.start_time < now < st.end_time ==> st.claimable(now) == {
            let share = st.total_amount * (now - st.start_time) / (st.end_time - st.start_time);
            if share > st.claimed_amount {
                share - st.claimed_amount
            } else {
                0
            }
        },
        st.end_time <= now ==> st.claimable(now) == st.total_amount - st.claimed_amount,
        st.vesting_fits(now) <==> (now <= st.start_time || st.total_amount * ((if now < st.end_time {
            now
        } else {
            st.end_time
        }) - st.start_time) <= i128::MAX),
{
    if st.end_time <= now {
        lemma_fully_vested_from_end(st, now);
    }
}

/// `initialize` goes through exactly when the contract is not initialized
/// yet; it then records `admin`, sets the counter to 0, keeps everything
/// else, and asks for the admin's signature, the three writes and the event.
pub proof fn lemma_initialize_formula(s: SoroStreamView, admin: Seq<u8>)
    ensures
        s.initialized ==> s.initialize_result(admin) == Err::<SoroStreamView, SoroError>(
            SoroError::AlreadyInitialized,
        ),
        !s.initialized ==> s.initialize_result(admin) == Ok::<SoroStreamView, SoroError>(
            SoroStreamView { initialized: true, admin: Some(admin), next_stream_id: 0, streams: s.streams },
        ),
        SoroStreamView::initialize_effects(admin).actions == seq![
            ActionView::RequireAuth(admin),
            ActionView::Write(DataKey::Init),
            ActionView::Write(DataKey::Admin),
            ActionView::Write(DataKey::NextStreamId),
            ActionView::Publish(EventView::ProtocolInitialized { admin }),
        ],
{
    assert(SoroStreamView::initialize_effects(admin).actions =~= seq![
        ActionView::RequireAuth(admin),
        ActionView::Write(DataKey::Init),
        ActionView::Write(DataKey::Admin),
        ActionView::Write(DataKey::NextStreamId),
        ActionView::Publish(EventView::ProtocolInitialized { admin }),
    ]);
}

/// Claims and cancels are refused, leaving everything as it was, exactly in
/// these cases, checked in this order: no stream under the id
/// (`StreamNotFound`); a caller other than the stream's recipient, for a
/// claim, or its sender, for a cancel (`Unauthorized`); a cancelled stream
/// (`StreamEnded`). The query `claimable_amount` fails only for a missing
/// stream.
pub proof fn lemma_claim_cancel_refusals(s: SoroStreamView, stream_id: u64, who: Seq<u8>, now: u64)
    ensures
        !s.streams.contains_key(stream_id) ==> {
            &&& s.claim_result(stream_id, who, now) == Err::<(SoroStreamView, i128), SoroError>(
                SoroError::StreamNotFound,
            )
            &&& s.cancel_result(stream_id, who, now) == Err::<(SoroStreamView, i128, i128), SoroError>(
                SoroError::StreamNotFound,
            )
            &&& s.claimable_result(stream_id, now) == Err::<i128, SoroError>(SoroError::StreamNotFound)
        },
        s.streams.contains_key(stream_id) ==> {
            &&& s.claimable_result(stream_id, now) is Ok
            &&& who != s.streams[stream_id].recipient ==> s.claim_result(stream_id, who, now) == Err::<
                (SoroStreamView, i128),
                SoroError,
            >(SoroError::Unauthorized)
            &&& who != s.streams[stream_id].sender ==> s.cancel_result(stream_id, who, now) == Err::<
                (SoroStreamView, i128, i128),
                SoroError,
            >(SoroError::Unauthorized)
            &&& who == s.streams[stream_id].recipient && s.streams[stream_id].is_cancelled
                ==> s.claim_result(stream_id, who, now) == Err::<(SoroStreamView, i128), SoroError>(
                SoroError::StreamEnded,
            )
            &&& who == s.streams[stream_id].sender && s.streams[stream_id].is_cancelled
                ==> s.cancel_result(stream_id, who, now) == Err::<(SoroStreamView, i128, i128), SoroError>(
                SoroError::StreamEnded,
            )
        },
{
}


/// What a well-formed stream is: a positive amount, a claimed amount
/// between zero and that amount, and a start before the end. This is what
/// `restore_stream` accepts from storage and what every operation keeps.
pub proof fn lemma_well_formed_stream(st: StreamView)
    ensures
        st.well_formed() <==> (0 < st.total_amount && 0 <= st.claimed_amount && st.claimed_amount
            <= st.total_amount && st.start_time < st.end_time),
{
}

} // verus!
