use vstd::prelude::*;
use crate::address::Address;

verus! {

/// Keys of the contract's persistent storage. Every piece of state lives
/// under one of these, so no two pieces can collide.
#[derive(Copy, Clone, Debug, PartialEq, Eq, Structural)]
pub enum DataKey {
    /// Whether the contract has been initialized.
    Init,
    /// The protocol admin address.
    Admin,
    /// The counter from which stream ids are taken.
    NextStreamId,
    /// The stream stored under the given id.
    Stream(u64),
}

/// A token movement that an operation asks the host to carry out.
#[derive(Debug, PartialEq, Eq)]
pub enum Transfer {
    /// The contract pulls `amount` of `token` from `from` into escrow.
    Deposit { token: Address, from: Address, amount: i128 },
    /// The contract pays `amount` of `token` out of escrow to `to`.
    Payout { token: Address, to: Address, amount: i128 },
}

/// The event an operation publishes.
#[derive(Debug, PartialEq, Eq)]
pub enum Event {
    /// Topics `("protocol", "init")`, data: the admin.
    ProtocolInitialized { admin: Address },
    /// Topics `("stream", "created")`.
    StreamCreated {
        stream_id: u64,
        sender: Address,
        recipient: Address,
        token: Address,
        amount: i128,
        start_time: u64,
        end_time: u64,
    },
    /// Topics `("stream", "claimed")`.
    StreamClaimed { stream_id: u64, recipient: Address, amount: i128 },
    /// Topics `("stream", "cancelled")`.
    StreamCancelled { stream_id: u64, sender_refund: i128, recipient_claimable: i128 },
}

/// One step that a successful operation asks its host to carry out.
#[derive(Debug, PartialEq, Eq)]
pub enum Action {
    /// Require the signature of this address for the invocation.
    RequireAuth(Address),
    /// Write the entry under this key from the new state to storage.
    Write(DataKey),
    /// Move tokens.
    Transfer(Transfer),
    /// Publish the event.
    Publish(Event),
}

/// What a successful operation leaves for its host to do: the actions to
/// carry out, in order.
#[derive(Debug, PartialEq, Eq)]
pub struct Effects {
    pub actions: Vec<Action>,
}

/// The mathematical value of a [`Transfer`].
pub enum TransferView {
    Deposit { token: Seq<u8>, from: Seq<u8>, amount: i128 },
    Payout { token: Seq<u8>, to: Seq<u8>, amount: i128 },
}

/// The mathematical value of an [`Event`].
pub enum EventView {
    ProtocolInitialized { admin: Seq<u8> },
    StreamCreated {
        stream_id: u64,
        sender: Seq<u8>,
        recipient: Seq<u8>,
        token: Seq<u8>,
        amount: i128,
        start_time: u64,
        end_time: u64,
    },
    StreamClaimed { stream_id: u64, recipient: Seq<u8>, amount: i128 },
    StreamCancelled { stream_id: u64, sender_refund: i128, recipient_claimable: i128 },
}

/// The mathematical value of an [`Action`].
pub enum ActionView {
    RequireAuth(Seq<u8>),
    Write(DataKey),
    Transfer(TransferView),
    Publish(EventView),
}

/// The mathematical value of an [`Effects`].
pub struct EffectsView {
    pub actions: Seq<ActionView>,
}

impl View for Transfer {
    type V = TransferView;

    open spec fn view(&self) -> TransferView {
        match self {
            Transfer::Deposit { token, from, amount } => TransferView::Deposit {
                token: token@,
                from: from@,
                amount: *amount,
            },
            Transfer::Payout { token, to, amount } => TransferView::Payout {
                token: token@,
                to: to@,
                amount: *amount,
            },
        }
    }
}

impl View for Event {
    type V = EventView;

    open spec fn view(&self) -> EventView {
        match self {
            Event::ProtocolInitialized { admin } => EventView::ProtocolInitialized { admin: admin@ },
            Event::StreamCreated {
                stream_id,
                sender,
                recipient,
                token,
                amount,
                start_time,
                end_time,
            } => EventView::StreamCreated {
                stream_id: *stream_id,
                sender: sender@,
                recipient: recipient@,
                token: token@,
                amount: *amount,
                start_time: *start_time,
                end_time: *end_time,
            },
            Event::StreamClaimed { stream_id, recipient, amount } => EventView::StreamClaimed {
                stream_id: *stream_id,
                recipient: recipient@,
                amount: *amount,
            },
            Event::StreamCancelled { stream_id, sender_refund, recipient_claimable } =>
                EventView::StreamCancelled {
                stream_id: *stream_id,
                sender_refund: *sender_refund,
                recipient_claimable: *recipient_claimable,
            },
        }
    }
}

impl View for Action {
    type V = ActionView;

    open spec fn view(&self) -> ActionView {
        match self {
            Action::RequireAuth(a) => ActionView::RequireAuth(a@),
            Action::Write(k) => ActionView::Write(*k),
            Action::Transfer(t) => ActionView::Transfer(t@),
            Action::Publish(e) => ActionView::Publish(e@),
        }
    }
}

impl View for Effects {
    type V = EffectsView;

    open spec fn view(&self) -> EffectsView {
        EffectsView { actions: self.actions@.map_values(|a: Action| a@) }
    }
}

impl TransferView {
    /// The token the transfer moves.
    pub open spec fn token(self) -> Seq<u8> {
        match self {
            TransferView::Deposit { token, .. } => token,
            TransferView::Payout { token, .. } => token,
        }
    }

    /// What the transfer adds to the escrow in `token`: the amount of a
    /// deposit, minus the amount of a payout, and 0 for another token.
    pub open spec fn inflow(self, token: Seq<u8>) -> int {
        if self.token() != token {
            0
        } else {
            match self {
                TransferView::Deposit { amount, .. } => amount as int,
                TransferView::Payout { amount, .. } => -amount,
            }
        }
    }
}

impl ActionView {
    /// What the action adds to the escrow in `token`: only transfers move
    /// tokens.
    pub open spec fn inflow(self, token: Seq<u8>) -> int {
        match self {
            ActionView::Transfer(t) => t.inflow(token),
            _ => 0,
        }
    }
}

/// The net amount of `token` that a sequence of actions adds to the escrow.
pub open spec fn net_inflow(actions: Seq<ActionView>, token: Seq<u8>) -> int
    decreases actions.len(),
{
    if actions.len() == 0 {
        0
    } else {
        net_inflow(actions.drop_last(), token) + actions.last().inflow(token)
    }
}

/// The actions of an operation laid out in the order the host carries them
/// out: the signature of `signer`, the storage writes `ws`, the token
/// transfers `ts`, and the event `e`.
pub open spec fn ordered_actions(signer: Seq<u8>, ws: Seq<DataKey>, ts: Seq<TransferView>, e: EventView) -> Seq<
    ActionView,
> {
    seq![ActionView::RequireAuth(signer)] + ws.map_values(|k: DataKey| ActionView::Write(k))
        + ts.map_values(|t: TransferView| ActionView::Transfer(t)) + seq![ActionView::Publish(e)]
}

/// The order the host carries out an operation's actions in: first the
/// signature of `signer` and of no one else, then the storage writes, then
/// the token transfers, and last the single event. State changes thus come
/// before any token moves.
pub open spec fn auth_then_effects_then_interactions(actions: Seq<ActionView>, signer: Seq<u8>) -> bool {
    &&& actions.len() >= 2
    &&& actions[0] == ActionView::RequireAuth(signer)
    &&& forall|i: int| 0 < i < actions.len() ==> !(#[trigger] actions[i] is RequireAuth)
    &&& forall|i: int, j: int|
        0 <= i < j < actions.len() && #[trigger] actions[i] is Transfer ==> !(#[trigger] actions[j] is Write)
    &&& actions.last() is Publish
    &&& forall|i: int| 0 <= i < actions.len() - 1 ==> !(#[trigger] actions[i] is Publish)
}

} // verus!
