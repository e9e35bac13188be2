//! The messaging manager: one channel per message identifier, each with the
//! tasks that a broadcast releases, the tasks that may receive, and the
//! receivers that have not yet taken the last broadcast.

use vstd::prelude::*;
use crate::config::MESSAGE_COUNT;
use crate::errors::KernelError;
use crate::helper::{bit, has_bit, subset_of, task_bit};

verus! {

pub type MessageId = usize;

#[derive(Clone, Copy, Debug, PartialEq, Eq, Structural)]
pub struct MessageChannel {
    /// Tasks released by a broadcast.
    pub notify_mask: u32,
    /// Tasks allowed to receive.
    pub receivers_mask: u32,
    /// Receivers that have not yet taken the most recent broadcast.
    pub pending_mask: u32,
}

/// Whether `channels` can be the channels of a messaging manager: within
/// the limit, and on each of them only receivers are pending.
pub open spec fn channels_wf(channels: Seq<MessageChannel>) -> bool {
    &&& channels.len() <= MESSAGE_COUNT
    &&& forall|id: int|
        0 <= id < channels.len() ==> subset_of(
            #[trigger] channels[id].pending_mask,
            channels[id].receivers_mask,
        )
}

/// The channel that `create` adds.
pub open spec fn fresh_channel(notify_mask: u32, receivers_mask: u32) -> MessageChannel {
    MessageChannel { notify_mask, receivers_mask, pending_mask: 0 }
}

/// The channels after a broadcast on `id`: every receiver of that channel is
/// pending, whatever was pending before.
pub open spec fn broadcast_on(channels: Seq<MessageChannel>, id: int) -> Seq<MessageChannel> {
    channels.update(
        id,
        MessageChannel { pending_mask: channels[id].receivers_mask, ..channels[id] },
    )
}

/// Whether task `tid` has a broadcast of channel `id` to take.
pub open spec fn has_message(channels: Seq<MessageChannel>, id: int, tid: u32) -> bool {
    0 <= id < channels.len() && has_bit(channels[id].pending_mask, tid)
}

/// The channels after task `tid` has taken the broadcast of channel `id`.
pub open spec fn received_on(channels: Seq<MessageChannel>, id: int, tid: u32) -> Seq<
    MessageChannel,
> {
    channels.update(
        id,
        MessageChannel { pending_mask: channels[id].pending_mask & !bit(tid), ..channels[id] },
    )
}

pub struct MessagingManager {
    channels: [MessageChannel; MESSAGE_COUNT],
    /// Number of channels created; identifiers below it are in use.
    count: usize,
}

impl View for MessagingManager {
    type V = Seq<MessageChannel>;

    /// The channels created so far, by identifier.
    closed spec fn view(&self) -> Seq<MessageChannel> {
        self.channels@.take(self.count as int)
    }
}

impl MessagingManager {
    /// Holds of every messaging manager.
    #[verifier::type_invariant]
    pub closed spec fn inv(self) -> bool {
        &&& self.count <= MESSAGE_COUNT
        &&& channels_wf(self@)
    }

    /// A messaging manager without channels.
    pub fn new() -> (manager: Self)
        ensures
            manager@ == Seq::<MessageChannel>::empty(),
    {
        let manager = MessagingManager {
            channels: [MessageChannel { notify_mask: 0, receivers_mask: 0, pending_mask: 0 };MESSAGE_COUNT],
            count: 0,
        };
        assert(manager@ =~= Seq::<MessageChannel>::empty());
        manager
    }

    /// Number of channels created.
    pub fn count(&self) -> (n: usize)
        ensures
            n == self@.len(),
            channels_wf(self@),
    {
        proof {
            use_type_invariant(self);
        }
        self.count
    }

    /// The channel of `id`, if it was created.
    pub fn get_channel(&self, id: MessageId) -> (channel: Option<MessageChannel>)
        ensures
            channel == if id < self@.len() {
                Some(self@[id as int])
            } else {
                None
            },
            channel matches Some(c) ==> subset_of(c.pending_mask, c.receivers_mask),
    {
        proof {
            use_type_invariant(self);
        }
        if id < self.count {
            Some(self.channels[id])
        } else {
            None
        }
    }

    /// Creates a channel and gives its identifier: the number of channels
    /// created before it. Nothing is pending on the new channel.
    pub fn create(&mut self, notify_mask: u32, receivers_mask: u32) -> (r: Result<
        MessageId,
        KernelError,
    >)
        ensures
            r is Ok <==> old(self)@.len() < MESSAGE_COUNT,
            r is Err ==> r == Err::<MessageId, KernelError>(KernelError::LimitExceeded)
                && final(self)@ == old(self)@,
            r matches Ok(id) ==> id == old(self)@.len() && final(self)@ == old(self)@.push(
                fresh_channel(notify_mask, receivers_mask),
            ),
            channels_wf(final(self)@),
    {
        proof {
            use_type_invariant(&*self);
        }
        if self.count >= MESSAGE_COUNT {
            return Err(KernelError::LimitExceeded);
        }
        let id = self.count;
        let channel = MessageChannel { notify_mask, receivers_mask, pending_mask: 0 };
        let channels = put(self.channels, id, channel);
        proof {
            assert(0u32 & receivers_mask == 0) by (bit_vector);
            assert(channels@.take(id + 1) =~= self@.push(channel));
        }
        *self = MessagingManager { channels, count: id + 1 };
        Ok(id)
    }

    /// Marks every receiver of channel `id` as pending and gives the tasks
    /// to release.
    pub fn broadcast(&mut self, id: MessageId) -> (r: Result<u32, KernelError>)
        ensures
            r is Ok <==> id < old(self)@.len(),
            r is Err ==> r == Err::<u32, KernelError>(KernelError::DoesNotExist) && final(self)@
                == old(self)@,
            r matches Ok(notify) ==> notify == old(self)@[id as int].notify_mask && final(self)@
                == broadcast_on(old(self)@, id as int),
            channels_wf(final(self)@),
    {
        proof {
            use_type_invariant(&*self);
        }
        if id >= self.count {
            return Err(KernelError::DoesNotExist);
        }
        let before = self.channels[id];
        let channel = MessageChannel { pending_mask: before.receivers_mask, ..before };
        let channels = put(self.channels, id, channel);
        proof {
            let m = before.receivers_mask;
            assert(m & m == m) by (bit_vector);
            assert(channels@.take(self.count as int) =~= broadcast_on(self@, id as int));
        }
        *self = MessagingManager { channels, count: self.count };
        Ok(channel.notify_mask)
    }

    /// Takes the broadcast of channel `id` for task `curr_tid`: true, once,
    /// if the task is pending on that channel. Otherwise nothing changes.
    pub fn receive(&mut self, id: MessageId, curr_tid: usize) -> (taken: bool)
        ensures
            taken == (curr_tid <= u32::MAX && has_message(
                old(self)@,
                id as int,
                curr_tid as u32,
            )),
            taken ==> final(self)@ == received_on(old(self)@, id as int, curr_tid as u32),
            !taken ==> final(self)@ == old(self)@,
            channels_wf(final(self)@),
    {
        proof {
            use_type_invariant(&*self);
        }
        if id >= self.count || curr_tid > u32::MAX as usize {
            return false;
        }
        let before = self.channels[id];
        let tid_mask = task_bit(curr_tid as u32);
        if before.pending_mask & tid_mask == 0 {
            return false;
        }
        let channel = MessageChannel { pending_mask: before.pending_mask & !tid_mask, ..before };
        let channels = put(self.channels, id, channel);
        proof {
            let p = before.pending_mask;
            let m = before.receivers_mask;
            assert(self@[id as int].pending_mask == p);
            assert((p & !tid_mask) & m == p & !tid_mask) by (bit_vector)
                requires
                    p & m == p,
            ;
            assert(channels@.take(self.count as int) =~= received_on(
                self@,
                id as int,
                curr_tid as u32,
            ));
        }
        *self = MessagingManager { channels, count: self.count };
        true
    }
}

/// `channels` with `channel` at `index`.
fn put(channels: [MessageChannel; MESSAGE_COUNT], index: usize, channel: MessageChannel) -> (r:
    [MessageChannel; MESSAGE_COUNT])
    requires
        index < MESSAGE_COUNT,
    ensures
        r@ == channels@.update(index as int, channel),
{
    let mut r = channels;
    r[index] = channel;
    r
}

/// On every channel only receivers are ever pending: each operation keeps
/// it so.
pub proof fn lemma_pending_within_receivers(
    channels: Seq<MessageChannel>,
    id: int,
    tid: u32,
    notify_mask: u32,
    receivers_mask: u32,
)
    requires
        channels_wf(channels),
    ensures
        channels.len() < MESSAGE_COUNT ==> channels_wf(
            channels.push(fresh_channel(notify_mask, receivers_mask)),
        ),
        0 <= id < channels.len() ==> channels_wf(broadcast_on(channels, id)),
        0 <= id < channels.len() ==> channels_wf(received_on(channels, id, tid)),
{
    assert(0u32 & receivers_mask == 0) by (bit_vector);
    if 0 <= id < channels.len() {
        let p = channels[id].pending_mask;
        let m = channels[id].receivers_mask;
        let t = bit(tid);
        assert(m & m == m && (p & m == p ==> (p & !t) & m == p & !t)) by (bit_vector);
        assert(subset_of(p, m));
    }
}

/// A second broadcast with no receive in between leaves exactly the
/// receivers pending, as the first did.
pub proof fn lemma_double_broadcast(channels: Seq<MessageChannel>, id: int)
    requires
        0 <= id < channels.len(),
    ensures
        broadcast_on(broadcast_on(channels, id), id) == broadcast_on(channels, id),
        broadcast_on(broadcast_on(channels, id), id)[id].pending_mask
            == channels[id].receivers_mask,
{
    assert(broadcast_on(broadcast_on(channels, id), id) =~= broadcast_on(channels, id));
}

/// After a broadcast each receiver takes the message once: the first
/// receive succeeds and the second finds nothing.
pub proof fn lemma_receive_once(channels: Seq<MessageChannel>, id: int, tid: u32)
    requires
        0 <= id < channels.len(),
        has_bit(channels[id].receivers_mask, tid),
    ensures
        has_message(broadcast_on(channels, id), id, tid),
        !has_message(received_on(broadcast_on(channels, id), id, tid), id, tid),
{
    let m = channels[id].receivers_mask;
    let t = bit(tid);
    assert((m & !t) & t == 0) by (bit_vector);
}

} // verus!
