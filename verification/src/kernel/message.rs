//! Messages: a payload of the application's type bound to a channel of the
//! messaging manager.

use vstd::prelude::*;
use crate::errors::KernelError;
use crate::kernel::messaging::{
    broadcast_on, fresh_channel, has_message, received_on, MessageId, MessagingManager,
};
use crate::kernel::task_manager::{get_RT, release, TaskManager};
use crate::config::MESSAGE_COUNT;

verus! {

#[derive(Debug)]
pub struct Message<T: Sized> {
    inner: T,
    id: MessageId,
}

/// What a `Message` holds, as a mathematical value.
pub struct MessageState<T> {
    pub id: MessageId,
    pub payload: T,
}

impl<T> View for Message<T> {
    type V = MessageState<T>;

    closed spec fn view(&self) -> MessageState<T> {
        MessageState { id: self.id, payload: self.inner }
    }
}

impl<T: Sized> Message<T> {
    pub fn new(val: T, id: MessageId) -> (message: Self)
        ensures
            message@ == (MessageState { id, payload: val }),
    {
        Self { inner: val, id }
    }

    /// Replaces the payload, if `msg` holds one, then broadcasts on the
    /// channel of the message and releases the tasks that the channel
    /// notifies. The payload is replaced even when the channel is unknown.
    pub fn broadcast(
        &mut self,
        messaging: &mut MessagingManager,
        tm: &mut TaskManager,
        msg: Option<T>,
    ) -> (r: Result<(), KernelError>)
        ensures
            final(self)@.id == old(self)@.id,
            final(self)@.payload == match msg {
                Some(payload) => payload,
                None => old(self)@.payload,
            },
            old(self)@.id >= old(messaging)@.len() ==> {
                &&& r is Err
                &&& final(messaging)@ == old(messaging)@
                &&& final(tm)@ == old(tm)@
            },
            old(self)@.id < old(messaging)@.len() ==> {
                let notify = old(messaging)@[old(self)@.id as int].notify_mask;
                &&& final(messaging)@ == broadcast_on(old(messaging)@, old(self)@.id as int)
                &&& final(tm)@ == old(tm)@.release(notify)
                &&& (r is Err <==> old(tm)@.activate(notify).schedule_fails())
            },
            r is Err ==> r == Err::<(), KernelError>(KernelError::DoesNotExist),
    {
        if let Some(msg) = msg {
            self.inner = msg;
        }
        let mask = messaging.broadcast(self.id)?;
        release(tm, &mask)
    }

    /// Gives the payload to the running task if a broadcast is pending for
    /// it, and marks it as taken.
    pub fn receive(&self, messaging: &mut MessagingManager, tm: &TaskManager) -> (r: Option<&T>)
        ensures
            r is Some <==> has_message(
                old(messaging)@,
                self@.id as int,
                tm@.running_tid as u32,
            ),
            r matches Some(payload) ==> *payload == self@.payload && final(messaging)@
                == received_on(old(messaging)@, self@.id as int, tm@.running_tid as u32),
            r is None ==> final(messaging)@ == old(messaging)@,
    {
        if messaging.receive(self.id, get_RT(tm)) {
            return Some(&self.inner);
        }
        None
    }

    pub fn get_id(&self) -> (id: MessageId)
        ensures
            id == self@.id,
    {
        self.id
    }
}

/// Broadcasts on channel `msg_id` and releases the tasks that it notifies.
pub fn broadcast(messaging: &mut MessagingManager, tm: &mut TaskManager, msg_id: MessageId) -> (r:
    Result<(), KernelError>)
    ensures
        msg_id >= old(messaging)@.len() ==> {
            &&& r is Err
            &&& final(messaging)@ == old(messaging)@
            &&& final(tm)@ == old(tm)@
        },
        msg_id < old(messaging)@.len() ==> {
            let notify = old(messaging)@[msg_id as int].notify_mask;
            &&& final(messaging)@ == broadcast_on(old(messaging)@, msg_id as int)
            &&& final(tm)@ == old(tm)@.release(notify)
            &&& (r is Err <==> old(tm)@.activate(notify).schedule_fails())
        },
        r is Err ==> r == Err::<(), KernelError>(KernelError::DoesNotExist),
{
    let mask = messaging.broadcast(msg_id)?;
    release(tm, &mask)
}

/// Creates a channel and the message bound to it, with `msg` as its first
/// payload. Only a privileged caller may do so.
pub fn create<T>(
    messaging: &mut MessagingManager,
    privileged: bool,
    notify_tasks_mask: u32,
    receivers_mask: u32,
    msg: T,
) -> (r: Result<Message<T>, KernelError>) where T: Sized
    ensures
        r is Ok <==> privileged && old(messaging)@.len() < MESSAGE_COUNT,
        !privileged ==> r == Err::<Message<T>, KernelError>(KernelError::AccessDenied),
        privileged && old(messaging)@.len() >= MESSAGE_COUNT ==> r == Err::<
            Message<T>,
            KernelError,
        >(KernelError::LimitExceeded),
        r is Err ==> final(messaging)@ == old(messaging)@,
        r matches Ok(message) ==> {
            &&& message@ == (MessageState { id: old(messaging)@.len() as usize, payload: msg })
            &&& final(messaging)@ == old(messaging)@.push(
                fresh_channel(notify_tasks_mask, receivers_mask),
            )
        },
{
    if !privileged {
        return Err(KernelError::AccessDenied);
    }
    let msg_id = messaging.create(notify_tasks_mask, receivers_mask)?;
    Ok(Message::new(msg, msg_id))
}

} // verus!
