//! Mailboxes: one queue for a node's inputs and for control.
//!
//! Inputs are bounded, and an input that finds the bound reached is dropped; control messages take
//! no part in the bound, so a flood of frames cannot hold up a stop. A mailbox whose node was
//! stopped is closed: what waits in it can still be taken out, but nothing more goes in.
use crate::engine::node::NodeAction;
use crate::engine::packet::{DataPacket, PacketView};
use crate::json::{JsonTree, JsonValue};
use vstd::prelude::*;

verus! {

/// A message to a node.
#[derive(Debug)]
pub enum NodeMessage {
    Input { port: String, packet: DataPacket },
    Action(NodeAction),
    ConfigUpdate { config: JsonValue },
    Stop,
}

/// A message by its values.
pub enum MessageView {
    Input { port: Seq<char>, packet: PacketView },
    Action(NodeAction),
    ConfigUpdate(JsonTree),
    Stop,
}

impl View for NodeMessage {
    type V = MessageView;

    open spec fn view(&self) -> MessageView {
        match *self {
            NodeMessage::Input { port, packet } => MessageView::Input {
                port: port@,
                packet: packet@,
            },
            NodeMessage::Action(action) => MessageView::Action(action),
            NodeMessage::ConfigUpdate { config } => MessageView::ConfigUpdate(config@),
            NodeMessage::Stop => MessageView::Stop,
        }
    }
}

/// Messages by their values.
pub open spec fn message_views(queue: Seq<NodeMessage>) -> Seq<MessageView> {
    queue.map_values(|message: NodeMessage| message@)
}

/// The bound on inputs is reached, or the mailbox is closed.
#[derive(Clone, Copy, Debug, PartialEq, Eq, Structural)]
pub struct ChannelFull;

/// A mailbox.
pub struct Mailbox {
    capacity: usize,
    pending_inputs: usize,
    queue: Vec<NodeMessage>,
    closed: bool,
}

/// A mailbox by its values.
#[verifier::ext_equal]
pub struct MailboxState {
    pub capacity: usize,
    pub queue: Seq<MessageView>,
    pub closed: bool,
}

impl View for Mailbox {
    type V = MailboxState;

    closed spec fn view(&self) -> MailboxState {
        MailboxState {
            capacity: self.capacity,
            queue: message_views(self.queue@),
            closed: self.closed,
        }
    }
}

/// The number of inputs among some messages.
pub open spec fn input_count(queue: Seq<MessageView>) -> nat
    decreases queue.len(),
{
    if queue.len() == 0 {
        0
    } else {
        input_count(queue.drop_first()) + if queue[0] is Input {
            1nat
        } else {
            0nat
        }
    }
}

proof fn lemma_input_count_push(queue: Seq<MessageView>, message: MessageView)
    ensures
        input_count(queue.push(message)) == input_count(queue) + if message is Input {
            1nat
        } else {
            0nat
        },
    decreases queue.len(),
{
    if queue.len() == 0 {
        assert(queue.push(message).drop_first() =~= Seq::<MessageView>::empty());
        reveal_with_fuel(input_count, 2);
    } else {
        assert(queue.push(message).drop_first() =~= queue.drop_first().push(message));
        lemma_input_count_push(queue.drop_first(), message);
    }
}

/// The bound of a mailbox of a requested size: at least one, at most 256.
pub open spec fn bound(capacity: usize) -> usize {
    if capacity < 1 {
        1
    } else if capacity > 256 {
        256
    } else {
        capacity
    }
}

impl MailboxState {
    /// The inputs stay within the bound.
    pub open spec fn bounded(self) -> bool {
        1 <= self.capacity <= 256 && input_count(self.queue) <= self.capacity
    }

    /// A message has been queued.
    pub open spec fn queued(self, message: MessageView) -> MailboxState {
        MailboxState { queue: self.queue.push(message), ..self }
    }

    /// Whether the bound on inputs is reached.
    pub open spec fn full(self) -> bool {
        input_count(self.queue) >= self.capacity
    }

    /// Whether a message can be queued.
    pub open spec fn takes(self, message: MessageView) -> bool {
        !self.closed && !(message is Input && self.full())
    }

    /// The node has been told to stop, and nothing more goes in.
    pub open spec fn stopped(self) -> MailboxState {
        if self.closed {
            self
        } else {
            MailboxState { closed: true, ..self.queued(MessageView::Stop) }
        }
    }
}

/// A mailbox in which nothing waits.
pub open spec fn empty_mailbox(capacity: usize) -> MailboxState {
    MailboxState { capacity, queue: Seq::empty(), closed: false }
}

/// Makes a mailbox with a bound on its inputs.
pub fn create_mailbox(capacity: usize) -> (r: Mailbox)
    ensures
        r.wf(),
        r@ == empty_mailbox(bound(capacity)),
{
    let capacity: usize = if capacity < 1 {
        1
    } else if capacity > 256 {
        256
    } else {
        capacity
    };
    let r = Mailbox { capacity, pending_inputs: 0, queue: Vec::new(), closed: false };
    proof {
        assert(r@.queue =~= Seq::empty());
    }
    r
}

impl Mailbox {
    /// The counter agrees with the queue, and the bound is kept.
    pub closed spec fn wf(&self) -> bool {
        self@.bounded() && self.pending_inputs == input_count(message_views(self.queue@))
    }

    /// A well-formed mailbox keeps its bound.
    pub proof fn lemma_wf(&self)
        requires
            self.wf(),
        ensures
            self@.bounded(),
    {
    }

    /// Whether an input can be queued.
    pub fn has_room(&self) -> (r: bool)
        requires
            self.wf(),
        ensures
            r == (!self@.closed && !self@.full()),
    {
        !self.closed && self.pending_inputs < self.capacity
    }

    /// Queues a message, unless the mailbox is closed or it is an input that finds the bound
    /// reached.
    pub fn try_send(&mut self, message: NodeMessage) -> (r: Result<(), ChannelFull>)
        requires
            old(self).wf(),
        ensures
            final(self).wf(),
            if old(self)@.takes(message@) {
                r is Ok && final(self)@ == old(self)@.queued(message@)
            } else {
                r == Err::<(), ChannelFull>(ChannelFull) && final(self)@ == old(self)@
            },
    {
        if self.closed {
            return Err(ChannelFull);
        }
        let is_input: bool = match &message {
            NodeMessage::Input { .. } => true,
            _ => false,
        };
        if is_input {
            if self.pending_inputs >= self.capacity {
                return Err(ChannelFull);
            }
            self.pending_inputs = self.pending_inputs + 1;
        }
        let ghost before = message_views(self.queue@);
        proof {
            lemma_input_count_push(before, message@);
        }
        self.queue.push(message);
        proof {
            assert(message_views(self.queue@) =~= before.push(message@));
        }
        Ok(())
    }

    /// Queues a control message, whatever the inputs, unless the mailbox is closed.
    pub fn send(&mut self, message: NodeMessage) -> (r: Result<(), ChannelFull>)
        requires
            old(self).wf(),
            !(message@ is Input),
        ensures
            final(self).wf(),
            if old(self)@.closed {
                r == Err::<(), ChannelFull>(ChannelFull) && final(self)@ == old(self)@
            } else {
                r is Ok && final(self)@ == old(self)@.queued(message@)
            },
    {
        self.try_send(message)
    }

    /// Tells the node to stop and closes the mailbox; a closed one stays as it is.
    pub fn stop(&mut self)
        requires
            old(self).wf(),
        ensures
            final(self).wf(),
            final(self)@ == old(self)@.stopped(),
    {
        let _sent: Result<(), ChannelFull> = self.send(NodeMessage::Stop);
        self.closed = true;
    }

    /// Takes the oldest message; an input makes room for another.
    pub fn try_recv(&mut self) -> (r: Option<NodeMessage>)
        requires
            old(self).wf(),
        ensures
            final(self).wf(),
            if old(self)@.queue.len() == 0 {
                r is None && final(self)@ == old(self)@
            } else {
                r is Some && r->Some_0@ == old(self)@.queue[0] && final(self)@ == (MailboxState {
                    queue: old(self)@.queue.drop_first(),
                    ..old(self)@
                })
            },
    {
        if self.queue.len() == 0 {
            return None;
        }
        let message: NodeMessage = self.queue.remove(0);
        proof {
            assert(message_views(self.queue@) =~= message_views(old(self).queue@).drop_first());
        }
        match &message {
            NodeMessage::Input { .. } => {
                self.pending_inputs = self.pending_inputs - 1;
            },
            _ => {},
        }
        Some(message)
    }
}

/// Messages leave a mailbox in the order in which they entered it.
pub proof fn law_first_in_first_out(state: MailboxState, first: MessageView, second: MessageView)
    requires
        state.queue.len() == 0,
    ensures
        ({
            let both = state.queued(first).queued(second);
            both.queue[0] == first && both.queue.drop_first()[0] == second
        }),
{
}

/// However many inputs wait, a control message is queued and an input that was taken out makes
/// room for exactly one more.
pub proof fn law_taking_an_input_makes_room(state: MailboxState)
    requires
        state.bounded(),
        state.full(),
        state.queue.len() > 0,
        state.queue[0] is Input,
    ensures
        !(MailboxState { queue: state.queue.drop_first(), ..state }).full(),
        input_count(state.queue.drop_first()) + 1 == state.capacity,
{
}

/// A mailbox that was stopped takes nothing more, and stopping it again changes nothing.
pub proof fn law_stopped_mailbox_takes_nothing(state: MailboxState, message: MessageView)
    ensures
        !state.stopped().takes(message),
        state.stopped().stopped() == state.stopped(),
{
}

} // verus!
