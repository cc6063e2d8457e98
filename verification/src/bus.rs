//! The command bus and the one-shot response mailbox.
//!
//! Submitting never blocks: it enqueues the command and hands back a fresh
//! ticket. The processor answers every drained command with exactly one
//! delivery under that ticket; a caller resolves its ticket at most once,
//! and a ticket nobody resolves simply stays behind — an abandoned
//! destination never faults the processor.

use vstd::prelude::*;
use crate::ecs::{AethaumEcsCommand, AethaumEcsCommandResponse, AethaumEcsCommandType};

verus! {

/// One response, addressed to the ticket of the command that earned it.
#[derive(Debug)]
pub struct Delivery {
    pub ticket: u64,
    pub response: AethaumEcsCommandResponse,
}

/// The message channel between callers and the processor: commands wait here,
/// in submission order, until a tick drains them.
pub struct CommandBus {
    pending: Vec<AethaumEcsCommand>,
    next_ticket: u64,
}

impl View for CommandBus {
    type V = Seq<AethaumEcsCommand>;

    closed spec fn view(&self) -> Seq<AethaumEcsCommand> {
        self.pending@
    }
}

impl CommandBus {
    /// The ticket the next submission will take.
    pub closed spec fn spec_next_ticket(&self) -> u64 {
        self.next_ticket
    }

    /// Pending tickets grow strictly along the queue and stay below the next
    /// one to be issued, so no two commands ever share a ticket.
    pub open spec fn wf(&self) -> bool {
        &&& forall|i: int|
            0 <= i < self@.len() ==> (#[trigger] self@[i]).ticket < self.spec_next_ticket()
        &&& forall|i: int, j: int|
            0 <= i < j < self@.len() ==> (#[trigger] self@[i]).ticket < (#[trigger] self@[j]).ticket
    }

    /// An empty bus.
    pub fn new() -> (r: CommandBus)
        ensures
            r@ == Seq::<AethaumEcsCommand>::empty(),
            r.spec_next_ticket() == 0,
            r.wf(),
    {
        CommandBus { pending: Vec::new(), next_ticket: 0 }
    }

    /// The ticket the next submission will take; tickets run out only when
    /// this reaches the counter's ceiling.
    pub fn next_ticket(&self) -> (r: u64)
        ensures
            r == self.spec_next_ticket(),
    {
        self.next_ticket
    }

    /// How many commands wait.
    pub fn len(&self) -> (r: usize)
        ensures
            r == self@.len(),
    {
        self.pending.len()
    }

    /// Enqueues one command and returns the fresh ticket its response will be
    /// delivered under. Never blocks, and never reuses a ticket.
    pub fn submit(&mut self, command: AethaumEcsCommandType) -> (ticket: u64)
        requires
            old(self).wf(),
            old(self).spec_next_ticket() < u64::MAX,
        ensures
            final(self).wf(),
            ticket == old(self).spec_next_ticket(),
            final(self).spec_next_ticket() == ticket + 1,
            final(self)@ == old(self)@.push(AethaumEcsCommand { command, ticket }),
            forall|j: int| 0 <= j < old(self)@.len() ==> (#[trigger] old(self)@[j]).ticket != ticket,
    {
        let ticket = self.next_ticket;
        self.next_ticket = ticket + 1;
        self.pending.push(AethaumEcsCommand { command, ticket });
        ticket
    }

    /// Hands every pending command out, in submission order, leaving the bus
    /// empty. The ticket counter runs on: drained tickets are never reissued.
    pub fn drain(&mut self) -> (cmds: Vec<AethaumEcsCommand>)
        ensures
            cmds@ == old(self)@,
            final(self)@ == Seq::<AethaumEcsCommand>::empty(),
            final(self).spec_next_ticket() == old(self).spec_next_ticket(),
            old(self).wf() ==> final(self).wf(),
    {
        let mut out: Vec<AethaumEcsCommand> = Vec::new();
        core::mem::swap(&mut self.pending, &mut out);
        out
    }
}

/// Whether delivery `i` of `s` is addressed to `ticket`.
pub open spec fn delivery_ticket_at(s: Seq<Delivery>, ticket: u64, i: int) -> bool {
    s[i].ticket == ticket
}

/// The first delivery at or after `from` addressed to `ticket`, or `s.len()`.
pub open spec fn first_delivery_from(s: Seq<Delivery>, ticket: u64, from: int) -> int
    decreases s.len() - from,
{
    if from < 0 || from >= s.len() {
        s.len() as int
    } else if delivery_ticket_at(s, ticket, from) {
        from
    } else {
        first_delivery_from(s, ticket, from + 1)
    }
}

/// Holds deliveries until their callers resolve them. Each ticket resolves
/// to at most one response, exactly once: taking it removes it.
pub struct ResponseMailbox {
    entries: Vec<Delivery>,
}

impl View for ResponseMailbox {
    type V = Seq<Delivery>;

    closed spec fn view(&self) -> Seq<Delivery> {
        self.entries@
    }
}

impl ResponseMailbox {
    /// An empty mailbox.
    pub fn new() -> (r: ResponseMailbox)
        ensures
            r@ == Seq::<Delivery>::empty(),
    {
        ResponseMailbox { entries: Vec::new() }
    }

    /// Files one delivery.
    pub fn deliver(&mut self, delivery: Delivery)
        ensures
            final(self)@ == old(self)@.push(delivery),
    {
        self.entries.push(delivery);
    }

    /// Files a whole tick's deliveries, in order.
    pub fn deliver_all(&mut self, deliveries: Vec<Delivery>)
        ensures
            final(self)@ == old(self)@ + deliveries@,
    {
        let ghost all = deliveries@;
        let mut rest = deliveries;
        while rest.len() > 0
            invariant
                self@ + rest@ == old(self)@ + all,
            decreases rest@.len(),
        {
            let d = rest.remove(0);
            self.entries.push(d);
            proof {
                assert(self@ + rest@ =~= old(self)@ + all);
            }
        }
        proof {
            assert(self@ =~= self@ + rest@);
        }
    }

    /// Resolves one ticket: the response of the first delivery addressed to
    /// it, removed from the mailbox, or nothing if none is waiting.
    pub fn take(&mut self, ticket: u64) -> (r: Option<AethaumEcsCommandResponse>)
        ensures
            ({
                let i = first_delivery_from(old(self)@, ticket, 0);
                if i < old(self)@.len() {
                    r == Some(old(self)@[i].response) && final(self)@ == old(self)@.remove(i)
                } else {
                    r is None && final(self)@ == old(self)@
                }
            }),
    {
        let n = self.entries.len();
        let mut i: usize = 0;
        while i < n
            invariant
                0 <= i <= n,
                *self == *old(self),
                n == self@.len(),
                first_delivery_from(self@, ticket, 0) == first_delivery_from(
                    self@,
                    ticket,
                    i as int,
                ),
            decreases n - i,
        {
            if self.entries[i].ticket == ticket {
                proof {
                    assert(delivery_ticket_at(self@, ticket, i as int));
                    assert(first_delivery_from(self@, ticket, i as int) == i as int);
                }
                let d = self.entries.remove(i);
                return Some(d.response);
            }
            proof {
                assert(first_delivery_from(self@, ticket, i as int) == first_delivery_from(
                    self@,
                    ticket,
                    i + 1,
                ));
            }
            i += 1;
        }
        None
    }
}

} // verus!
