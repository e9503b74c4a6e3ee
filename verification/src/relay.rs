//! Relay state: the forward (SEND) and backward (REPORT) routing record
//! carried by every payload.

use vstd::prelude::*;

use crate::did::Did;

verus! {

/// Direction of a relayed payload.
#[derive(Clone, Copy, Debug, PartialEq, Eq, Structural)]
pub enum RelayMethod {
    /// Forward traversal towards `destination`.
    Send,
    /// Backward traversal along the recorded path.
    Report,
}

/// The routing state of a payload.
#[derive(Clone, Debug)]
pub struct MessageRelay {
    /// Forward or backward traversal.
    pub method: RelayMethod,
    /// Identifiers visited so far, origin first.
    pub path: Vec<Did>,
    /// How many backward steps a REPORT has taken; never mutates `path`.
    pub path_end_cursor: usize,
    /// The forwarder chosen for the next hop, if one was chosen.
    pub next_hop: Option<Did>,
    /// Where the payload is headed.
    pub destination: Did,
}

/// Whether a path already contains an identifier.
pub open spec fn path_contains(path: Seq<Did>, d: Did) -> bool {
    exists|i: int| 0 <= i < path.len() && path[i] == d
}

/// The position a REPORT with cursor `c` stands at: counted from the end
/// of the path.
pub open spec fn report_pos(path: Seq<Did>, c: int) -> int {
    path.len() - 1 - c
}

/// The hops a REPORT with cursor `c` has still to visit, in order.
pub open spec fn report_remaining(path: Seq<Did>, c: int) -> Seq<Did> {
    Seq::new((report_pos(path, c)) as nat, |i: int| path[report_pos(path, c) - 1 - i])
}

impl MessageRelay {
    /// A relay is well formed when its cursor stays on the path.
    pub open spec fn wf(self) -> bool {
        &&& self.path@.len() >= 1
        &&& self.path_end_cursor < self.path@.len()
        &&& (self.method == RelayMethod::Send ==> self.path_end_cursor == 0)
    }

    /// A fresh SEND relay leaving `origin` for `destination`.
    pub fn new_send(origin: Did, destination: Did) -> (r: MessageRelay)
        ensures
            r.method == RelayMethod::Send,
            r.path@ =~= seq![origin],
            r.path_end_cursor == 0,
            r.next_hop is None,
            r.destination == destination,
            r.wf(),
    {
        let mut path: Vec<Did> = Vec::new();
        path.push(origin);
        MessageRelay {
            method: RelayMethod::Send,
            path,
            path_end_cursor: 0,
            next_hop: None,
            destination,
        }
    }

    /// Whether `d` already stands on the path.
    pub fn path_has(&self, d: &Did) -> (r: bool)
        ensures
            r == path_contains(self.path@, *d),
    {
        let mut i: usize = 0;
        let n = self.path.len();
        while i < n
            invariant
                i <= n,
                n == self.path@.len(),
                forall|j: int| 0 <= j < i ==> self.path@[j] != *d,
            decreases n - i,
        {
            if self.path[i].hi == d.hi && self.path[i].lo == d.lo {
                proof {
                    assert(self.path@[i as int] == *d);
                }
                return true;
            }
            i = i + 1;
        }
        false
    }

    /// One SEND hop at `me`: records `me` on the path and the chosen next
    /// hop. Fails with a routing loop when `me` has already been visited.
    pub fn forward_step(&mut self, me: Did, next_hop: Option<Did>) -> (r: Result<(), ()>)
        requires
            old(self).method == RelayMethod::Send,
        ensures
            path_contains(old(self).path@, me) ==> r is Err && *final(self) == *old(self),
            !path_contains(old(self).path@, me) ==> r is Ok && *final(self) == (MessageRelay {
                path: final(self).path,
                next_hop,
                ..*old(self)
            }) && final(self).path@ =~= old(self).path@.push(me),
    {
        if self.path_has(&me) {
            return Err(());
        }
        self.path.push(me);
        self.next_hop = next_hop;
        Ok(())
    }

    /// The hop a REPORT should take next: the previous path entry, read
    /// backward without mutating the path. `None` once the origin is
    /// reached.
    pub fn report_next_hop(&self) -> (r: Option<Did>)
        requires
            self.wf(),
        ensures
            report_pos(self.path@, self.path_end_cursor as int) >= 1 ==> r == Some(
                self.path@[report_pos(self.path@, self.path_end_cursor as int) - 1],
            ),
            report_pos(self.path@, self.path_end_cursor as int) == 0 ==> r is None,
    {
        let pos = self.path.len() - 1 - self.path_end_cursor;
        if pos >= 1 {
            Some(self.path[pos - 1])
        } else {
            None
        }
    }

    /// One REPORT hop: advances the cursor one step backward.
    pub fn report_step(&mut self)
        requires
            old(self).wf(),
            old(self).method == RelayMethod::Report,
            report_pos(old(self).path@, old(self).path_end_cursor as int) >= 1,
        ensures
            *final(self) == (MessageRelay {
                path_end_cursor: (old(self).path_end_cursor + 1) as usize,
                ..*old(self)
            }),
            final(self).wf(),
            report_remaining(final(self).path@, final(self).path_end_cursor as int)
                =~= report_remaining(
                old(self).path@,
                old(self).path_end_cursor as int,
            ).drop_first(),
    {
        let n = self.path.len();
        self.path_end_cursor = self.path_end_cursor + 1;
    }

    /// The REPORT answering this SEND: same path, same origin as the new
    /// destination, cursor reset to the far end.
    pub fn report(&self) -> (r: MessageRelay)
        requires
            self.wf(),
            self.method == RelayMethod::Send,
        ensures
            r.method == RelayMethod::Report,
            r.path@ == self.path@,
            r.path_end_cursor == 0,
            r.destination == self.path@[0],
            r.wf(),
            report_remaining(r.path@, 0) =~= self.path@.take(self.path@.len() - 1).reverse(),
    {
        let origin = self.path[0];
        let mut path: Vec<Did> = Vec::new();
        let n = self.path.len();
        let mut i: usize = 0;
        while i < n
            invariant
                i <= n,
                n == self.path@.len(),
                path@ =~= self.path@.subrange(0, i as int),
            decreases n - i,
        {
            path.push(self.path[i]);
            proof {
                assert(path@ =~= self.path@.subrange(0, i + 1));
            }
            i = i + 1;
        }
        proof {
            assert(self.path@.subrange(0, n as int) =~= self.path@);
        }
        MessageRelay {
            method: RelayMethod::Report,
            path,
            path_end_cursor: 0,
            next_hop: None,
            destination: origin,
        }
    }
}

/// A REPORT answering a SEND that travelled `path` visits exactly the
/// forward path in reverse, the destination left out.
pub proof fn lemma_report_reversal(path: Seq<Did>)
    requires
        path.len() >= 1,
    ensures
        report_remaining(path, 0) =~= path.take(path.len() - 1).reverse(),
{
}

} // verus!
