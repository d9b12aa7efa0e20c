use vstd::prelude::*;

verus! {

/// A globally unique endpoint identifier, compared only for equality.
#[derive(Clone, Copy, Debug, PartialEq, Eq, Structural)]
pub struct Gid {
    pub value: u128,
}

/// The correlation key of one call: the requester's identity and its sequence number.
#[derive(Clone, Copy, Debug, PartialEq, Eq, Structural)]
pub struct RequestId {
    pub writer: Gid,
    pub seq: u64,
}

/// A request envelope: the correlation key and the encoded payload.
#[derive(Debug)]
pub struct Request {
    pub id: RequestId,
    pub payload: Vec<u8>,
}

/// A response envelope: the key of the request it answers and the encoded payload.
#[derive(Debug)]
pub struct Response {
    pub id: RequestId,
    pub payload: Vec<u8>,
}

/// Errors of the service layer.
#[derive(Clone, Copy, Debug, PartialEq, Eq, Structural)]
pub enum ServiceError {
    /// The transport failed to write the request.
    TransportError,
}

/// The first sequence number that a client hands out.
pub const FIRST_SEQUENCE_NUMBER: u64 = 1;

/// The requesting side of a service: it tags each request and matches replies to them.
pub struct Client {
    id: Gid,
    next_seq: u64,
    pending: Vec<u64>,
}

impl Client {
    /// Every pending number was handed out by this client, and none is pending twice.
    pub closed spec fn wf(&self) -> bool {
        &&& FIRST_SEQUENCE_NUMBER <= self.next_seq
        &&& forall|i: int| 0 <= i < self.pending@.len() ==> FIRST_SEQUENCE_NUMBER <= #[trigger] self.pending@[i] < self.next_seq
        &&& self.pending@.no_duplicates()
    }

    pub closed spec fn identity(&self) -> Gid {
        self.id
    }

    /// The sequence number that the next request will carry.
    pub closed spec fn counter(&self) -> u64 {
        self.next_seq
    }

    /// The sequence numbers handed out so far.
    pub open spec fn issued(&self) -> Set<u64> {
        Set::new(|s: u64| FIRST_SEQUENCE_NUMBER <= s < self.counter())
    }

    /// Whether a reply with this sequence number is still awaited.
    pub closed spec fn is_pending(&self, s: u64) -> bool {
        self.pending@.contains(s)
    }

    /// Whether a reply carrying `id` is one that this client surfaces.
    pub open spec fn matches(&self, id: RequestId) -> bool {
        id.writer == self.identity() && self.is_pending(id.seq)
    }

    /// Every reply still awaited answers a number this client handed out.
    pub proof fn lemma_pending_issued(&self, s: u64)
        requires
            self.wf(),
            self.is_pending(s),
        ensures
            self.issued().contains(s),
    {
        let k = choose|k: int| 0 <= k < self.pending@.len() && self.pending@[k] == s;
        assert(self.pending@[k] < self.next_seq);
    }

    pub fn new(id: Gid) -> (r: Client)
        ensures
            r.wf(),
            r.identity() == id,
            r.counter() == FIRST_SEQUENCE_NUMBER,
            r.issued() == Set::<u64>::empty(),
            forall|s: u64| !r.is_pending(s),
    {
        let r = Client { id, next_seq: FIRST_SEQUENCE_NUMBER, pending: Vec::new() };
        assert(r.issued() =~= Set::<u64>::empty());
        r
    }

    pub fn local_identity(&self) -> (r: Gid)
        ensures
            r == self.identity(),
    {
        self.id
    }

    /// Whether the sequence numbers are not yet exhausted.
    pub fn can_send(&self) -> (r: bool)
        ensures
            r == (self.counter() < u64::MAX),
    {
        self.next_seq < u64::MAX
    }

    /// Hands out a number greater than every number handed out before.
    pub fn new_sequence_number(&mut self) -> (r: u64)
        requires
            old(self).wf(),
            old(self).counter() < u64::MAX,
        ensures
            final(self).wf(),
            r == old(self).counter(),
            final(self).counter() == r + 1,
            !old(self).issued().contains(r),
            final(self).issued() == old(self).issued().insert(r),
            final(self).identity() == old(self).identity(),
            forall|s: u64| final(self).is_pending(s) == old(self).is_pending(s),
    {
        let r = self.next_seq;
        self.next_seq = self.next_seq + 1;
        assert(self.issued() =~= old(self).issued().insert(r));
        r
    }

    /// Tags a payload with a fresh key and records the key as awaiting its reply.
    pub fn send_request(&mut self, payload: Vec<u8>) -> (r: Request)
        requires
            old(self).wf(),
            old(self).counter() < u64::MAX,
        ensures
            final(self).wf(),
            r.id.writer == old(self).identity(),
            r.id.seq == old(self).counter(),
            final(self).counter() == old(self).counter() + 1,
            r.payload@ == payload@,
            !old(self).issued().contains(r.id.seq),
            final(self).issued() == old(self).issued().insert(r.id.seq),
            final(self).identity() == old(self).identity(),
            forall|s: u64| final(self).is_pending(s) == (old(self).is_pending(s) || s == r.id.seq),
    {
        let seq = self.next_seq;
        self.next_seq = seq + 1;
        self.pending.push(seq);
        assert(self.issued() =~= old(self).issued().insert(seq));
        assert forall|s: u64| self.is_pending(s) == (old(self).is_pending(s) || s == seq) by {
            if s == seq {
                assert(self.pending@[self.pending@.len() - 1] == s);
            }
            if old(self).is_pending(s) {
                let k = choose|k: int| 0 <= k < old(self).pending@.len() && old(self).pending@[k] == s;
                assert(self.pending@[k] == s);
            }
        }
        Request { id: RequestId { writer: self.id, seq }, payload }
    }

    /// Drops the wait for one reply. Returns whether it was awaited.
    pub fn abandon(&mut self, id: RequestId) -> (r: bool)
        requires
            old(self).wf(),
        ensures
            final(self).wf(),
            r == old(self).matches(id),
            final(self).identity() == old(self).identity(),
            final(self).counter() == old(self).counter(),
            forall|s: u64|
                final(self).is_pending(s) == (old(self).is_pending(s) && !(r && s == id.seq)),
    {
        if id.writer != self.id {
            return false;
        }
        let mut i: usize = 0;
        while i < self.pending.len()
            invariant
                self.wf(),
                *self == *old(self),
                id.writer == old(self).id,
                0 <= i <= self.pending@.len(),
                forall|j: int| 0 <= j < i ==> self.pending@[j] != id.seq,
            decreases self.pending@.len() - i,
        {
            if self.pending[i] == id.seq {
                let ghost before = self.pending@;
                assert(old(self).pending@[i as int] == id.seq);
                assert(old(self).is_pending(id.seq));
                assert(old(self).matches(id));
                self.pending.remove(i);
                assert forall|s: u64|
                    self.is_pending(s) == (old(self).is_pending(s) && s != id.seq) by {
                    if self.is_pending(s) {
                        let k = choose|k: int| 0 <= k < self.pending@.len() && self.pending@[k] == s;
                        if k < i {
                            assert(before[k] == s);
                        } else {
                            assert(before[k + 1] == s);
                        }
                    }
                    if old(self).is_pending(s) && s != id.seq {
                        let k = choose|k: int| 0 <= k < before.len() && before[k] == s;
                        if k < i {
                            assert(self.pending@[k] == s);
                        } else {
                            assert(self.pending@[k - 1] == s);
                        }
                    }
                }
                return true;
            }
            i = i + 1;
        }
        false
    }

    /// Settles a send once the transport has answered: on a failed write the
    /// request's key is no longer awaited and the error is returned.
    pub fn complete_send(&mut self, id: RequestId, written: bool) -> (r: Result<RequestId, ServiceError>)
        requires
            old(self).wf(),
        ensures
            final(self).wf(),
            written ==> r == Ok::<RequestId, ServiceError>(id) && *final(self) == *old(self),
            !written ==> r == Err::<RequestId, ServiceError>(ServiceError::TransportError),
            !written ==> !final(self).matches(id),
            final(self).identity() == old(self).identity(),
            final(self).counter() == old(self).counter(),
            forall|s: u64|
                final(self).is_pending(s) == (old(self).is_pending(s) && (written || !(
                id.writer == old(self).identity() && s == id.seq))),
    {
        if written {
            Ok(id)
        } else {
            self.abandon(id);
            Err(ServiceError::TransportError)
        }
    }

    /// Surfaces a reply only when it answers a request of this client that is
    /// still awaited, and stops awaiting it; any other reply is discarded.
    pub fn receive_response(&mut self, resp: Response) -> (r: Option<Response>)
        requires
            old(self).wf(),
        ensures
            final(self).wf(),
            r is Some <==> old(self).matches(resp.id),
            r is Some ==> r->0.id == resp.id && r->0.payload@ == resp.payload@,
            !final(self).matches(resp.id),
            final(self).identity() == old(self).identity(),
            final(self).counter() == old(self).counter(),
            forall|s: u64|
                final(self).is_pending(s) == (old(self).is_pending(s) && !(r is Some && s
                    == resp.id.seq)),
    {
        if self.abandon(resp.id) {
            Some(resp)
        } else {
            None
        }
    }

    /// Drains a batch of replies: surfaces those that answer a still-awaited
    /// request of this client, in arrival order, each key at most once.
    pub fn receive_responses(&mut self, inbox: Vec<Response>) -> (out: Vec<Response>)
        requires
            old(self).wf(),
        ensures
            final(self).wf(),
            final(self).identity() == old(self).identity(),
            final(self).counter() == old(self).counter(),
            forall|j: int| 0 <= j < out@.len() ==> old(self).matches(#[trigger] out@[j].id),
            forall|j: int, l: int|
                0 <= j < l < out@.len() ==> out@[j].id != out@[l].id,
            forall|i: int|
                0 <= i < inbox@.len() && old(self).matches(#[trigger] inbox@[i].id) ==> exists|j: int|
                    0 <= j < out@.len() && out@[j].id == inbox@[i].id,
            forall|j: int| 0 <= j < out@.len() ==> !final(self).matches(#[trigger] out@[j].id),
            forall|s: u64|
                final(self).is_pending(s) == (old(self).is_pending(s) && !exists|j: int|
                    0 <= j < out@.len() && (#[trigger] out@[j]).id.seq == s),
    {
        let ghost orig = inbox@;
        let mut inbox = inbox;
        let mut out: Vec<Response> = Vec::new();
        let ghost mut k: int = 0;
        while inbox.len() > 0
            invariant
                self.wf(),
                self.identity() == old(self).identity(),
                self.counter() == old(self).counter(),
                0 <= k <= orig.len(),
                inbox@ == orig.subrange(k, orig.len() as int),
                forall|j: int| 0 <= j < out@.len() ==> old(self).matches(#[trigger] out@[j].id),
                forall|j: int| 0 <= j < out@.len() ==> !self.matches(#[trigger] out@[j].id),
                forall|j: int| 0 <= j < out@.len() ==> (#[trigger] out@[j]).id.writer == self.identity(),
                forall|j: int, l: int|
                    0 <= j < l < out@.len() ==> out@[j].id != out@[l].id,
                forall|i: int|
                    0 <= i < k && old(self).matches(#[trigger] orig[i].id) ==> exists|j: int|
                        0 <= j < out@.len() && out@[j].id == orig[i].id,
                forall|s: u64|
                    self.is_pending(s) == (old(self).is_pending(s) && !exists|j: int|
                        0 <= j < out@.len() && (#[trigger] out@[j]).id.seq == s),
            decreases inbox@.len(),
        {
            let resp = inbox.remove(0);
            assert(resp == orig[k]);
            let ghost pre = *self;
            let ghost out0 = out@;
            let ghost rid = resp.id;
            let got = self.receive_response(resp);
            match got {
                Some(r) => {
                    out.push(r);
                    assert(out@[out@.len() - 1].id == rid);
                },
                None => {},
            }
            assert forall|s: u64|
                self.is_pending(s) == (old(self).is_pending(s) && !exists|j: int|
                    0 <= j < out@.len() && (#[trigger] out@[j]).id.seq == s) by {
                if exists|j: int| 0 <= j < out@.len() && (#[trigger] out@[j]).id.seq == s {
                    let j = choose|j: int| 0 <= j < out@.len() && (#[trigger] out@[j]).id.seq == s;
                    if j < out0.len() {
                        assert(out0[j].id.seq == s);
                    }
                }
                if old(self).is_pending(s) && !exists|j: int|
                    0 <= j < out@.len() && (#[trigger] out@[j]).id.seq == s {
                    assert forall|j: int| 0 <= j < out0.len() implies (#[trigger] out0[j]).id.seq != s by {
                        assert(out@[j] == out0[j]);
                    }
                }
            }
            assert forall|i: int|
                0 <= i < k + 1 && old(self).matches(#[trigger] orig[i].id) implies exists|j: int|
                    0 <= j < out@.len() && out@[j].id == orig[i].id by {
                if i < k {
                    let j = choose|j: int| 0 <= j < out0.len() && out0[j].id == orig[i].id;
                    assert(out@[j] == out0[j]);
                } else if !pre.matches(rid) {
                    assert(old(self).is_pending(rid.seq));
                    let j = choose|j: int| 0 <= j < out0.len() && (#[trigger] out0[j]).id.seq == rid.seq;
                    assert(out@[j] == out0[j]);
                } else {
                    assert(out@[out@.len() - 1].id == rid);
                }
            }
            proof {
                k = k + 1;
            }
        }
        out
    }
}

/// The last `n` elements of `s` (all of them when it is shorter).
pub open spec fn keep_last(s: Seq<RequestId>, n: nat) -> Seq<RequestId> {
    if s.len() > n {
        s.subrange(s.len() - n, s.len() as int)
    } else {
        s
    }
}

/// The answering side of a service. It remembers the keys of the most
/// recent requests, up to a fixed number, to suppress their redelivery.
pub struct Server {
    id: Gid,
    recent: Vec<RequestId>,
    capacity: usize,
}

impl Server {
    pub closed spec fn wf(&self) -> bool {
        self.recent@.len() <= self.capacity
    }

    pub closed spec fn identity(&self) -> Gid {
        self.id
    }

    /// The keys remembered, oldest first.
    pub closed spec fn history(&self) -> Seq<RequestId> {
        self.recent@
    }

    /// How many keys are remembered at most.
    pub closed spec fn window(&self) -> nat {
        self.capacity as nat
    }

    pub fn new(id: Gid, capacity: usize) -> (r: Server)
        ensures
            r.wf(),
            r.identity() == id,
            r.history() == Seq::<RequestId>::empty(),
            r.window() == capacity,
    {
        Server { id, recent: Vec::new(), capacity }
    }

    pub fn local_identity(&self) -> (r: Gid)
        ensures
            r == self.identity(),
    {
        self.id
    }

    /// Hands a request to the application unless its key is among the
    /// remembered ones; a delivered key is remembered, the oldest forgotten
    /// once the window is full.
    pub fn receive_request(&mut self, req: Request) -> (r: Option<Request>)
        requires
            old(self).wf(),
        ensures
            final(self).wf(),
            final(self).identity() == old(self).identity(),
            final(self).window() == old(self).window(),
            r is Some <==> !old(self).history().contains(req.id),
            r is Some ==> r->0.id == req.id && r->0.payload@ == req.payload@,
            r is Some ==> final(self).history() == keep_last(
                old(self).history().push(req.id),
                old(self).window(),
            ),
            r is None ==> final(self).history() == old(self).history(),
    {
        let mut i: usize = 0;
        while i < self.recent.len()
            invariant
                *self == *old(self),
                self.wf(),
                0 <= i <= self.recent@.len(),
                forall|j: int| 0 <= j < i ==> self.recent@[j] != req.id,
            decreases self.recent@.len() - i,
        {
            if self.recent[i] == req.id {
                assert(self.recent@[i as int] == req.id);
                return None;
            }
            i = i + 1;
        }
        self.recent.push(req.id);
        if self.recent.len() > self.capacity {
            self.recent.remove(0);
            assert(self.recent@ =~= keep_last(old(self).recent@.push(req.id), self.capacity as nat));
        }
        Some(req)
    }

    /// Answers a request: the reply carries the given key unchanged.
    pub fn send_response(&self, id: RequestId, payload: Vec<u8>) -> (r: Response)
        ensures
            r.id == id,
            r.payload@ == payload@,
    {
        Response { id, payload }
    }
}

/// Clients with different identities never both accept one reply, so a reply
/// on a shared topic reaches at most the client that sent its request.
pub proof fn lemma_no_cross_delivery(a: Client, b: Client, id: RequestId)
    requires
        a.identity() != b.identity(),
    ensures
        !(a.matches(id) && b.matches(id)),
{
}

} // verus!
