//! The in-flight table: per-session tracking of packet identifiers that
//! await a peer acknowledgement (outbound) or are being processed
//! locally (inbound), with uniqueness, bounded concurrency, and
//! reclamation on completion or teardown.

use vstd::prelude::*;

use crate::error::ProtocolError;

verus! {

/// Tracks the identifiers in flight on one connection.
///
/// Two independent namespaces: outbound-pending identifiers this side
/// allocated (each with the packet-type nibble of the acknowledgement
/// it awaits, recorded as correlation context), and inbound-processing
/// identifiers the peer allocated.
pub struct InFlightTable {
    free: Vec<u16>,
    outbound: Vec<(u16, u8)>,
    inbound: Vec<u16>,
    max_inflight: u16,
}

impl InFlightTable {
    /// The identifiers currently awaiting an acknowledgement, in
    /// allocation order.
    pub closed spec fn outbound_ids(&self) -> Seq<u16> {
        self.outbound@.map_values(|p: (u16, u8)| p.0)
    }

    /// Whether `id` awaits an acknowledgement.
    pub open spec fn has_pending(&self, id: u16) -> bool {
        self.outbound_ids().contains(id)
    }

    /// How many identifiers await an acknowledgement.
    pub closed spec fn pending_count(&self) -> nat {
        self.outbound@.len()
    }

    /// Index of `id` in the outbound namespace.
    pub closed spec fn outbound_index_of(&self, id: u16) -> int {
        choose|k: int| 0 <= k < self.outbound@.len() && self.outbound@[k].0 == id
    }

    /// The correlation context recorded when `id` was allocated.
    pub closed spec fn context_of(&self, id: u16) -> u8 {
        self.outbound@[self.outbound_index_of(id)].1
    }

    /// Whether the peer-allocated `id` is reserved for local processing.
    pub closed spec fn has_reserved(&self, id: u16) -> bool {
        self.inbound@.contains(id)
    }

    /// The configured bound on concurrently outstanding outbound
    /// identifiers.
    pub closed spec fn capacity(&self) -> u16 {
        self.max_inflight
    }

    /// The table's internal invariant: identifiers are non-zero and
    /// unique in each namespace, and the free pool and the pending set
    /// partition the identifier space `1..=capacity`.
    pub closed spec fn wf(&self) -> bool {
        &&& self.free@.no_duplicates()
        &&& self.outbound_ids().no_duplicates()
        &&& self.inbound@.no_duplicates()
        &&& forall|k: int|
            0 <= k < self.free@.len() ==> 1 <= #[trigger] self.free@[k] <= self.max_inflight
        &&& forall|k: int|
            0 <= k < self.outbound@.len() ==> 1 <= (#[trigger] self.outbound@[k]).0
                <= self.max_inflight
        &&& forall|id: u16| self.free@.contains(id) ==> !self.outbound_ids().contains(id)
        &&& self.free@.len() + self.outbound@.len() == self.max_inflight
    }

    /// Where `id` sits in the outbound namespace; `has_pending` gives a
    /// valid index, and under `wf` it is the only one.
    proof fn lemma_index(&self, id: u16)
        requires
            self.wf(),
            self.has_pending(id),
        ensures
            0 <= self.outbound_index_of(id) < self.outbound@.len(),
            self.outbound@[self.outbound_index_of(id)].0 == id,
            forall|k: int|
                0 <= k < self.outbound@.len() && (#[trigger] self.outbound@[k]).0 == id
                    ==> k == self.outbound_index_of(id),
    {
        let j = choose|j: int| 0 <= j < self.outbound_ids().len() && self.outbound_ids()[j] == id;
        assert(self.outbound@[j].0 == id);
        let c = self.outbound_index_of(id);
        assert(self.outbound_ids()[c] == id);
        assert forall|k: int|
            0 <= k < self.outbound@.len() && (#[trigger] self.outbound@[k]).0 == id implies k
            == c by {
            assert(self.outbound_ids()[k] == id);
            if k != c {
                assert(self.outbound_ids()[k] != self.outbound_ids()[c]);
            }
        }
    }

    /// A fresh table with the given in-flight bound and nothing pending.
    pub fn new(max_inflight: u16) -> (r: InFlightTable)
        ensures
            r.wf(),
            r.capacity() == max_inflight,
            r.pending_count() == 0,
            forall|id: u16| !r.has_pending(id),
            forall|id: u16| !r.has_reserved(id),
    {
        let free = fill_identifier_pool(max_inflight);
        let r = InFlightTable { free, outbound: Vec::new(), inbound: Vec::new(), max_inflight };
        proof {
            assert(r.outbound_ids() =~= Seq::<u16>::empty());
        }
        r
    }

    /// Allocates a fresh non-zero identifier and records the expected
    /// acknowledgement context, or reports backpressure — the readiness
    /// error, not a hard protocol violation — once the configured
    /// in-flight maximum is reached.
    pub fn allocate(&mut self, ack_context: u8) -> (r: Result<u16, ProtocolError>)
        requires
            old(self).wf(),
        ensures
            final(self).wf(),
            final(self).capacity() == old(self).capacity(),
            match r {
                Result::Ok(id) => {
                    &&& 1 <= id <= old(self).capacity()
                    &&& !old(self).has_pending(id)
                    &&& final(self).has_pending(id)
                    &&& final(self).context_of(id) == ack_context
                    &&& old(self).pending_count() < old(self).capacity()
                    &&& final(self).pending_count() == old(self).pending_count() + 1
                    &&& forall|x: u16|
                        x != id ==> (final(self).has_pending(x) <==> old(self).has_pending(x))
                    &&& forall|x: u16|
                        x != id && old(self).has_pending(x) ==> final(self).context_of(x) == old(
                            self,
                        ).context_of(x)
                    &&& forall|x: u16| final(self).has_reserved(x) <==> old(self).has_reserved(x)
                },
                Result::Err(e) => {
                    &&& e is PublishReadyError
                    &&& old(self).pending_count() == old(self).capacity()
                    &&& final(self).pending_count() == old(self).pending_count()
                    &&& forall|x: u16| final(self).has_pending(x) <==> old(self).has_pending(x)
                    &&& forall|x: u16|
                        old(self).has_pending(x) ==> final(self).context_of(x) == old(
                            self,
                        ).context_of(x)
                    &&& forall|x: u16| final(self).has_reserved(x) <==> old(self).has_reserved(x)
                },
            },
    {
        let ghost pre = *self;
        match self.free.pop() {
            Option::None => Result::Err(ProtocolError::PublishReadyError),
            Option::Some(id) => {
                proof {
                    let last = pre.free@.len() - 1;
                    assert(pre.free@[last] == id);
                    assert(pre.free@.contains(id));
                    assert(!pre.outbound_ids().contains(id));
                }
                self.outbound.push((id, ack_context));
                proof {
                    let post = *self;
                    let n = pre.outbound@.len() as int;
                    assert(post.outbound_ids() =~= pre.outbound_ids().push(id));
                    assert forall|i: int, j: int|
                        0 <= i < post.outbound_ids().len() && 0 <= j < post.outbound_ids().len()
                            && i != j implies post.outbound_ids()[i] != post.outbound_ids()[j] by {
                        if i < n && j < n {
                            assert(post.outbound_ids()[i] == pre.outbound_ids()[i]);
                            assert(post.outbound_ids()[j] == pre.outbound_ids()[j]);
                        } else if i == n {
                            assert(post.outbound_ids()[i] == id);
                            if post.outbound_ids()[j] == id {
                                assert(pre.outbound_ids()[j] == id);
                                assert(pre.outbound_ids().contains(id));
                                assert(false);
                            }
                        } else {
                            assert(post.outbound_ids()[j] == id);
                            if post.outbound_ids()[i] == id {
                                assert(pre.outbound_ids()[i] == id);
                                assert(pre.outbound_ids().contains(id));
                                assert(false);
                            }
                        }
                    }
                    assert(post.outbound_ids().no_duplicates());
                    assert forall|x: u16| post.free@.contains(x) implies !post.outbound_ids()
                        .contains(x) by {
                        let j = choose|j: int| 0 <= j < post.free@.len() && post.free@[j] == x;
                        assert(pre.free@[j] == x);
                        assert(pre.free@.contains(x));
                        assert(x != id) by {
                            let last = pre.free@.len() - 1;
                            assert(pre.free@[last] == id);
                            if x == id {
                                assert(pre.free@[j] == pre.free@[last]);
                                assert(false);
                            }
                        }
                        if post.outbound_ids().contains(x) {
                            let m = choose|m: int|
                                0 <= m < post.outbound_ids().len() && post.outbound_ids()[m] == x;
                            assert(m < n);
                            assert(pre.outbound_ids()[m] == x);
                            assert(pre.outbound_ids().contains(x));
                            assert(false);
                        }
                    }
                    assert(post.outbound@[n].0 == id);
                    assert(post.has_pending(id)) by {
                        assert(post.outbound_ids()[n] == id);
                    }
                    assert(post.free@.no_duplicates()) by {
                        assert forall|i: int, j: int|
                            0 <= i < post.free@.len() && 0 <= j < post.free@.len() && i
                                != j implies post.free@[i] != post.free@[j] by {
                            assert(post.free@[i] == pre.free@[i]);
                            assert(post.free@[j] == pre.free@[j]);
                        }
                    }
                    assert(post.wf());
                    post.lemma_index(id);
                    assert(post.outbound_index_of(id) == n);
                    assert(post.context_of(id) == ack_context);
                    assert forall|x: u16| x != id && pre.has_pending(x) implies post.context_of(x)
                        == pre.context_of(x) by {
                        pre.lemma_index(x);
                        let k = pre.outbound_index_of(x);
                        assert(post.outbound@[k].0 == x);
                        assert(post.has_pending(x)) by {
                            assert(post.outbound_ids()[k] == x);
                        }
                        post.lemma_index(x);
                        assert(post.outbound_index_of(x) == k);
                    }
                    assert forall|x: u16| x != id && post.has_pending(x) implies pre.has_pending(
                        x,
                    ) by {
                        let m = choose|m: int|
                            0 <= m < post.outbound_ids().len() && post.outbound_ids()[m] == x;
                        assert(m < n);
                        assert(pre.outbound_ids()[m] == x);
                    }
                    assert forall|x: u16| x != id && pre.has_pending(x) implies post.has_pending(
                        x,
                    ) by {
                        let m = choose|m: int|
                            0 <= m < pre.outbound_ids().len() && pre.outbound_ids()[m] == x;
                        assert(post.outbound_ids()[m] == x);
                    }
                }
                Result::Ok(id)
            },
        }
    }

    /// Reserves a peer-allocated inbound identifier; a zero identifier
    /// is rejected before any lookup, and one already reserved is a
    /// duplicated-packet-identifier protocol violation.
    pub fn reserve(&mut self, id: u16) -> (r: Result<(), ProtocolError>)
        requires
            old(self).wf(),
        ensures
            final(self).wf(),
            final(self).capacity() == old(self).capacity(),
            match r {
                Result::Ok(()) => {
                    &&& id != 0
                    &&& !old(self).has_reserved(id)
                    &&& final(self).has_reserved(id)
                    &&& forall|x: u16|
                        x != id ==> (final(self).has_reserved(x) <==> old(self).has_reserved(x))
                    &&& forall|x: u16| final(self).has_pending(x) <==> old(self).has_pending(x)
                    &&& final(self).pending_count() == old(self).pending_count()
                },
                Result::Err(e) => {
                    &&& *final(self) == *old(self)
                    &&& if id == 0 {
                        e is PacketIdRequired
                    } else {
                        e is DuplicatedPacketId && old(self).has_reserved(id)
                    }
                },
            },
    {
        if id == 0 {
            return Result::Err(ProtocolError::PacketIdRequired);
        }
        if self.contains_inbound(id) {
            return Result::Err(ProtocolError::DuplicatedPacketId);
        }
        let ghost pre = *self;
        self.inbound.push(id);
        proof {
            let post = *self;
            let n = pre.inbound@.len() as int;
            assert(post.inbound@ =~= pre.inbound@.push(id));
            assert forall|i: int, j: int|
                0 <= i < post.inbound@.len() && 0 <= j < post.inbound@.len() && i != j implies post
                .inbound@[i] != post.inbound@[j] by {
                if i == n {
                    if post.inbound@[j] == id {
                        assert(pre.inbound@[j] == id);
                        assert(pre.inbound@.contains(id));
                        assert(false);
                    }
                } else if j == n {
                    if post.inbound@[i] == id {
                        assert(pre.inbound@[i] == id);
                        assert(pre.inbound@.contains(id));
                        assert(false);
                    }
                } else {
                    assert(post.inbound@[i] == pre.inbound@[i]);
                    assert(post.inbound@[j] == pre.inbound@[j]);
                }
            }
            assert(post.inbound@[n] == id);
            assert(post.has_reserved(id));
            assert forall|x: u16| x != id implies (post.has_reserved(x) <==> pre.has_reserved(
                x,
            )) by {
                if post.inbound@.contains(x) {
                    let j = choose|j: int| 0 <= j < post.inbound@.len() && post.inbound@[j] == x;
                    assert(j < n);
                    assert(pre.inbound@[j] == x);
                }
                if pre.inbound@.contains(x) {
                    let j = choose|j: int| 0 <= j < pre.inbound@.len() && pre.inbound@[j] == x;
                    assert(post.inbound@[j] == x);
                }
            }
        }
        Result::Ok(())
    }

    /// Whether the inbound namespace holds `id`.
    fn contains_inbound(&self, id: u16) -> (r: bool)
        ensures
            r == self.has_reserved(id),
    {
        let mut k: usize = 0;
        while k < self.inbound.len()
            invariant
                k <= self.inbound@.len(),
                forall|j: int| 0 <= j < k ==> #[trigger] self.inbound@[j] != id,
            decreases self.inbound@.len() - k,
        {
            if self.inbound[k] == id {
                return true;
            }
            k = k + 1;
        }
        false
    }

    /// Index of `id` in the outbound namespace, if pending.
    fn find_outbound(&self, id: u16) -> (r: Option<usize>)
        ensures
            match r {
                Option::Some(k) => k < self.outbound@.len() && self.outbound@[k as int].0 == id,
                Option::None => !self.has_pending(id),
            },
    {
        let mut k: usize = 0;
        while k < self.outbound.len()
            invariant
                k <= self.outbound@.len(),
                forall|j: int| 0 <= j < k ==> (#[trigger] self.outbound@[j]).0 != id,
            decreases self.outbound@.len() - k,
        {
            if self.outbound[k].0 == id {
                return Option::Some(k);
            }
            k = k + 1;
        }
        proof {
            if self.has_pending(id) {
                let j = choose|j: int|
                    0 <= j < self.outbound_ids().len() && self.outbound_ids()[j] == id;
                assert(self.outbound@[j].0 == id);
                assert(false);
            }
        }
        Option::None
    }

    /// Completes the pending send awaiting this acknowledgement.  A zero
    /// identifier is rejected before any table lookup; an identifier
    /// that is not pending, or whose recorded context does not match the
    /// acknowledgement, is a packet-identifier mismatch.  On success the
    /// identifier is released and immediately available for reuse.
    pub fn complete(&mut self, id: u16, ack_context: u8) -> (r: Result<(), ProtocolError>)
        requires
            old(self).wf(),
        ensures
            final(self).wf(),
            final(self).capacity() == old(self).capacity(),
            match r {
                Result::Ok(()) => {
                    &&& id != 0
                    &&& old(self).has_pending(id)
                    &&& old(self).context_of(id) == ack_context
                    &&& !final(self).has_pending(id)
                    &&& final(self).pending_count() == old(self).pending_count() - 1
                    &&& forall|x: u16|
                        x != id ==> (final(self).has_pending(x) <==> old(self).has_pending(x))
                    &&& forall|x: u16|
                        x != id && old(self).has_pending(x) ==> final(self).context_of(x) == old(
                            self,
                        ).context_of(x)
                    &&& forall|x: u16| final(self).has_reserved(x) <==> old(self).has_reserved(x)
                },
                Result::Err(e) => {
                    &&& *final(self) == *old(self)
                    &&& if id == 0 {
                        e is PacketIdRequired
                    } else {
                        e is PacketIdMismatch && (!old(self).has_pending(id) || old(
                            self,
                        ).context_of(id) != ack_context)
                    }
                },
            },
    {
        if id == 0 {
            return Result::Err(ProtocolError::PacketIdRequired);
        }
        let found = self.find_outbound(id);
        match found {
            Option::None => Result::Err(ProtocolError::PacketIdMismatch),
            Option::Some(k) => {
                proof {
                    assert(self.outbound_ids()[k as int] == id);
                    assert(self.has_pending(id));
                    self.lemma_index(id);
                    assert(self.outbound_index_of(id) == k as int);
                }
                if self.outbound[k].1 != ack_context {
                    return Result::Err(ProtocolError::PacketIdMismatch);
                }
                self.remove_outbound_at(k, id);
                Result::Ok(())
            },
        }
    }

    /// Releases an outbound identifier unconditionally; releasing one
    /// that is not pending does nothing.  Always succeeds.
    pub fn release(&mut self, id: u16)
        requires
            old(self).wf(),
        ensures
            final(self).wf(),
            final(self).capacity() == old(self).capacity(),
            !final(self).has_pending(id),
            forall|x: u16| x != id ==> (final(self).has_pending(x) <==> old(self).has_pending(x)),
            forall|x: u16|
                x != id && old(self).has_pending(x) ==> final(self).context_of(x) == old(
                    self,
                ).context_of(x),
            forall|x: u16| final(self).has_reserved(x) <==> old(self).has_reserved(x),
            final(self).pending_count() == if old(self).has_pending(id) {
                old(self).pending_count() - 1
            } else {
                old(self).pending_count() as int
            },
    {
        let found = self.find_outbound(id);
        match found {
            Option::None => {},
            Option::Some(k) => {
                proof {
                    assert(self.outbound_ids()[k as int] == id);
                }
                self.remove_outbound_at(k, id);
            },
        }
    }

    /// Frees the reservation of a peer-allocated inbound identifier.
    /// Always succeeds.
    pub fn release_inbound(&mut self, id: u16)
        requires
            old(self).wf(),
        ensures
            final(self).wf(),
            final(self).capacity() == old(self).capacity(),
            !final(self).has_reserved(id),
            forall|x: u16| x != id ==> (final(self).has_reserved(x) <==> old(self).has_reserved(x)),
            forall|x: u16| final(self).has_pending(x) <==> old(self).has_pending(x),
            final(self).pending_count() == old(self).pending_count(),
    {
        let found = self.find_inbound(id);
        match found {
            Option::None => {},
            Option::Some(k) => {
                let ghost pre = *self;
                self.inbound.remove(k);
                proof {
                    let post = *self;
                    assert(post.inbound@ =~= pre.inbound@.remove(k as int));
                    lemma_remove_keeps_no_duplicates(pre.inbound@, k as int);
                    assert(!post.inbound@.contains(id)) by {
                        if post.inbound@.contains(id) {
                            let j = choose|j: int|
                                0 <= j < post.inbound@.len() && post.inbound@[j] == id;
                            let sj = if j < k as int {
                                j
                            } else {
                                j + 1
                            };
                            assert(pre.inbound@[sj] == id);
                            assert(pre.inbound@[k as int] == id);
                            assert(sj != k as int);
                            assert(false);
                        }
                    }
                    assert forall|x: u16| x != id implies (post.has_reserved(x)
                        <==> pre.has_reserved(x)) by {
                        if post.inbound@.contains(x) {
                            let j = choose|j: int|
                                0 <= j < post.inbound@.len() && post.inbound@[j] == x;
                            let sj = if j < k as int {
                                j
                            } else {
                                j + 1
                            };
                            assert(pre.inbound@[sj] == x);
                        }
                        if pre.inbound@.contains(x) {
                            let j = choose|j: int|
                                0 <= j < pre.inbound@.len() && pre.inbound@[j] == x;
                            if j < k as int {
                                assert(post.inbound@[j] == x);
                            } else if j > k as int {
                                assert(post.inbound@[j - 1] == x);
                            } else {
                                assert(pre.inbound@[k as int] == id);
                            }
                        }
                    }
                }
            },
        }
    }

    /// Index of `id` in the inbound namespace, if reserved.
    fn find_inbound(&self, id: u16) -> (r: Option<usize>)
        ensures
            match r {
                Option::Some(k) => k < self.inbound@.len() && self.inbound@[k as int] == id,
                Option::None => !self.has_reserved(id),
            },
    {
        let mut k: usize = 0;
        while k < self.inbound.len()
            invariant
                k <= self.inbound@.len(),
                forall|j: int| 0 <= j < k ==> #[trigger] self.inbound@[j] != id,
            decreases self.inbound@.len() - k,
        {
            if self.inbound[k] == id {
                return Option::Some(k);
            }
            k = k + 1;
        }
        Option::None
    }

    /// Takes every identifier still awaiting an acknowledgement — the
    /// waiters that session teardown must force-fail — and resets the
    /// table, clearing both namespaces.
    pub fn drain_pending(&mut self) -> (r: Vec<u16>)
        requires
            old(self).wf(),
        ensures
            final(self).wf(),
            final(self).capacity() == old(self).capacity(),
            r@ == old(self).outbound_ids(),
            final(self).pending_count() == 0,
            forall|id: u16| !final(self).has_pending(id),
            forall|id: u16| !final(self).has_reserved(id),
    {
        let ghost pre = *self;
        let mut drained: Vec<u16> = Vec::new();
        let mut k: usize = 0;
        while k < self.outbound.len()
            invariant
                k <= self.outbound@.len(),
                *self == pre,
                drained@ =~= pre.outbound_ids().take(k as int),
            decreases self.outbound@.len() - k,
        {
            let entry = self.outbound[k].0;
            drained.push(entry);
            proof {
                assert(drained@ =~= pre.outbound_ids().take(k + 1));
            }
            k = k + 1;
        }
        proof {
            assert(pre.outbound_ids().take(pre.outbound_ids().len() as int) =~= pre.outbound_ids());
        }
        self.free = fill_identifier_pool(self.max_inflight);
        self.outbound = Vec::new();
        self.inbound = Vec::new();
        proof {
            assert(final(self).outbound_ids() =~= Seq::<u16>::empty());
        }
        drained
    }

    /// Whether `id` currently awaits an acknowledgement, computed.
    pub fn is_pending(&self, id: u16) -> (r: bool)
        ensures
            r == self.has_pending(id),
    {
        match self.find_outbound(id) {
            Option::Some(k) => {
                proof {
                    assert(self.outbound_ids()[k as int] == id);
                }
                true
            },
            Option::None => false,
        }
    }

    /// How many identifiers await an acknowledgement, computed.
    pub fn pending_len(&self) -> (r: usize)
        ensures
            r == self.pending_count(),
    {
        self.outbound.len()
    }

    /// For a multi-step acknowledgement sequence: matches the arriving
    /// acknowledgement like `complete`, but keeps the identifier in
    /// flight, now awaiting the next acknowledgement kind.
    pub fn reexpect(&mut self, id: u16, ack_context: u8, next_context: u8) -> (r: Result<
        (),
        ProtocolError,
    >)
        requires
            old(self).wf(),
        ensures
            final(self).wf(),
            final(self).capacity() == old(self).capacity(),
            match r {
                Result::Ok(()) => {
                    &&& id != 0
                    &&& old(self).has_pending(id)
                    &&& old(self).context_of(id) == ack_context
                    &&& final(self).has_pending(id)
                    &&& final(self).context_of(id) == next_context
                    &&& final(self).pending_count() == old(self).pending_count()
                    &&& forall|x: u16|
                        x != id ==> (final(self).has_pending(x) <==> old(self).has_pending(x))
                    &&& forall|x: u16|
                        x != id && old(self).has_pending(x) ==> final(self).context_of(x) == old(
                            self,
                        ).context_of(x)
                    &&& forall|x: u16| final(self).has_reserved(x) <==> old(self).has_reserved(x)
                },
                Result::Err(e) => {
                    &&& *final(self) == *old(self)
                    &&& if id == 0 {
                        e is PacketIdRequired
                    } else {
                        e is PacketIdMismatch && (!old(self).has_pending(id) || old(
                            self,
                        ).context_of(id) != ack_context)
                    }
                },
            },
    {
        if id == 0 {
            return Result::Err(ProtocolError::PacketIdRequired);
        }
        let found = self.find_outbound(id);
        match found {
            Option::None => Result::Err(ProtocolError::PacketIdMismatch),
            Option::Some(k) => {
                proof {
                    assert(self.outbound_ids()[k as int] == id);
                    assert(self.has_pending(id));
                    self.lemma_index(id);
                    assert(self.outbound_index_of(id) == k as int);
                }
                if self.outbound[k].1 != ack_context {
                    return Result::Err(ProtocolError::PacketIdMismatch);
                }
                let ghost pre = *self;
                self.outbound.remove(k);
                self.outbound.push((id, next_context));
                proof {
                    let post = *self;
                    let removed = pre.outbound@.remove(k as int);
                    let removed_ids = pre.outbound_ids().remove(k as int);
                    assert(post.outbound@ =~= removed.push((id, next_context)));
                    assert(removed.map_values(|p: (u16, u8)| p.0) =~= removed_ids);
                    assert(post.outbound_ids() =~= removed_ids.push(id));
                    lemma_remove_keeps_no_duplicates(pre.outbound_ids(), k as int);
                    assert(pre.outbound_ids()[k as int] == id);
                    let n = removed_ids.len() as int;
                    assert(!removed_ids.contains(id)) by {
                        if removed_ids.contains(id) {
                            let j = choose|j: int|
                                0 <= j < removed_ids.len() && removed_ids[j] == id;
                            let sj = if j < k as int {
                                j
                            } else {
                                j + 1
                            };
                            assert(pre.outbound_ids()[sj] == id);
                            assert(sj != k as int);
                            assert(false);
                        }
                    }
                    assert forall|i: int, j: int|
                        0 <= i < post.outbound_ids().len() && 0 <= j < post.outbound_ids().len()
                            && i != j implies post.outbound_ids()[i] != post.outbound_ids()[j] by {
                        if i < n && j < n {
                            assert(post.outbound_ids()[i] == removed_ids[i]);
                            assert(post.outbound_ids()[j] == removed_ids[j]);
                        } else if i == n {
                            if post.outbound_ids()[j] == id {
                                assert(removed_ids[j] == id);
                                assert(removed_ids.contains(id));
                                assert(false);
                            }
                        } else {
                            if post.outbound_ids()[i] == id {
                                assert(removed_ids[i] == id);
                                assert(removed_ids.contains(id));
                                assert(false);
                            }
                        }
                    }
                    assert(post.outbound_ids().no_duplicates());
                    assert forall|x: u16| x != id implies (post.has_pending(x) <==> pre.has_pending(
                        x,
                    )) by {
                        if post.outbound_ids().contains(x) {
                            let j = choose|j: int|
                                0 <= j < post.outbound_ids().len() && post.outbound_ids()[j] == x;
                            assert(j < n);
                            let sj = if j < k as int {
                                j
                            } else {
                                j + 1
                            };
                            assert(pre.outbound_ids()[sj] == x);
                        }
                        if pre.outbound_ids().contains(x) {
                            let j = choose|j: int|
                                0 <= j < pre.outbound_ids().len() && pre.outbound_ids()[j] == x;
                            if j < k as int {
                                assert(post.outbound_ids()[j] == x);
                            } else if j > k as int {
                                assert(post.outbound_ids()[j - 1] == x);
                            } else {
                                assert(pre.outbound_ids()[k as int] == id);
                            }
                        }
                    }
                    assert(post.has_pending(id)) by {
                        assert(post.outbound_ids()[n] == id);
                    }
                    assert forall|x: u16| post.free@.contains(x) implies !post.outbound_ids()
                        .contains(x) by {
                        assert(pre.free@.contains(x));
                        assert(!pre.outbound_ids().contains(x));
                        if post.outbound_ids().contains(x) {
                            let j = choose|j: int|
                                0 <= j < post.outbound_ids().len() && post.outbound_ids()[j] == x;
                            if j < n {
                                let sj = if j < k as int {
                                    j
                                } else {
                                    j + 1
                                };
                                assert(pre.outbound_ids()[sj] == x);
                                assert(false);
                            } else {
                                assert(x == id);
                                assert(pre.outbound_ids().contains(id));
                                assert(false);
                            }
                        }
                    }
                    assert forall|m: int|
                        0 <= m < post.outbound@.len() implies 1 <= (#[trigger] post.outbound@[m]).0
                        <= post.max_inflight by {
                        if m < n {
                            let sm = if m < k as int {
                                m
                            } else {
                                m + 1
                            };
                            assert(post.outbound@[m] == pre.outbound@[sm]);
                        } else {
                            assert(post.outbound@[m].0 == id);
                            assert((pre.outbound@[k as int]).0 == id);
                        }
                    }
                    assert(post.wf());
                    post.lemma_index(id);
                    assert(post.outbound_index_of(id) == n);
                    assert(post.context_of(id) == next_context);
                    assert forall|x: u16| x != id && pre.has_pending(x) implies post.context_of(x)
                        == pre.context_of(x) by {
                        pre.lemma_index(x);
                        let c1 = pre.outbound_index_of(x);
                        assert(post.has_pending(x));
                        post.lemma_index(x);
                        let c2 = post.outbound_index_of(x);
                        assert(c2 != n) by {
                            assert(post.outbound@[n].0 == id);
                        }
                        let s2 = if c2 < k as int {
                            c2
                        } else {
                            c2 + 1
                        };
                        assert(post.outbound@[c2] == pre.outbound@[s2]);
                        assert(pre.outbound@[s2].0 == x);
                        assert(s2 == c1);
                    }
                }
                Result::Ok(())
            },
        }
    }

    /// Removes the outbound entry at `k`, which holds `id`, and returns
    /// the identifier to the free pool.
    fn remove_outbound_at(&mut self, k: usize, id: u16)
        requires
            old(self).wf(),
            k < old(self).outbound@.len(),
            old(self).outbound@[k as int].0 == id,
        ensures
            final(self).wf(),
            final(self).capacity() == old(self).capacity(),
            !final(self).has_pending(id),
            final(self).pending_count() == old(self).pending_count() - 1,
            forall|x: u16| x != id ==> (final(self).has_pending(x) <==> old(self).has_pending(x)),
            forall|x: u16|
                x != id && old(self).has_pending(x) ==> final(self).context_of(x) == old(
                    self,
                ).context_of(x),
            forall|x: u16| final(self).has_reserved(x) <==> old(self).has_reserved(x),
    {
        let ghost pre = *self;
        self.outbound.remove(k);
        self.free.push(id);
        proof {
            let post = *self;
            assert(post.outbound@ =~= pre.outbound@.remove(k as int));
            assert(post.outbound_ids() =~= pre.outbound_ids().remove(k as int));
            lemma_remove_keeps_no_duplicates(pre.outbound_ids(), k as int);
            assert(pre.outbound_ids()[k as int] == id);
            assert(!pre.free@.contains(id)) by {
                if pre.free@.contains(id) {
                    assert(!pre.outbound_ids().contains(id));
                    assert(false);
                }
            }
            assert forall|x: u16| post.outbound_ids().contains(x) implies pre.outbound_ids()
                .contains(x) && x != id by {
                let j = choose|j: int|
                    0 <= j < post.outbound_ids().len() && post.outbound_ids()[j] == x;
                let sj = if j < k as int {
                    j
                } else {
                    j + 1
                };
                assert(pre.outbound_ids()[sj] == x);
                if x == id {
                    assert(pre.outbound_ids()[sj] == pre.outbound_ids()[k as int]);
                    assert(sj != k as int);
                    assert(false);
                }
            }
            assert forall|x: u16| x != id && pre.outbound_ids().contains(x) implies post
                .outbound_ids().contains(x) by {
                let j = choose|j: int|
                    0 <= j < pre.outbound_ids().len() && pre.outbound_ids()[j] == x;
                if j < k as int {
                    assert(post.outbound_ids()[j] == x);
                } else if j > k as int {
                    assert(post.outbound_ids()[j - 1] == x);
                } else {
                    assert(pre.outbound_ids()[k as int] == id);
                }
            }
            assert(post.free@.no_duplicates()) by {
                let n = pre.free@.len() as int;
                assert forall|i: int, j: int|
                    0 <= i < post.free@.len() && 0 <= j < post.free@.len() && i != j implies post
                    .free@[i] != post.free@[j] by {
                    if i < n && j < n {
                        assert(post.free@[i] == pre.free@[i]);
                        assert(post.free@[j] == pre.free@[j]);
                    } else if j == n {
                        assert(post.free@[j] == id);
                        assert(post.free@[i] == pre.free@[i]);
                        if post.free@[i] == id {
                            assert(pre.free@.contains(id));
                            assert(false);
                        }
                    } else {
                        assert(post.free@[i] == id);
                        assert(post.free@[j] == pre.free@[j]);
                        if post.free@[j] == id {
                            assert(pre.free@.contains(id));
                            assert(false);
                        }
                    }
                }
            }
            assert forall|x: u16| post.free@.contains(x) implies !post.outbound_ids().contains(
                x,
            ) by {
                let n = pre.free@.len() as int;
                let j = choose|j: int| 0 <= j < post.free@.len() && post.free@[j] == x;
                if j < n {
                    assert(pre.free@[j] == x);
                    assert(pre.free@.contains(x));
                    assert(!pre.outbound_ids().contains(x));
                    if post.outbound_ids().contains(x) {
                        assert(pre.outbound_ids().contains(x));
                        assert(false);
                    }
                } else {
                    assert(x == id);
                    if post.outbound_ids().contains(id) {
                        assert(false);
                    }
                }
            }
            assert(1 <= id <= pre.max_inflight) by {
                assert((pre.outbound@[k as int]).0 == id);
            }
            assert forall|x: u16| x != id && pre.has_pending(x) implies post.context_of(x)
                == pre.context_of(x) by {
                pre.lemma_index(x);
                let c1 = pre.outbound_index_of(x);
                assert(post.has_pending(x));
                post.lemma_index(x);
                let c2 = post.outbound_index_of(x);
                let s2 = if c2 < k as int {
                    c2
                } else {
                    c2 + 1
                };
                assert(post.outbound@[c2] == pre.outbound@[s2]);
                assert(pre.outbound@[s2].0 == x);
                assert(s2 == c1);
            }
        }
    }
}

/// Identifier uniqueness: `allocate` only returns identifiers that are
/// not pending, and leaves what it returned pending.  So in the state
/// between two consecutive allocations with no release in between —
/// where the first identifier is still pending and the second is about
/// to be handed out from the non-pending ones — the two identifiers
/// can never coincide.
pub proof fn lemma_identifier_uniqueness(between: InFlightTable, first: u16, second: u16)
    requires
        between.has_pending(first),
        !between.has_pending(second),
    ensures
        first != second,
{
}

/// The free identifier pool `1..=bound`, in order.
fn fill_identifier_pool(bound: u16) -> (r: Vec<u16>)
    ensures
        r@.len() == bound,
        forall|k: int| 0 <= k < r@.len() ==> #[trigger] r@[k] == k + 1,
        r@.no_duplicates(),
{
    let mut free: Vec<u16> = Vec::new();
    let mut c: u32 = 1;
    while c <= bound as u32
        invariant
            1 <= c,
            c <= bound as u32 + 1,
            free@.len() == c - 1,
            forall|k: int| 0 <= k < free@.len() ==> #[trigger] free@[k] == k + 1,
        decreases bound as u32 + 1 - c,
    {
        free.push(c as u16);
        c = c + 1;
    }
    free
}

/// Removing one element of a duplicate-free sequence keeps it
/// duplicate-free.
pub(crate) proof fn lemma_remove_keeps_no_duplicates<A>(s: Seq<A>, k: int)
    requires
        0 <= k < s.len(),
        s.no_duplicates(),
    ensures
        s.remove(k).no_duplicates(),
{
    let t = s.remove(k);
    assert forall|i: int, j: int|
        0 <= i < t.len() && 0 <= j < t.len() && i != j implies t[i] != t[j] by {
        let si = if i < k {
            i
        } else {
            i + 1
        };
        let sj = if j < k {
            j
        } else {
            j + 1
        };
        assert(t[i] == s[si]);
        assert(t[j] == s[sj]);
    }
}

} // verus!
