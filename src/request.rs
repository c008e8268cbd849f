//! Tracking of interactive requests: a call returns a request handle at once,
//! and the real result arrives later in a completion signal on that handle.
use vstd::prelude::*;
use crate::wire::{record_view, DecodeError, Entry, ValueView};

verus! {

/// How the portal ended a request.
#[derive(Debug, Clone, Copy, PartialEq, Eq, Structural)]
pub enum ResponseStatus {
    /// The request was carried out.
    Success,
    /// The user cancelled the interaction.
    Cancelled,
    /// The interaction ended in some other way.
    Other,
}

/// The status that a response code names.
pub open spec fn status_of(code: u32) -> Result<ResponseStatus, DecodeError> {
    if code == 0 {
        Ok(ResponseStatus::Success)
    } else if code == 1 {
        Ok(ResponseStatus::Cancelled)
    } else if code == 2 {
        Ok(ResponseStatus::Other)
    } else {
        Err(DecodeError::UnknownVariant)
    }
}

impl ResponseStatus {
    /// Reads the response code of a completion signal.
    pub fn from_code(code: u32) -> (r: Result<ResponseStatus, DecodeError>)
        ensures
            r == status_of(code),
    {
        if code == 0 {
            Ok(ResponseStatus::Success)
        } else if code == 1 {
            Ok(ResponseStatus::Cancelled)
        } else if code == 2 {
            Ok(ResponseStatus::Other)
        } else {
            Err(DecodeError::UnknownVariant)
        }
    }
}

/// What can go wrong with a call.
#[derive(Debug, Clone, Copy, PartialEq, Eq, Structural)]
pub enum Error {
    /// The bus failed to carry the call or its reply.
    Transport,
    /// A reply or a signal could not be read.
    Decode(DecodeError),
    /// The portal ended the request with a status other than success.
    RequestDeclined(ResponseStatus),
    /// No handle token is left that differs from every one issued before.
    HandleCollision,
    /// A waiter is already registered for the request handle.
    DuplicateWaiter,
    /// The connection was lost while the request was pending.
    ConnectionLost,
}

/// What a request ended with: the results record, or an error.
pub type Outcome = Result<Vec<Entry>, Error>;

/// The contents of an [`Outcome`].
pub type OutcomeView = Result<Seq<(Seq<char>, ValueView)>, Error>;

/// The contents of an outcome.
pub open spec fn outcome_view(o: Outcome) -> OutcomeView {
    match o {
        Ok(r) => Ok(record_view(r@)),
        Err(e) => Err(e),
    }
}

/// The outcome that a completion signal carries.
pub open spec fn outcome_of(status: ResponseStatus, results: Seq<(Seq<char>, ValueView)>) -> OutcomeView {
    match status {
        ResponseStatus::Success => Ok(results),
        _ => Err(Error::RequestDeclined(status)),
    }
}

/// Where a tracked request stands.
pub enum Slot {
    /// The call was issued and its completion signal has not come.
    Awaiting,
    /// The completion signal came; its outcome waits to be taken.
    Resolved(Outcome),
    /// The caller withdrew; a late signal is drained.
    Cancelled,
}

/// The contents of a [`Slot`].
pub enum SlotView {
    Awaiting,
    Resolved(OutcomeView),
    Cancelled,
}

impl View for Slot {
    type V = SlotView;

    open spec fn view(&self) -> SlotView {
        match self {
            Slot::Awaiting => SlotView::Awaiting,
            Slot::Resolved(o) => SlotView::Resolved(outcome_view(*o)),
            Slot::Cancelled => SlotView::Cancelled,
        }
    }
}

/// What became of a completion signal.
#[derive(Debug, Clone, Copy, PartialEq, Eq, Structural)]
pub enum Delivery {
    /// It resolved the request that waited on its handle.
    Resolved,
    /// Its request had been cancelled: it was dropped and the handle released.
    Drained,
    /// No request waited on its handle: it was ignored.
    Ignored,
}

/// The requests after a cancellation: a request that awaits its signal is
/// marked cancelled; anything else is left alone.
pub open spec fn cancel_spec(m: Map<Seq<char>, SlotView>, h: Seq<char>) -> Map<Seq<char>, SlotView> {
    if m.contains_key(h) && m[h] is Awaiting {
        m.insert(h, SlotView::Cancelled)
    } else {
        m
    }
}

/// The requests after a completion signal on `h`.
pub open spec fn deliver_spec(m: Map<Seq<char>, SlotView>, h: Seq<char>, o: OutcomeView) -> Map<
    Seq<char>,
    SlotView,
> {
    if !m.contains_key(h) {
        m
    } else {
        match m[h] {
            SlotView::Awaiting => m.insert(h, SlotView::Resolved(o)),
            SlotView::Cancelled => m.remove(h),
            SlotView::Resolved(_) => m,
        }
    }
}

/// What becomes of a completion signal on `h`.
pub open spec fn delivery_spec(m: Map<Seq<char>, SlotView>, h: Seq<char>) -> Delivery {
    if !m.contains_key(h) {
        Delivery::Ignored
    } else {
        match m[h] {
            SlotView::Awaiting => Delivery::Resolved,
            SlotView::Cancelled => Delivery::Drained,
            SlotView::Resolved(_) => Delivery::Ignored,
        }
    }
}

/// The requests after the connection is lost: every request that awaits its
/// signal is resolved with an error.
pub open spec fn lost_spec(m: Map<Seq<char>, SlotView>) -> Map<Seq<char>, SlotView> {
    Map::new(
        |h: Seq<char>| m.contains_key(h),
        |h: Seq<char>|
            if m[h] is Awaiting {
                SlotView::Resolved(Err(Error::ConnectionLost))
            } else {
                m[h]
            },
    )
}

/// The outcome that a completion signal left for the request under `h`,
/// if one waits to be taken.
pub open spec fn taken_spec(m: Map<Seq<char>, SlotView>, h: Seq<char>) -> Option<OutcomeView> {
    if m.contains_key(h) {
        match m[h] {
            SlotView::Resolved(o) => Some(o),
            _ => None,
        }
    } else {
        None
    }
}

/// The requests after the outcome under `h` is taken: a resolved request
/// releases its handle.
pub open spec fn take_spec(m: Map<Seq<char>, SlotView>, h: Seq<char>) -> Map<Seq<char>, SlotView> {
    if taken_spec(m, h) is Some {
        m.remove(h)
    } else {
        m
    }
}

struct Pending {
    handle: String,
    slot: Slot,
}

/// The requests that await, or have just received, their completion signal,
/// each under its request handle, with at most one waiter per handle.
pub struct RequestTracker {
    pending: Vec<Pending>,
    slots: Ghost<Map<Seq<char>, SlotView>>,
}

impl View for RequestTracker {
    type V = Map<Seq<char>, SlotView>;

    closed spec fn view(&self) -> Map<Seq<char>, SlotView> {
        self.slots@
    }
}

impl RequestTracker {
    /// The tracker's own bookkeeping agrees with its contents.
    pub closed spec fn wf(&self) -> bool {
        &&& forall|i: int, j: int|
            0 <= i < j < self.pending@.len() ==> self.pending@[i].handle@
                != self.pending@[j].handle@
        &&& forall|i: int|
            0 <= i < self.pending@.len() ==> self.slots@.contains_key(
                #[trigger] self.pending@[i].handle@,
            ) && self.slots@[self.pending@[i].handle@] == self.pending@[i].slot@
        &&& forall|h: Seq<char>|
            #[trigger] self.slots@.contains_key(h) ==> exists|i: int|
                0 <= i < self.pending@.len() && self.pending@[i].handle@ == h
    }

    /// A tracker with no request.
    pub fn new() -> (r: RequestTracker)
        ensures
            r.wf(),
            r@ == Map::<Seq<char>, SlotView>::empty(),
    {
        RequestTracker { pending: Vec::new(), slots: Ghost(Map::empty()) }
    }

    fn position(&self, h: &String) -> (r: Option<usize>)
        requires
            self.wf(),
        ensures
            match r {
                Some(i) => i < self.pending@.len() && self.pending@[i as int].handle@ == h@,
                None => !self@.contains_key(h@),
            },
    {
        let mut i: usize = 0;
        while i < self.pending.len()
            invariant
                self.wf(),
                i <= self.pending@.len(),
                forall|j: int| 0 <= j < i ==> self.pending@[j].handle@ != h@,
            decreases self.pending@.len() - i,
        {
            if self.pending[i].handle == *h {
                return Some(i);
            }
            i = i + 1;
        }
        None
    }

    /// Registers the waiter for a request handle that a call returned. A
    /// second waiter for a handle that is still tracked is refused.
    pub fn register(&mut self, h: String) -> (r: Result<(), Error>)
        requires
            old(self).wf(),
        ensures
            final(self).wf(),
            old(self)@.contains_key(h@) ==> r == Err::<(), Error>(Error::DuplicateWaiter)
                && final(self)@ == old(self)@,
            !old(self)@.contains_key(h@) ==> r is Ok && final(self)@ == old(self)@.insert(
                h@,
                SlotView::Awaiting,
            ),
    {
        match self.position(&h) {
            Some(_) => Err(Error::DuplicateWaiter),
            None => {
                let ghost hv = h@;
                self.pending.push(Pending { handle: h, slot: Slot::Awaiting });
                self.slots = Ghost(self.slots@.insert(hv, SlotView::Awaiting));
                proof {
                    let n = self.pending@.len() - 1;
                    assert(self.pending@[n].handle@ == hv);
                    assert forall|k: Seq<char>| #[trigger]
                        self.slots@.contains_key(k) implies exists|i: int|
                        0 <= i < self.pending@.len() && self.pending@[i].handle@ == k by {
                        if k != hv {
                            let i = choose|i: int|
                                0 <= i < old(self).pending@.len() && old(self).pending@[i].handle@
                                    == k;
                            assert(self.pending@[i] == old(self).pending@[i]);
                        }
                    }
                    assert forall|i: int, j: int|
                        0 <= i < j < self.pending@.len() implies self.pending@[i].handle@
                        != self.pending@[j].handle@ by {
                        if j == n {
                            assert(old(self).slots@.contains_key(old(self).pending@[i].handle@));
                        }
                    }
                }
                Ok(())
            },
        }
    }

    /// Where the request under `h` stands, if it is tracked.
    pub fn slot_of(&self, h: &String) -> (r: Option<&Slot>)
        requires
            self.wf(),
        ensures
            match r {
                Some(s) => self@.contains_key(h@) && self@[h@] == s@,
                None => !self@.contains_key(h@),
            },
    {
        match self.position(h) {
            Some(i) => Some(&self.pending[i].slot),
            None => None,
        }
    }

    /// Withdraws the caller's interest in the request under `h`. Nothing is
    /// sent to the portal: a signal that still comes is drained. Returns
    /// whether a waiting request was cancelled.
    pub fn cancel(&mut self, h: &String) -> (r: bool)
        requires
            old(self).wf(),
        ensures
            final(self).wf(),
            final(self)@ == cancel_spec(old(self)@, h@),
            r == (old(self)@.contains_key(h@) && old(self)@[h@] is Awaiting),
    {
        match self.position(h) {
            None => false,
            Some(i) => {
                let waiting = match self.pending[i].slot {
                    Slot::Awaiting => true,
                    _ => false,
                };
                if !waiting {
                    return false;
                }
                let handle = self.pending[i].handle.clone();
                self.pending.set(i, Pending { handle, slot: Slot::Cancelled });
                self.slots = Ghost(self.slots@.insert(h@, SlotView::Cancelled));
                proof {
                    assert forall|k: Seq<char>| #[trigger]
                        self.slots@.contains_key(k) implies exists|j: int|
                        0 <= j < old(self).pending@.len() && old(self).pending@[j].handle@ == k by {
                        assert(old(self).slots@.contains_key(k));
                    }
                    self.lemma_same_handles(old(self).pending@, i as int);
                }
                true
            },
        }
    }

    /// Hands the outcome of a completion signal on `h` to the request that
    /// waits for it. A signal for a cancelled request is drained and releases
    /// the handle; one for an unknown or already resolved handle is ignored.
    /// None is an error.
    pub fn deliver(&mut self, h: &String, outcome: Outcome) -> (r: Delivery)
        requires
            old(self).wf(),
        ensures
            final(self).wf(),
            final(self)@ == deliver_spec(old(self)@, h@, outcome_view(outcome)),
            r == delivery_spec(old(self)@, h@),
    {
        let i = match self.position(h) {
            None => return Delivery::Ignored,
            Some(i) => i,
        };
        let state: u8 = match self.pending[i].slot {
            Slot::Awaiting => 0,
            Slot::Cancelled => 1,
            Slot::Resolved(_) => 2,
        };
        if state == 2 {
            return Delivery::Ignored;
        }
        if state == 1 {
            let ghost m = self.slots@;
            let ghost before = self.pending@;
            self.pending.remove(i);
            self.slots = Ghost(m.remove(h@));
            proof {
                self.lemma_removed(before, m, i as int);
            }
            return Delivery::Drained;
        }
        let handle = self.pending[i].handle.clone();
        let ghost ov = outcome_view(outcome);
        self.pending.set(i, Pending { handle, slot: Slot::Resolved(outcome) });
        self.slots = Ghost(self.slots@.insert(h@, SlotView::Resolved(ov)));
        proof {
            assert forall|k: Seq<char>| #[trigger]
                self.slots@.contains_key(k) implies exists|j: int|
                0 <= j < old(self).pending@.len() && old(self).pending@[j].handle@ == k by {
                assert(old(self).slots@.contains_key(k));
            }
            self.lemma_same_handles(old(self).pending@, i as int);
        }
        Delivery::Resolved
    }

    /// Takes the outcome of the request under `h`, once its completion signal
    /// has come, and releases the handle. Each outcome is taken at most once.
    pub fn take(&mut self, h: &String) -> (r: Option<Outcome>)
        requires
            old(self).wf(),
        ensures
            final(self).wf(),
            final(self)@ == take_spec(old(self)@, h@),
            match r {
                Some(o) => taken_spec(old(self)@, h@) == Some(outcome_view(o)),
                None => taken_spec(old(self)@, h@) is None,
            },
    {
        let i = match self.position(h) {
            None => return None,
            Some(i) => i,
        };
        let resolved = match self.pending[i].slot {
            Slot::Resolved(_) => true,
            _ => false,
        };
        if !resolved {
            return None;
        }
        let ghost m = self.slots@;
        let ghost before = self.pending@;
        let p = self.pending.remove(i);
        self.slots = Ghost(m.remove(h@));
        proof {
            self.lemma_removed(before, m, i as int);
        }
        match p.slot {
            Slot::Resolved(o) => Some(o),
            _ => None,
        }
    }

    /// Resolves every request that awaits its signal with
    /// [`Error::ConnectionLost`], so that no waiter hangs on a dead connection.
    pub fn connection_lost(&mut self)
        requires
            old(self).wf(),
        ensures
            final(self).wf(),
            final(self)@ == lost_spec(old(self)@),
    {
        let ghost m0 = self.slots@;
        let mut i: usize = 0;
        while i < self.pending.len()
            invariant
                self.wf(),
                i <= self.pending@.len(),
                self.pending@.len() == old(self).pending@.len(),
                forall|j: int|
                    0 <= j < self.pending@.len() ==> #[trigger] self.pending@[j].handle@
                        == old(self).pending@[j].handle@,
                self.slots@.dom() == m0.dom(),
                m0 == old(self).slots@,
                forall|j: int|
                    0 <= j < i ==> self.slots@[#[trigger] old(self).pending@[j].handle@]
                        == lost_spec(m0)[old(self).pending@[j].handle@],
                forall|j: int|
                    i <= j < self.pending@.len() ==> self.pending@[j] == old(self).pending@[j],
                forall|j: int|
                    i <= j < self.pending@.len() ==> self.slots@[#[trigger] old(
                        self,
                    ).pending@[j].handle@] == m0[old(self).pending@[j].handle@],
                forall|j: int|
                    0 <= j < old(self).pending@.len() ==> m0.contains_key(
                        #[trigger] old(self).pending@[j].handle@,
                    ) && m0[old(self).pending@[j].handle@] == old(self).pending@[j].slot@,
                forall|j: int, k: int|
                    0 <= j < k < old(self).pending@.len() ==> old(self).pending@[j].handle@
                        != old(self).pending@[k].handle@,
            decreases self.pending@.len() - i,
        {
            let waiting = match self.pending[i].slot {
                Slot::Awaiting => true,
                _ => false,
            };
            if waiting {
                let ghost before = self.pending@;
                let ghost hv = self.pending@[i as int].handle@;
                let handle = self.pending[i].handle.clone();
                self.pending.set(
                    i,
                    Pending { handle, slot: Slot::Resolved(Err(Error::ConnectionLost)) },
                );
                self.slots = Ghost(
                    self.slots@.insert(hv, SlotView::Resolved(Err(Error::ConnectionLost))),
                );
                proof {
                    assert(before[i as int].handle@ == hv);
                    assert forall|k: Seq<char>| #[trigger]
                        self.slots@.contains_key(k) implies exists|j: int|
                        0 <= j < before.len() && before[j].handle@ == k by {
                        assert(self.slots@.contains_key(k));
                    }
                    assert(self.slots@.dom() =~= m0.dom());
                    self.lemma_same_handles(before, i as int);
                    assert forall|j: int|
                        0 <= j < i + 1 implies self.slots@[#[trigger] old(self).pending@[j].handle@]
                        == lost_spec(m0)[old(self).pending@[j].handle@] by {
                        if j < i {
                            assert(old(self).pending@[j].handle@ != hv);
                        }
                    }
                    assert forall|j: int|
                        i + 1 <= j < self.pending@.len() implies self.slots@[#[trigger] old(
                            self,
                        ).pending@[j].handle@] == m0[old(self).pending@[j].handle@] by {
                        assert(old(self).pending@[i as int].handle@ != old(self).pending@[j].handle@);
                    }
                }
            } else {
                proof {
                    let hv = old(self).pending@[i as int].handle@;
                    assert(m0.contains_key(hv));
                    assert forall|j: int|
                        0 <= j < i + 1 implies self.slots@[#[trigger] old(self).pending@[j].handle@]
                        == lost_spec(m0)[old(self).pending@[j].handle@] by {}
                }
            }
            i = i + 1;
        }
        proof {
            assert forall|h: Seq<char>| #[trigger] self.slots@.contains_key(h) implies self.slots@[h]
                == lost_spec(m0)[h] by {
                let j = choose|j: int| 0 <= j < self.pending@.len() && self.pending@[j].handle@ == h;
                assert(self.pending@[j].handle@ == old(self).pending@[j].handle@);
            }
            assert(self.slots@ =~= lost_spec(m0));
        }
    }

    proof fn lemma_removed(&self, before: Seq<Pending>, m: Map<Seq<char>, SlotView>, i: int)
        requires
            0 <= i < before.len(),
            self.pending@ == before.remove(i),
            self.slots@ == m.remove(before[i].handle@),
            forall|j: int, k: int| 0 <= j < k < before.len() ==> before[j].handle@ != before[k].handle@,
            forall|j: int|
                0 <= j < before.len() ==> m.contains_key(#[trigger] before[j].handle@)
                    && m[before[j].handle@] == before[j].slot@,
            forall|h: Seq<char>| #[trigger]
                m.contains_key(h) ==> exists|j: int| 0 <= j < before.len() && before[j].handle@ == h,
        ensures
            self.wf(),
    {
        let hi = before[i].handle@;
        assert forall|j: int, k: int|
            0 <= j < k < self.pending@.len() implies self.pending@[j].handle@
            != self.pending@[k].handle@ by {
            let a = if j < i { j } else { j + 1 };
            let b = if k < i { k } else { k + 1 };
            assert(self.pending@[j] == before[a]);
            assert(self.pending@[k] == before[b]);
            assert(before[a].handle@ != before[b].handle@);
        }
        assert forall|j: int|
            0 <= j < self.pending@.len() implies self.slots@.contains_key(
            #[trigger] self.pending@[j].handle@,
        ) && self.slots@[self.pending@[j].handle@] == self.pending@[j].slot@ by {
            let a = if j < i { j } else { j + 1 };
            assert(self.pending@[j] == before[a]);
            assert(before[a].handle@ != hi);
            assert(m.contains_key(before[a].handle@));
        }
        assert forall|h: Seq<char>| #[trigger]
            self.slots@.contains_key(h) implies exists|j: int|
            0 <= j < self.pending@.len() && self.pending@[j].handle@ == h by {
            assert(m.contains_key(h));
            let a = choose|a: int| 0 <= a < before.len() && before[a].handle@ == h;
            assert(a != i);
            let j = if a < i { a } else { a - 1 };
            assert(self.pending@[j] == before[a]);
        }
    }

    proof fn lemma_same_handles(&self, before: Seq<Pending>, i: int)
        requires
            0 <= i < before.len(),
            self.pending@.len() == before.len(),
            forall|j: int| 0 <= j < before.len() && j != i ==> self.pending@[j] == before[j],
            self.pending@[i].handle@ == before[i].handle@,
            forall|h: Seq<char>| #[trigger]
                self.slots@.contains_key(h) ==> exists|j: int|
                    0 <= j < before.len() && before[j].handle@ == h,
            forall|j: int, k: int| 0 <= j < k < before.len() ==> before[j].handle@ != before[k].handle@,
            forall|j: int|
                0 <= j < before.len() && j != i ==> self.slots@.contains_key(#[trigger] before[j].handle@)
                    && self.slots@[before[j].handle@] == before[j].slot@,
            self.slots@.contains_key(before[i].handle@),
            self.slots@[before[i].handle@] == self.pending@[i].slot@,
        ensures
            self.wf(),
    {
        assert forall|j: int, k: int|
            0 <= j < k < self.pending@.len() implies self.pending@[j].handle@
            != self.pending@[k].handle@ by {
            assert(before[j].handle@ != before[k].handle@);
        }
        assert forall|j: int|
            0 <= j < self.pending@.len() implies self.slots@.contains_key(
            #[trigger] self.pending@[j].handle@,
        ) && self.slots@[self.pending@[j].handle@] == self.pending@[j].slot@ by {
            if j != i {
                assert(self.pending@[j] == before[j]);
            }
        }
        assert forall|h: Seq<char>| #[trigger]
            self.slots@.contains_key(h) implies exists|j: int|
            0 <= j < self.pending@.len() && self.pending@[j].handle@ == h by {
            let j = choose|j: int| 0 <= j < before.len() && before[j].handle@ == h;
            if j != i {
                assert(self.pending@[j] == before[j]);
            }
        }
    }
}

/// Cancelling a request that awaits its signal and then receiving that
/// signal raises no error and resolves no waiter: the signal is drained, the
/// handle released, every other request left as it was, and a repeated signal
/// is ignored.
pub proof fn lemma_cancel_then_deliver(
    m: Map<Seq<char>, SlotView>,
    h: Seq<char>,
    o: OutcomeView,
)
    requires
        m.contains_key(h),
        m[h] is Awaiting,
    ensures
        delivery_spec(cancel_spec(m, h), h) == Delivery::Drained,
        deliver_spec(cancel_spec(m, h), h, o) == m.remove(h),
        taken_spec(deliver_spec(cancel_spec(m, h), h, o), h) is None,
        delivery_spec(deliver_spec(cancel_spec(m, h), h, o), h) == Delivery::Ignored,
{
    assert(m.insert(h, SlotView::Cancelled).remove(h) =~= m.remove(h));
}

/// A completion signal resolves the request that awaits it with the outcome
/// it carries: the results on success, a declined request otherwise. The
/// outcome is taken once, which releases the handle.
pub proof fn lemma_completion_resolves(
    m: Map<Seq<char>, SlotView>,
    h: Seq<char>,
    status: ResponseStatus,
    results: Seq<(Seq<char>, ValueView)>,
)
    requires
        m.contains_key(h),
        m[h] is Awaiting,
    ensures
        delivery_spec(m, h) == Delivery::Resolved,
        status == ResponseStatus::Success ==> taken_spec(deliver_spec(m, h, outcome_of(status, results)), h)
            == Some(Ok::<Seq<(Seq<char>, ValueView)>, Error>(results)),
        status != ResponseStatus::Success ==> taken_spec(deliver_spec(m, h, outcome_of(status, results)), h)
            == Some(Err::<Seq<(Seq<char>, ValueView)>, Error>(Error::RequestDeclined(status))),
        take_spec(deliver_spec(m, h, outcome_of(status, results)), h) == m.remove(h),
        taken_spec(take_spec(deliver_spec(m, h, outcome_of(status, results)), h), h) is None,
{
    let m1 = deliver_spec(m, h, outcome_of(status, results));
    assert(m1.remove(h) =~= m.remove(h));
}

} // verus!
