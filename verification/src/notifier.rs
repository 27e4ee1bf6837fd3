use vstd::prelude::*;

verus! {

/// One update as the engine pushes it: an opaque payload, a watermark used
/// both as the stream's resumption cursor and as the wire event id, and a
/// flag telling the first full snapshot from the incremental deltas that
/// follow it.
#[derive(Debug, Clone)]
pub struct Notification {
    pub values: String,
    pub watermark: String,
    pub is_initial: bool,
}

/// Mathematical image of a `Notification`.
#[verifier::ext_equal]
pub ghost struct NotificationView {
    pub values: Seq<char>,
    pub watermark: Seq<char>,
    pub is_initial: bool,
}

impl View for Notification {
    type V = NotificationView;

    open spec fn view(&self) -> NotificationView {
        NotificationView {
            values: self.values@,
            watermark: self.watermark@,
            is_initial: self.is_initial,
        }
    }
}

/// The views of a queue of notifications, in queue order.
pub open spec fn views_of(q: Seq<Notification>) -> Seq<NotificationView> {
    q.map_values(|n: Notification| n@)
}

/// Lifecycle state of one subscription. `Attached` carries the identifier
/// of the one live sink; a subscription never has two.
#[derive(Debug, Clone, Copy, PartialEq, Eq, Structural)]
pub enum SubState {
    /// No sink yet: updates are queued until one attaches.
    Buffering,
    /// A live sink is attached: updates are forwarded at once.
    Attached(u64),
    /// Closed for good: updates are discarded, late sinks are terminated.
    Closed,
}

/// What the bridge asks the transport layer to do to a sink as the result
/// of one registry operation. The caller performs the actions in order;
/// the registry itself never touches a connection.
pub enum SinkAction {
    /// Hand this update to the sink with this identifier.
    Deliver { sink: u64, update: Notification },
    /// Cleanly terminate the stream carried by this sink.
    Terminate { sink: u64 },
}

/// Mathematical image of one subscription: its state, the updates still
/// buffered, and two histories — everything the engine ever pushed at it
/// while it was open, and everything it ever handed to a sink.
#[verifier::ext_equal]
pub ghost struct SubscriptionView {
    pub state: SubState,
    pub queue: Seq<NotificationView>,
    pub history: Seq<NotificationView>,
    pub delivered: Seq<NotificationView>,
}

impl SubscriptionView {
    /// No update is lost, duplicated or reordered: what was delivered,
    /// followed by what still waits in the buffer, is exactly what the
    /// engine pushed, and an attached subscription holds nothing back.
    pub open spec fn wf(self) -> bool {
        &&& self.delivered + self.queue == self.history
        &&& self.state matches SubState::Attached(_) ==> self.queue.len() == 0
    }

    /// A newly registered subscription: buffering, with nothing pushed,
    /// queued or delivered yet.
    pub open spec fn registered() -> SubscriptionView {
        SubscriptionView {
            state: SubState::Buffering,
            queue: Seq::empty(),
            history: Seq::empty(),
            delivered: Seq::empty(),
        }
    }

    /// One engine push: buffered while `Buffering`, forwarded at once
    /// while `Attached`, discarded once `Closed`.
    pub open spec fn push(self, v: NotificationView) -> SubscriptionView {
        match self.state {
            SubState::Buffering => SubscriptionView {
                queue: self.queue.push(v),
                history: self.history.push(v),
                ..self
            },
            SubState::Attached(_) => SubscriptionView {
                delivered: self.delivered.push(v),
                history: self.history.push(v),
                ..self
            },
            SubState::Closed => self,
        }
    }

    /// A whole sequence of pushes, oldest first.
    pub open spec fn push_all(self, vs: Seq<NotificationView>) -> SubscriptionView
        decreases vs.len(),
    {
        if vs.len() == 0 {
            self
        } else {
            self.push(vs[0]).push_all(vs.drop_first())
        }
    }

    /// Attaching a sink: a closed subscription is left as it is (the sink
    /// is only terminated); otherwise the whole buffer is flushed to the
    /// sink, in order, and the subscription is attached to it. A sink
    /// attached earlier is superseded.
    pub open spec fn attach(self, sink: u64) -> SubscriptionView {
        if self.state is Closed {
            self
        } else {
            SubscriptionView {
                state: SubState::Attached(sink),
                queue: Seq::empty(),
                delivered: self.delivered + self.queue,
                ..self
            }
        }
    }

    /// The updates an attach hands to the new sink: the buffered ones, in
    /// order; none on a closed subscription.
    pub open spec fn attach_flushes(self) -> Seq<NotificationView> {
        if self.state is Closed {
            Seq::empty()
        } else {
            self.queue
        }
    }

    /// Closing: the state becomes `Closed`, whatever it was; nothing else
    /// changes, and nothing buffered is ever delivered afterwards.
    pub open spec fn close(self) -> SubscriptionView {
        SubscriptionView { state: SubState::Closed, ..self }
    }
}

/// One subscription as the bridge holds it: the engine can start pushing
/// updates for it before any client has opened its stream, so updates are
/// buffered until a sink attaches.
pub struct Subscription {
    /// The engine-issued handle this subscription answers to.
    pub handle: i64,
    pub state: SubState,
    /// Updates received while no sink was attached, oldest first.
    pub queue: Vec<Notification>,
    /// Everything the engine pushed at this subscription while it was open.
    pub history: Ghost<Seq<NotificationView>>,
    /// Everything handed to a sink so far, in delivery order.
    pub delivered: Ghost<Seq<NotificationView>>,
}

impl View for Subscription {
    type V = SubscriptionView;

    open spec fn view(&self) -> SubscriptionView {
        SubscriptionView {
            state: self.state,
            queue: views_of(self.queue@),
            history: self.history@,
            delivered: self.delivered@,
        }
    }
}

impl Subscription {
    pub open spec fn wf(self) -> bool {
        self@.wf()
    }

    /// A fresh buffering subscription under the given handle.
    pub fn register(handle: i64) -> (s: Subscription)
        ensures
            s.wf(),
            s.handle == handle,
            s@ == SubscriptionView::registered(),
    {
        let s = Subscription {
            handle,
            state: SubState::Buffering,
            queue: Vec::new(),
            history: Ghost(Seq::empty()),
            delivered: Ghost(Seq::empty()),
        };
        proof {
            assert(s@ =~= SubscriptionView::registered());
        }
        s
    }

    /// One update from the engine. While a sink is attached the update is
    /// handed straight to it, preserving arrival order; while buffering it
    /// is queued; once closed it is discarded.
    pub fn push_update(&mut self, update: Notification) -> (r: Option<SinkAction>)
        requires
            old(self).wf(),
        ensures
            final(self).wf(),
            final(self).handle == old(self).handle,
            final(self)@ == old(self)@.push(update@),
            match old(self).state {
                SubState::Attached(s) => r matches Some(SinkAction::Deliver { sink, update: u })
                    && sink == s && u@ == update@,
                _ => r is None,
            },
    {
        let ghost uv = update@;
        match self.state {
            SubState::Buffering => {
                self.history = Ghost(self.history@.push(uv));
                self.queue.push(update);
                proof {
                    assert(self@ =~= old(self)@.push(uv));
                }
                None
            }
            SubState::Attached(sink) => {
                self.history = Ghost(self.history@.push(uv));
                self.delivered = Ghost(self.delivered@.push(uv));
                proof {
                    assert(self@ =~= old(self)@.push(uv));
                }
                Some(SinkAction::Deliver { sink, update })
            }
            SubState::Closed => {
                proof {
                    assert(self@ =~= old(self)@.push(uv));
                }
                None
            }
        }
    }

    /// Attaches a sink. On a closed subscription the sink is terminated at
    /// once and no update is delivered; otherwise every buffered update is
    /// flushed to it in arrival order and the sink becomes the live target
    /// of later pushes, superseding any sink attached before.
    pub fn attach(&mut self, sink: u64) -> (acts: Vec<SinkAction>)
        requires
            old(self).wf(),
        ensures
            final(self).wf(),
            final(self).handle == old(self).handle,
            final(self)@ == old(self)@.attach(sink),
            old(self)@.state is Closed ==> acts@.len() == 1
                && (acts@[0] matches SinkAction::Terminate { sink: s } && s == sink),
            !(old(self)@.state is Closed) ==> acts@.len() == old(self)@.attach_flushes().len()
                && (forall|i: int| 0 <= i < acts@.len()
                    ==> ((#[trigger] acts@[i]) matches SinkAction::Deliver { sink: s, update: u }
                        && s == sink && u@ == old(self)@.attach_flushes()[i])),
    {
        match self.state {
            SubState::Closed => {
                let mut acts: Vec<SinkAction> = Vec::new();
                acts.push(SinkAction::Terminate { sink });
                acts
            }
            _ => {
                let ghost q0 = self@.queue;
                let mut acts: Vec<SinkAction> = Vec::new();
                while self.queue.len() > 0
                    invariant
                        self.handle == old(self).handle,
                        self.state == old(self).state,
                        self.history@ == old(self).history@,
                        self.delivered@ == old(self).delivered@,
                        acts@.len() + self.queue@.len() == q0.len(),
                        q0 == old(self)@.queue,
                        views_of(self.queue@) == q0.skip(acts@.len() as int),
                        forall|i: int| 0 <= i < acts@.len()
                            ==> ((#[trigger] acts@[i]) matches SinkAction::Deliver { sink: s, update: u }
                                && s == sink && u@ == q0[i]),
                    decreases self.queue.len(),
                {
                    let ghost k = acts@.len() as int;
                    let ghost qpre = self.queue@;
                    let n = self.queue.remove(0);
                    proof {
                        assert(views_of(qpre)[0] == qpre[0]@);
                        assert(n@ == q0[k]);
                        assert(views_of(self.queue@) =~= q0.skip(k + 1)) by {
                            assert forall|i: int| 0 <= i < self.queue@.len()
                                implies views_of(self.queue@)[i] == q0.skip(k + 1)[i] by {
                                assert(self.queue@[i] == qpre[i + 1]);
                                assert(views_of(qpre)[i + 1] == qpre[i + 1]@);
                                assert(q0.skip(k)[i + 1] == q0[k + 1 + i]);
                            }
                        }
                    }
                    acts.push(SinkAction::Deliver { sink, update: n });
                }
                self.state = SubState::Attached(sink);
                self.delivered = Ghost(self.delivered@ + q0);
                proof {
                    assert(q0.skip(acts@.len() as int) =~= Seq::<NotificationView>::empty());
                    assert(self@.queue =~= Seq::<NotificationView>::empty());
                    assert(self@ =~= old(self)@.attach(sink));
                }
                acts
            }
        }
    }

    /// Closes the subscription, whatever its state. An attached sink is
    /// cleanly terminated; closing twice is harmless.
    pub fn close(&mut self) -> (r: Option<SinkAction>)
        requires
            old(self).wf(),
        ensures
            final(self).wf(),
            final(self).handle == old(self).handle,
            final(self)@ == old(self)@.close(),
            match old(self).state {
                SubState::Attached(s) => r matches Some(SinkAction::Terminate { sink })
                    && sink == s,
                _ => r is None,
            },
    {
        let prior = self.state;
        self.state = SubState::Closed;
        proof {
            assert(self@ =~= old(self)@.close());
        }
        match prior {
            SubState::Attached(sink) => Some(SinkAction::Terminate { sink }),
            _ => None,
        }
    }
}

/// Whether some subscription in `s` answers to the handle `h`.
pub open spec fn has_handle(s: Seq<Subscription>, h: i64) -> bool {
    exists|i: int| 0 <= i < s.len() && (#[trigger] s[i]).handle == h
}

/// The position of the subscription with handle `h`, where there is one.
pub open spec fn handle_index(s: Seq<Subscription>, h: i64) -> int {
    choose|i: int| 0 <= i < s.len() && (#[trigger] s[i]).handle == h
}

/// No two subscriptions share a handle.
pub open spec fn unique_handles(s: Seq<Subscription>) -> bool {
    forall|i: int, j: int| 0 <= i < j < s.len()
        ==> (#[trigger] s[i]).handle != (#[trigger] s[j]).handle
}

/// With unique handles, the subscription found at any position is the one
/// `handle_index` names for its handle.
proof fn lemma_handle_index(s: Seq<Subscription>, i: int)
    requires
        unique_handles(s),
        0 <= i < s.len(),
    ensures
        has_handle(s, s[i].handle),
        handle_index(s, s[i].handle) == i,
{
    assert(has_handle(s, s[i].handle));
    let k = handle_index(s, s[i].handle);
    assert(0 <= k < s.len() && s[k].handle == s[i].handle);
    if k < i {
        assert(s[k].handle != s[i].handle);
    } else if i < k {
        assert(s[i].handle != s[k].handle);
    }
}

/// Replacing one subscription with one of the same handle moves no handle:
/// every handle keeps its place, and every other entry is untouched.
proof fn lemma_update_entry(s0: Seq<Subscription>, s1: Seq<Subscription>, i: int)
    requires
        unique_handles(s0),
        0 <= i < s0.len(),
        s1.len() == s0.len(),
        forall|j: int| 0 <= j < s0.len() && j != i ==> s1[j] == s0[j],
        s1[i].handle == s0[i].handle,
    ensures
        unique_handles(s1),
        forall|g: i64| #[trigger] has_handle(s1, g) <==> has_handle(s0, g),
        handle_index(s1, s0[i].handle) == i,
        handle_index(s0, s0[i].handle) == i,
        forall|g: i64| g != s0[i].handle && has_handle(s0, g)
            ==> #[trigger] handle_index(s1, g) == handle_index(s0, g)
                && s1[handle_index(s0, g)] == s0[handle_index(s0, g)],
{
    let h = s0[i].handle;
    assert forall|a: int, b: int| 0 <= a < b < s1.len()
        implies (#[trigger] s1[a]).handle != (#[trigger] s1[b]).handle by {
        assert(s0[a].handle != s0[b].handle);
    }
    lemma_handle_index(s0, i);
    lemma_handle_index(s1, i);
    assert forall|g: i64| #[trigger] has_handle(s1, g) <==> has_handle(s0, g) by {
        if has_handle(s0, g) {
            let k = handle_index(s0, g);
            assert(s1[k].handle == g);
        }
        if has_handle(s1, g) {
            let k = handle_index(s1, g);
            assert(s0[k].handle == g);
        }
    }
    assert forall|g: i64| g != h && has_handle(s0, g)
        implies #[trigger] handle_index(s1, g) == handle_index(s0, g)
            && s1[handle_index(s0, g)] == s0[handle_index(s0, g)] by {
        let k = handle_index(s0, g);
        assert(0 <= k < s0.len() && s0[k].handle == g);
        assert(k != i);
        assert(s1[k] == s0[k]);
        lemma_handle_index(s1, k);
    }
}

/// The registry the engine's callback context pushes into: one entry per
/// open subscription, keyed by the engine-issued handle. Every operation
/// is a single atomic step over the whole registry; its caller guards the
/// registry with one exclusion mechanism, so that no update can be both
/// buffered and forwarded, or lost between the two.
pub struct NotifierRegistry {
    pub subs: Vec<Subscription>,
}

impl NotifierRegistry {
    /// Every subscription is well formed and handles are unique.
    pub open spec fn wf(self) -> bool {
        &&& forall|i: int| 0 <= i < self.subs@.len() ==> (#[trigger] self.subs@[i]).wf()
        &&& unique_handles(self.subs@)
    }

    /// Whether a subscription with this handle is registered.
    pub open spec fn has(self, h: i64) -> bool {
        has_handle(self.subs@, h)
    }

    /// The model of the subscription registered under this handle.
    pub open spec fn sub(self, h: i64) -> SubscriptionView {
        self.subs@[handle_index(self.subs@, h)]@
    }

    /// An empty registry.
    pub fn new() -> (r: NotifierRegistry)
        ensures
            r.wf(),
            r.subs@.len() == 0,
    {
        NotifierRegistry { subs: Vec::new() }
    }

    /// The position of the subscription with handle `h`, if any.
    fn find(&self, h: i64) -> (r: Option<usize>)
        requires
            self.wf(),
        ensures
            match r {
                Some(i) => i < self.subs@.len() && self.subs@[i as int].handle == h
                    && self.has(h) && handle_index(self.subs@, h) == i,
                None => !self.has(h),
            },
    {
        let n = self.subs.len();
        let mut i: usize = 0;
        while i < n
            invariant
                n == self.subs@.len(),
                i <= n,
                self.wf(),
                forall|j: int| 0 <= j < i ==> (#[trigger] self.subs@[j]).handle != h,
            decreases n - i,
        {
            if self.subs[i].handle == h {
                proof {
                    lemma_handle_index(self.subs@, i as int);
                }
                return Some(i);
            }
            i = i + 1;
        }
        proof {
            if has_handle(self.subs@, h) {
                let k = handle_index(self.subs@, h);
                assert(0 <= k < self.subs@.len() && self.subs@[k].handle == h);
            }
        }
        None
    }

    /// Creates a subscription for a fresh handle, in buffering state, so
    /// that updates the engine pushes before any client attaches are kept.
    /// A handle already registered is left exactly as it was.
    pub fn register(&mut self, handle: i64) -> (fresh: bool)
        requires
            old(self).wf(),
        ensures
            final(self).wf(),
            fresh == !old(self).has(handle),
            final(self).has(handle),
            old(self).has(handle) ==> final(self).subs@ == old(self).subs@,
            !old(self).has(handle) ==> final(self).sub(handle)
                == SubscriptionView::registered(),
            forall|g: i64| g != handle
                ==> (#[trigger] final(self).has(g) <==> old(self).has(g)),
            forall|g: i64| g != handle && old(self).has(g)
                ==> #[trigger] final(self).sub(g) == old(self).sub(g),
    {
        match self.find(handle) {
            Some(_) => false,
            None => {
                let ghost s0 = self.subs@;
                self.subs.push(Subscription::register(handle));
                proof {
                    let s1 = self.subs@;
                    assert forall|i: int, j: int| 0 <= i < j < s1.len()
                        implies (#[trigger] s1[i]).handle != (#[trigger] s1[j]).handle by {
                        if j < s0.len() {
                            assert(s0[i].handle != s0[j].handle);
                        } else {
                            assert(s1[j].handle == handle);
                            assert(s1[i] == s0[i]);
                            if s0[i].handle == handle {
                                lemma_handle_index(s0, i);
                            }
                        }
                    }
                    lemma_handle_index(s1, s0.len() as int);
                    assert forall|g: i64| g != handle
                        implies (#[trigger] self.has(g) <==> old(self).has(g)) by {
                        if has_handle(s0, g) {
                            let k = handle_index(s0, g);
                            assert(s1[k].handle == g);
                        }
                        if has_handle(s1, g) {
                            let k = handle_index(s1, g);
                            assert(0 <= k < s1.len() && s1[k].handle == g);
                            assert(k != s0.len() as int);
                            assert(s0[k].handle == g);
                        }
                    }
                    assert forall|g: i64| g != handle && old(self).has(g)
                        implies #[trigger] self.sub(g) == old(self).sub(g) by {
                        let k = handle_index(s0, g);
                        assert(0 <= k < s0.len() && s0[k].handle == g);
                        assert(s1[k] == s0[k]);
                        lemma_handle_index(s1, k);
                        lemma_handle_index(s0, k);
                    }
                }
                true
            }
        }
    }

    /// Routes one engine push to the subscription under this handle: it is
    /// forwarded at once while attached, buffered while no sink is there,
    /// and discarded once closed. A push for a handle the registry no
    /// longer knows is tolerated silently — the engine may still hold a
    /// handle the bridge has already forgotten.
    pub fn push_update(
        &mut self,
        handle: i64,
        values: String,
        watermark: String,
        is_initial: bool,
    ) -> (r: Option<SinkAction>)
        requires
            old(self).wf(),
        ensures
            final(self).wf(),
            !old(self).has(handle) ==> final(self).subs@ == old(self).subs@ && r is None,
            old(self).has(handle) ==> final(self).sub(handle) == old(self).sub(handle).push(
                NotificationView { values: values@, watermark: watermark@, is_initial },
            ),
            old(self).has(handle) ==> match old(self).sub(handle).state {
                SubState::Attached(s) => r matches Some(SinkAction::Deliver { sink, update })
                    && sink == s
                    && update@ == (NotificationView {
                        values: values@,
                        watermark: watermark@,
                        is_initial,
                    }),
                _ => r is None,
            },
            forall|g: i64| #[trigger] final(self).has(g) <==> old(self).has(g),
            forall|g: i64| g != handle && old(self).has(g)
                ==> #[trigger] final(self).sub(g) == old(self).sub(g),
    {
        match self.find(handle) {
            None => None,
            Some(i) => {
                let ghost s0 = old(self).subs@;
                let mut sub = self.subs.remove(i);
                let r = sub.push_update(Notification { values, watermark, is_initial });
                self.subs.insert(i, sub);
                proof {
                    lemma_update_entry(s0, self.subs@, i as int);
                }
                r
            }
        }
    }

    /// Attaches a sink to the subscription under this handle, flushing
    /// whatever buffered while no sink was there, in arrival order, before
    /// any later push reaches the sink. A closed or unknown handle earns
    /// the sink an immediate clean termination and no data.
    pub fn attach(&mut self, handle: i64, sink: u64) -> (acts: Vec<SinkAction>)
        requires
            old(self).wf(),
        ensures
            final(self).wf(),
            !old(self).has(handle) ==> final(self).subs@ == old(self).subs@
                && acts@.len() == 1
                && (acts@[0] matches SinkAction::Terminate { sink: s } && s == sink),
            old(self).has(handle) ==> final(self).sub(handle)
                == old(self).sub(handle).attach(sink),
            old(self).has(handle) && old(self).sub(handle).state is Closed
                ==> acts@.len() == 1
                    && (acts@[0] matches SinkAction::Terminate { sink: s } && s == sink),
            old(self).has(handle) && !(old(self).sub(handle).state is Closed)
                ==> acts@.len() == old(self).sub(handle).attach_flushes().len()
                    && (forall|i: int| 0 <= i < acts@.len()
                        ==> ((#[trigger] acts@[i]) matches SinkAction::Deliver { sink: s, update: u }
                            && s == sink && u@ == old(self).sub(handle).attach_flushes()[i])),
            forall|g: i64| #[trigger] final(self).has(g) <==> old(self).has(g),
            forall|g: i64| g != handle && old(self).has(g)
                ==> #[trigger] final(self).sub(g) == old(self).sub(g),
    {
        match self.find(handle) {
            None => {
                let mut acts: Vec<SinkAction> = Vec::new();
                acts.push(SinkAction::Terminate { sink });
                acts
            }
            Some(i) => {
                let ghost s0 = old(self).subs@;
                let mut sub = self.subs.remove(i);
                let acts = sub.attach(sink);
                self.subs.insert(i, sub);
                proof {
                    lemma_update_entry(s0, self.subs@, i as int);
                }
                acts
            }
        }
    }

    /// Closes the subscription under this handle: an attached sink is
    /// cleanly terminated, and no update is delivered from here on however
    /// many the engine still pushes. Closing an unknown or already closed
    /// handle is a harmless no-op, so the operation is idempotent.
    pub fn close(&mut self, handle: i64) -> (r: Option<SinkAction>)
        requires
            old(self).wf(),
        ensures
            final(self).wf(),
            !old(self).has(handle) ==> final(self).subs@ == old(self).subs@ && r is None,
            old(self).has(handle) ==> final(self).sub(handle) == old(self).sub(handle).close(),
            old(self).has(handle) ==> match old(self).sub(handle).state {
                SubState::Attached(s) => r matches Some(SinkAction::Terminate { sink })
                    && sink == s,
                _ => r is None,
            },
            forall|g: i64| #[trigger] final(self).has(g) <==> old(self).has(g),
            forall|g: i64| g != handle && old(self).has(g)
                ==> #[trigger] final(self).sub(g) == old(self).sub(g),
    {
        match self.find(handle) {
            None => None,
            Some(i) => {
                let ghost s0 = old(self).subs@;
                let mut sub = self.subs.remove(i);
                let r = sub.close();
                self.subs.insert(i, sub);
                proof {
                    lemma_update_entry(s0, self.subs@, i as int);
                }
                r
            }
        }
    }
}

/// Buffer-then-flush law: every update pushed while buffering lands in the
/// buffer, in arrival order, behind what was already there; nothing is
/// delivered early; and an attach then hands the sink exactly those
/// updates, in that order, with no loss and no duplication.
pub proof fn lemma_buffer_then_flush(s: SubscriptionView, vs: Seq<NotificationView>, sink: u64)
    requires
        s.state is Buffering,
    ensures
        s.push_all(vs).state is Buffering,
        s.push_all(vs).queue == s.queue + vs,
        s.push_all(vs).delivered == s.delivered,
        s.push_all(vs).attach_flushes() == s.queue + vs,
        s.push_all(vs).attach(sink).delivered == s.delivered + (s.queue + vs),
    decreases vs.len(),
{
    if vs.len() == 0 {
        assert(s.queue + vs =~= s.queue);
    } else {
        let s1 = s.push(vs[0]);
        lemma_buffer_then_flush(s1, vs.drop_first(), sink);
        assert(s1.queue + vs.drop_first() =~= s.queue + vs);
    }
}

/// Live delivery order: while a sink is attached, every push is forwarded
/// to it at once, so the sink's delivery order extends by exactly the
/// emission order and the buffer stays empty.
pub proof fn lemma_live_order(s: SubscriptionView, vs: Seq<NotificationView>)
    requires
        s.state matches SubState::Attached(_),
    ensures
        s.push_all(vs).state == s.state,
        s.push_all(vs).queue == s.queue,
        s.push_all(vs).delivered == s.delivered + vs,
    decreases vs.len(),
{
    if vs.len() == 0 {
        assert(s.delivered + vs =~= s.delivered);
    } else {
        let s1 = s.push(vs[0]);
        lemma_live_order(s1, vs.drop_first());
        assert(s1.delivered + vs.drop_first() =~= s.delivered + vs);
    }
}

/// Closed means silent: after a close, any number of pushes changes
/// nothing, and a late attach flushes zero updates and leaves the
/// delivered history exactly as it was — immediate termination with no
/// data, whatever was still buffered at close time.
pub proof fn lemma_close_then_attach(s: SubscriptionView, vs: Seq<NotificationView>, sink: u64)
    ensures
        s.close().push_all(vs) == s.close(),
        s.close().push_all(vs).attach(sink) == s.close(),
        s.close().push_all(vs).attach_flushes() == Seq::<NotificationView>::empty(),
        s.close().push_all(vs).attach(sink).delivered == s.delivered,
    decreases vs.len(),
{
    if vs.len() > 0 {
        lemma_close_then_attach(s, vs.drop_first(), sink);
        assert(s.close().push(vs[0]) == s.close());
    }
}

/// Re-attachment replays only what is buffered and still undelivered: an
/// attach flushes exactly the part of the push history that no sink has
/// received yet, appends it to the delivered history — which only ever
/// grows — and a second attach after a first one, with any number of
/// pushes in between, replays none of the updates delivered before it.
pub proof fn lemma_reattach_no_replay(s: SubscriptionView, vs: Seq<NotificationView>, k1: u64, k2: u64)
    requires
        s.wf(),
        !(s.state is Closed),
    ensures
        s.attach_flushes() == s.history.skip(s.delivered.len() as int),
        s.attach(k1).delivered == s.history,
        s.attach(k1).push_all(vs).attach_flushes() == Seq::<NotificationView>::empty(),
        s.attach(k1).push_all(vs).attach(k2).delivered == s.history + vs,
{
    assert(s.attach_flushes() =~= s.history.skip(s.delivered.len() as int));
    assert(s.attach(k1).delivered =~= s.history);
    lemma_live_order(s.attach(k1), vs);
    let s2 = s.attach(k1).push_all(vs);
    assert(s2.attach_flushes() =~= Seq::<NotificationView>::empty());
    assert(s2.attach(k2).delivered =~= s.history + vs);
}

} // verus!
