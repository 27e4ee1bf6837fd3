use vstd::prelude::*;

use crate::notifier::{NotifierRegistry, SinkAction};

verus! {

/// One registered streaming client: the connection id its output channel
/// is registered under — which also names the sink inside the notifier
/// registry — and the engine subscription it consumes.
#[derive(Debug, Clone, Copy, PartialEq, Eq, Structural)]
pub struct ClientEntry {
    pub client_id: u64,
    pub handle: i64,
}

/// No two entries share a connection id.
pub open spec fn unique_ids(s: Seq<ClientEntry>) -> bool {
    forall|i: int, j: int| 0 <= i < j < s.len()
        ==> (#[trigger] s[i]).client_id != (#[trigger] s[j]).client_id
}

/// The entries that survive a probe cycle: those whose probe did not fail,
/// in their original order.
pub open spec fn surviving(s: Seq<ClientEntry>, failed: Seq<u64>) -> Seq<ClientEntry>
    decreases s.len(),
{
    if s.len() == 0 {
        Seq::empty()
    } else if failed.contains(s[0].client_id) {
        surviving(s.drop_first(), failed)
    } else {
        Seq::empty().push(s[0]) + surviving(s.drop_first(), failed)
    }
}

/// The entries a probe cycle evicts: those whose probe failed, in their
/// original order.
pub open spec fn evicted(s: Seq<ClientEntry>, failed: Seq<u64>) -> Seq<ClientEntry>
    decreases s.len(),
{
    if s.len() == 0 {
        Seq::empty()
    } else if failed.contains(s[0].client_id) {
        Seq::empty().push(s[0]) + evicted(s.drop_first(), failed)
    } else {
        evicted(s.drop_first(), failed)
    }
}

/// The subscription handles of these entries, in order.
pub open spec fn handles_of(s: Seq<ClientEntry>) -> Seq<i64> {
    s.map_values(|e: ClientEntry| e.handle)
}

/// How many entries answer to this connection id.
pub open spec fn count_id(s: Seq<ClientEntry>, c: u64) -> nat
    decreases s.len(),
{
    if s.len() == 0 {
        0
    } else if s[0].client_id == c {
        1 + count_id(s.drop_first(), c)
    } else {
        count_id(s.drop_first(), c)
    }
}

/// The registry of live streaming clients. A long-lived connection can die
/// without a clean close, so the transport layer probes every registered
/// channel on a fixed period and reports the connection ids whose probe
/// send failed; the registry decides, from that point-in-time snapshot,
/// which entries to drop and which engine subscriptions to release.
pub struct Clients {
    /// The registered clients, in registration order.
    pub entries: Vec<ClientEntry>,
    /// The next connection id to hand out; ids are never reused.
    pub next_id: u64,
}

impl Clients {
    /// Ids are unique and below the allocation counter.
    pub open spec fn wf(self) -> bool {
        &&& unique_ids(self.entries@)
        &&& forall|i: int| 0 <= i < self.entries@.len()
            ==> (#[trigger] self.entries@[i]).client_id < self.next_id
    }

    /// Whether some entry answers to this connection id.
    pub open spec fn has_client(self, c: u64) -> bool {
        exists|i: int| 0 <= i < self.entries@.len()
            && (#[trigger] self.entries@[i]).client_id == c
    }

    /// Constructs an empty client registry.
    pub fn create() -> (c: Clients)
        ensures
            c.wf(),
            c.entries@.len() == 0,
            c.next_id == 0,
    {
        Clients { entries: Vec::new(), next_id: 0 }
    }

    /// Registers a new streaming client for the subscription under
    /// `handle`: allocates a fresh connection id, attaches the client's
    /// sink — named by that id — through the notifier registry (flushing
    /// anything buffered, or terminating at once if the subscription is
    /// closed or unknown), and records the entry. Returns the new
    /// connection id and the sink actions the caller must perform.
    pub fn new_client(
        &mut self,
        notifier: &mut NotifierRegistry,
        handle: i64,
    ) -> (r: (u64, Vec<SinkAction>))
        requires
            old(self).wf(),
            old(notifier).wf(),
            old(self).next_id < u64::MAX,
        ensures
            final(self).wf(),
            final(notifier).wf(),
            r.0 == old(self).next_id,
            final(self).next_id == old(self).next_id + 1,
            final(self).entries@ == old(self).entries@.push(
                ClientEntry { client_id: r.0, handle },
            ),
            old(notifier).has(handle) ==> final(notifier).sub(handle)
                == old(notifier).sub(handle).attach(r.0),
            !old(notifier).has(handle) ==> final(notifier).subs@ == old(notifier).subs@
                && r.1@.len() == 1
                && (r.1@[0] matches SinkAction::Terminate { sink } && sink == r.0),
            old(notifier).has(handle) && !(old(notifier).sub(handle).state is Closed)
                ==> r.1@.len() == old(notifier).sub(handle).attach_flushes().len()
                    && (forall|i: int| 0 <= i < r.1@.len()
                        ==> ((#[trigger] r.1@[i]) matches SinkAction::Deliver { sink, update }
                            && sink == r.0
                            && update@ == old(notifier).sub(handle).attach_flushes()[i])),
            old(notifier).has(handle) && old(notifier).sub(handle).state is Closed
                ==> r.1@.len() == 1
                    && (r.1@[0] matches SinkAction::Terminate { sink } && sink == r.0),
            forall|g: i64| #[trigger] final(notifier).has(g) <==> old(notifier).has(g),
            forall|g: i64| g != handle && old(notifier).has(g)
                ==> #[trigger] final(notifier).sub(g) == old(notifier).sub(g),
    {
        let id = self.next_id;
        self.next_id = self.next_id + 1;
        let acts = notifier.attach(handle, id);
        self.entries.push(ClientEntry { client_id: id, handle });
        (id, acts)
    }

    /// The point-in-time snapshot a probe cycle walks: every registered
    /// connection id, in registration order.
    pub fn ids(&self) -> (v: Vec<u64>)
        ensures
            v@.len() == self.entries@.len(),
            forall|i: int| 0 <= i < v@.len() ==> v@[i] == self.entries@[i].client_id,
    {
        let mut v: Vec<u64> = Vec::new();
        let n = self.entries.len();
        let mut i: usize = 0;
        while i < n
            invariant
                n == self.entries@.len(),
                i <= n,
                v@.len() == i,
                forall|j: int| 0 <= j < i ==> v@[j] == self.entries@[j].client_id,
            decreases n - i,
        {
            v.push(self.entries[i].client_id);
            i = i + 1;
        }
        v
    }

    /// Applies the outcome of one probe cycle: every entry whose probe
    /// failed is removed — a dead client never survives into the next
    /// cycle — and its subscription handle is returned, one handle per
    /// removed entry, so that the caller issues exactly one unsubscribe
    /// for each. Entries whose probe succeeded are untouched, in order.
    pub fn evict_failed(&mut self, failed: &Vec<u64>) -> (handles: Vec<i64>)
        requires
            old(self).wf(),
        ensures
            final(self).wf(),
            final(self).next_id == old(self).next_id,
            final(self).entries@ == surviving(old(self).entries@, failed@),
            handles@ == handles_of(evicted(old(self).entries@, failed@)),
    {
        let ghost e0 = self.entries@;
        let n = self.entries.len();
        let mut kept: Vec<ClientEntry> = Vec::new();
        let mut handles: Vec<i64> = Vec::new();
        let mut i: usize = 0;
        proof {
            assert(e0.skip(0) =~= e0);
            assert(kept@ + surviving(e0, failed@) =~= surviving(e0, failed@));
            assert(handles@ + handles_of(evicted(e0, failed@)) =~= handles_of(
                evicted(e0, failed@),
            ));
        }
        while i < n
            invariant
                n == self.entries@.len(),
                self.entries@ == e0,
                self.next_id == old(self).next_id,
                i <= n,
                kept@ + surviving(e0.skip(i as int), failed@) == surviving(e0, failed@),
                handles_of(evicted(e0, failed@)) == handles@ + handles_of(
                    evicted(e0.skip(i as int), failed@),
                ),
            decreases n - i,
        {
            let e = self.entries[i];
            let ghost tail = e0.skip(i as int);
            proof {
                assert(tail.len() > 0);
                assert(tail[0] == e0[i as int]);
                assert(tail.drop_first() =~= e0.skip(i as int + 1));
            }
            if contains_id(failed, e.client_id) {
                handles.push(e.handle);
                proof {
                    assert(evicted(tail, failed@) == Seq::empty().push(e) + evicted(
                        tail.drop_first(),
                        failed@,
                    ));
                    assert(handles_of(evicted(tail, failed@)) =~= Seq::empty().push(e.handle)
                        + handles_of(evicted(tail.drop_first(), failed@)));
                    assert(handles@ + handles_of(evicted(e0.skip(i as int + 1), failed@))
                        =~= (handles@.drop_last() + handles_of(evicted(tail, failed@))));
                    assert(handles_of(evicted(e0, failed@)) =~= handles@ + handles_of(
                        evicted(e0.skip(i as int + 1), failed@),
                    ));
                }
            } else {
                kept.push(e);
                proof {
                    assert(surviving(tail, failed@) == Seq::empty().push(e) + surviving(
                        tail.drop_first(),
                        failed@,
                    ));
                    assert(kept@ + surviving(e0.skip(i as int + 1), failed@) =~= kept@.drop_last()
                        + surviving(tail, failed@));
                    assert(kept@ + surviving(e0.skip(i as int + 1), failed@) =~= surviving(
                        e0,
                        failed@,
                    ));
                }
            }
            i = i + 1;
        }
        proof {
            assert(e0.skip(n as int) =~= Seq::<ClientEntry>::empty());
            assert(kept@ =~= surviving(e0, failed@));
            assert(handles@ =~= handles_of(evicted(e0, failed@)));
            lemma_surviving_wf(e0, failed@, old(self).next_id);
        }
        self.entries = kept;
        handles
    }
}

/// Whether this snapshot of probe outcomes names the given connection id.
fn contains_id(failed: &Vec<u64>, id: u64) -> (b: bool)
    ensures
        b == failed@.contains(id),
{
    let n = failed.len();
    let mut i: usize = 0;
    while i < n
        invariant
            n == failed@.len(),
            i <= n,
            forall|j: int| 0 <= j < i ==> failed@[j] != id,
        decreases n - i,
    {
        if failed[i] == id {
            return true;
        }
        i = i + 1;
    }
    false
}

/// Survivors of a probe cycle are drawn from the original entries: their
/// ids stay unique and below the original allocation counter.
proof fn lemma_surviving_wf(s: Seq<ClientEntry>, failed: Seq<u64>, bound: u64)
    requires
        unique_ids(s),
        forall|i: int| 0 <= i < s.len() ==> (#[trigger] s[i]).client_id < bound,
    ensures
        unique_ids(surviving(s, failed)),
        forall|j: int| 0 <= j < surviving(s, failed).len()
            ==> (#[trigger] surviving(s, failed)[j]).client_id < bound,
        forall|j: int| 0 <= j < surviving(s, failed).len()
            ==> exists|i: int| 0 <= i < s.len()
                && #[trigger] surviving(s, failed)[j] == s[i],
    decreases s.len(),
{
    if s.len() > 0 {
        let rest = s.drop_first();
        assert(forall|i: int| 0 <= i < rest.len() ==> (#[trigger] rest[i]).client_id < bound);
        lemma_surviving_wf(rest, failed, bound);
        let sv = surviving(s, failed);
        let svr = surviving(rest, failed);
        assert forall|j: int| 0 <= j < svr.len()
            implies exists|i: int| 0 <= i < s.len() && #[trigger] svr[j] == s[i] by {
            let i = choose|i: int| 0 <= i < rest.len() && svr[j] == rest[i];
            assert(svr[j] == s[i + 1]);
        }
        if failed.contains(s[0].client_id) {
            assert(sv == svr);
        } else {
            assert(sv == Seq::empty().push(s[0]) + svr);
            assert forall|a: int, b: int| 0 <= a < b < sv.len()
                implies (#[trigger] sv[a]).client_id != (#[trigger] sv[b]).client_id by {
                if a == 0 {
                    let i = choose|i: int| 0 <= i < rest.len() && svr[b - 1] == rest[i];
                    assert(sv[b] == rest[i]);
                    assert(s[0].client_id != s[i + 1].client_id);
                } else {
                    assert(svr[a - 1].client_id != svr[b - 1].client_id);
                }
            }
        }
    }
}

/// Liveness law: after a probe cycle whose failure snapshot names the
/// connection id `c`, no surviving entry answers to `c` — the dead client
/// is gone from the registry — and the evicted entries carry `c` exactly
/// as often as the registry did, which under unique ids is at most once:
/// exactly one unsubscribe is issued for a registered client that failed
/// its probe, and none for an unknown one.
pub proof fn lemma_probe_eviction(s: Seq<ClientEntry>, failed: Seq<u64>, c: u64)
    requires
        unique_ids(s),
        failed.contains(c),
    ensures
        forall|j: int| 0 <= j < surviving(s, failed).len()
            ==> (#[trigger] surviving(s, failed)[j]).client_id != c,
        count_id(evicted(s, failed), c) == count_id(s, c),
        count_id(s, c) <= 1,
    decreases s.len(),
{
    if s.len() > 0 {
        let rest = s.drop_first();
        lemma_probe_eviction(rest, failed, c);
        if s[0].client_id == c {
            assert(surviving(s, failed) == surviving(rest, failed));
            assert(count_id(rest, c) == 0) by {
                lemma_absent_count(rest, c, s);
            }
            assert(count_id(evicted(s, failed), c) == 1 + count_id(
                evicted(rest, failed),
                c,
            )) by {
                assert(evicted(s, failed) == Seq::empty().push(s[0]) + evicted(rest, failed));
                lemma_count_cons(s[0], evicted(rest, failed), c);
            }
            assert(count_id(evicted(rest, failed), c) == 0);
        } else {
            if failed.contains(s[0].client_id) {
                assert(surviving(s, failed) == surviving(rest, failed));
                assert(evicted(s, failed) == Seq::empty().push(s[0]) + evicted(rest, failed));
                lemma_count_cons(s[0], evicted(rest, failed), c);
            } else {
                let sv = surviving(s, failed);
                let svr = surviving(rest, failed);
                assert(sv == Seq::empty().push(s[0]) + svr);
                assert forall|j: int| 0 <= j < sv.len()
                    implies (#[trigger] sv[j]).client_id != c by {
                    if j > 0 {
                        assert(sv[j] == svr[j - 1]);
                    }
                }
            }
        }
    }
}

/// Prepending one entry adds one to the count of its own id and nothing
/// to any other.
proof fn lemma_count_cons(e: ClientEntry, s: Seq<ClientEntry>, c: u64)
    ensures
        e.client_id == c ==> count_id(Seq::empty().push(e) + s, c) == 1 + count_id(s, c),
        e.client_id != c ==> count_id(Seq::empty().push(e) + s, c) == count_id(s, c),
{
    let t = Seq::empty().push(e) + s;
    assert(t.len() == 1 + s.len());
    assert(t[0] == e);
    assert(t.drop_first() =~= s);
}

/// In a registry of unique ids, an id held by one entry is held by no
/// entry of the rest.
proof fn lemma_absent_count(rest: Seq<ClientEntry>, c: u64, s: Seq<ClientEntry>)
    requires
        unique_ids(s),
        s.len() > 0,
        rest == s.drop_first(),
        s[0].client_id == c,
    ensures
        count_id(rest, c) == 0,
    decreases rest.len(),
{
    if rest.len() > 0 {
        assert(rest[0] == s[1]);
        assert(s[0].client_id != s[1].client_id);
        let s2 = s.remove(1);
        assert(s2.len() == s.len() - 1);
        assert(s2[0] == s[0]);
        assert forall|i: int, j: int| 0 <= i < j < s2.len()
            implies (#[trigger] s2[i]).client_id != (#[trigger] s2[j]).client_id by {
            let i0 = if i < 1 { i } else { i + 1 };
            let j0 = if j < 1 { j } else { j + 1 };
            assert(s[i0].client_id != s[j0].client_id);
        }
        assert(s2.drop_first() =~= rest.drop_first());
        lemma_absent_count(rest.drop_first(), c, s2);
        assert(count_id(rest, c) == count_id(rest.drop_first(), c));
    }
}

} // verus!
