//! The asynchronous call protocol: request identifiers, the pending-response
//! set, and the commands the host exchanges with the editor.
//!
//! A request identifier is allocated exactly once per asynchronous call,
//! monotonically increasing from one. The pending set tracks the identifiers
//! whose responses are still owed; delivery and cancellation race by a single
//! removal — whichever side removes the entry first wins, and the other
//! observes an absent entry and does nothing.

use vstd::prelude::*;

verus! {

/// An identifier for a buffer of the editor.
#[derive(Debug, Clone, Copy, PartialEq, Eq, Structural)]
pub struct BufferId(pub usize);

/// An identifier for a split of the editor's window.
#[derive(Debug, Clone, Copy, PartialEq, Eq, Structural)]
pub struct SplitId(pub usize);

/// A command placed on the outbound sink for the editor to perform. Fire-and
/// forget commands carry no identifier; an asynchronous call or cancellation
/// is correlated by its request identifier.
#[derive(Debug, Clone)]
pub enum PluginCommand {
    SetStatus { message: String },
    SetClipboard { text: String },
    InsertText { buffer_id: BufferId, position: usize, text: String },
    DeleteRange { buffer_id: BufferId, start: usize, end: usize },
    InsertAtCursor { text: String },
    OpenFileAtLocation { path: String, line: Option<usize>, column: Option<usize> },
    ShowBuffer { buffer_id: BufferId },
    CloseBuffer { buffer_id: BufferId },
    RegisterCommand { name: String, description: String, handler: String },
    UnregisterCommand { name: String },
    SetContext { name: String, active: bool },
    ReloadConfig,
    ApplyTheme { theme_name: String },
    ClearNamespace { buffer_id: BufferId, namespace: String },
    StartPrompt { label: String, prompt_type: String },
    StartPromptWithInitial { label: String, prompt_type: String, initial_value: String },
    CloseSplit { split_id: SplitId },
    SetSplitBuffer { split_id: SplitId, buffer_id: BufferId },
    FocusSplit { split_id: SplitId },
    SetBufferCursor { buffer_id: BufferId, position: usize },
    RefreshLines { buffer_id: BufferId },
    SetEditorMode { mode: Option<String> },
    /// An asynchronous call: the method asked for, its payload, and the
    /// request identifier that the response must carry.
    AsyncCall { id: u64, method: String, payload: String },
    /// Asks the editor to abandon the asynchronous call with this identifier.
    CancelRequest { id: u64 },
}

/// A response delivered for an asynchronous call.
#[derive(Debug, Clone)]
pub struct PluginResponse {
    /// The request identifier the response answers.
    pub id: u64,
    /// The response payload, handed to the resolving handler.
    pub payload: String,
    /// Whether the payload rejects the call instead of resolving it.
    pub is_error: bool,
}

/// The allocator of request identifiers: each allocation returns the next
/// identifier, strictly increasing from one.
pub struct RequestIds {
    next: u64,
}

impl RequestIds {
    /// The identifier the next allocation returns.
    pub closed spec fn spec_next(&self) -> u64 {
        self.next
    }

    /// A fresh allocator; its first identifier is one.
    pub fn new() -> (r: RequestIds)
        ensures
            r.spec_next() == 1,
    {
        RequestIds { next: 1 }
    }

    /// The identifier the next allocation returns; callers that cannot prove
    /// the counter below its ceiling test this before allocating.
    pub fn next_value(&self) -> (r: u64)
        ensures
            r == self.spec_next(),
    {
        self.next
    }

    /// Allocates one identifier. The result is the current counter and the
    /// counter moves up by one, so consecutive allocations yield strictly
    /// increasing, distinct identifiers.
    pub fn allocate(&mut self) -> (id: u64)
        requires
            old(self).spec_next() < u64::MAX,
        ensures
            id == old(self).spec_next(),
            final(self).spec_next() == old(self).spec_next() + 1,
    {
        let id = self.next;
        self.next = self.next + 1;
        id
    }
}

/// A run of consecutive allocations: `counters` are the allocator's counter
/// values before each call and after the last, and `ids` the identifiers the
/// calls returned. Each step is exactly what `allocate` ensures.
pub open spec fn spec_allocation_run(ids: Seq<u64>, counters: Seq<u64>) -> bool {
    &&& counters.len() == ids.len() + 1
    &&& forall|i: int|
        0 <= i < ids.len() ==> #[trigger] ids[i] == counters[i] && counters[i + 1] == counters[i]
            + 1
}

/// Identifier monotonicity: any number of consecutive allocations on one
/// allocator yields strictly increasing, pairwise distinct identifiers, and
/// from a fresh allocator — whose counter starts at one — the run is exactly
/// one, two, three, and so on.
pub proof fn lemma_request_ids_strictly_increase(ids: Seq<u64>, counters: Seq<u64>)
    requires
        spec_allocation_run(ids, counters),
    ensures
        forall|i: int| 0 <= i < ids.len() ==> #[trigger] ids[i] == counters[0] + i,
        forall|i: int, j: int| 0 <= i < j < ids.len() ==> ids[i] < ids[j],
        counters[0] == 1 ==> forall|i: int| 0 <= i < ids.len() ==> #[trigger] ids[i] == i + 1,
{
    assert forall|i: int| 0 <= i < ids.len() implies #[trigger] ids[i] == counters[0] + i by {
        lemma_counter_advances(ids, counters, i);
    }
}

/// After `i` allocations the counter has moved up by exactly `i`.
proof fn lemma_counter_advances(ids: Seq<u64>, counters: Seq<u64>, i: int)
    requires
        spec_allocation_run(ids, counters),
        0 <= i < ids.len(),
    ensures
        counters[i] == counters[0] + i,
        ids[i] == counters[0] + i,
    decreases i,
{
    if i > 0 {
        lemma_counter_advances(ids, counters, i - 1);
    }
}

/// The set of request identifiers whose responses are still owed. An
/// identifier is present at most once; insertion of a present identifier
/// changes nothing, and removal is a single atomic step so that a delivery
/// and a cancellation can race without double completion.
pub struct PendingSet {
    ids: Vec<u64>,
}

impl View for PendingSet {
    type V = Set<u64>;

    closed spec fn view(&self) -> Set<u64> {
        self.ids@.to_set()
    }
}

impl PendingSet {
    /// The entries hold no duplicates.
    pub closed spec fn wf(&self) -> bool {
        forall|i: int, j: int|
            0 <= i < j < self.ids@.len() ==> self.ids@[i] != self.ids@[j]
    }

    /// An empty pending set.
    pub fn new() -> (r: PendingSet)
        ensures
            r.wf(),
            r@ == Set::<u64>::empty(),
    {
        let r = PendingSet { ids: Vec::new() };
        proof {
            assert(r@ =~= Set::<u64>::empty());
        }
        r
    }

    /// Whether a response is still owed for `id`.
    pub fn contains(&self, id: u64) -> (r: bool)
        ensures
            r == self@.contains(id),
    {
        let n = self.ids.len();
        let mut i: usize = 0;
        while i < n
            invariant
                0 <= i <= n,
                n == self.ids@.len(),
                forall|j: int| 0 <= j < i ==> self.ids@[j] != id,
            decreases n - i,
        {
            if self.ids[i] == id {
                proof {
                    assert(self.ids@.contains(id));
                }
                return true;
            }
            i += 1;
        }
        proof {
            if self.ids@.contains(id) {
                let k = choose|k: int| 0 <= k < self.ids@.len() && self.ids@[k] == id;
            }
        }
        false
    }

    /// Marks a response as owed for `id`. Inserting an identifier that is
    /// already pending changes nothing: at most one completion per
    /// identifier.
    pub fn insert(&mut self, id: u64)
        requires
            old(self).wf(),
        ensures
            final(self).wf(),
            final(self)@ == old(self)@.insert(id),
    {
        if !self.contains(id) {
            self.ids.push(id);
            proof {
                assert forall|x: u64| self@.contains(x) implies old(self)@.insert(id).contains(x) by {
                    let k = choose|k: int|
                        0 <= k < self.ids@.len() && self.ids@[k] == x;
                    if k < self.ids@.len() - 1 {
                        assert(old(self).ids@[k] == x);
                    }
                }
                assert forall|x: u64| old(self)@.insert(id).contains(x) implies self@.contains(x) by {
                    if x == id {
                        assert(self.ids@[self.ids@.len() - 1] == x);
                    } else {
                        let k = choose|k: int|
                            0 <= k < old(self).ids@.len() && old(self).ids@[k] == x;
                        assert(self.ids@[k] == x);
                    }
                }
                assert(self@ =~= old(self)@.insert(id));
            }
        } else {
            proof {
                assert(self@ =~= old(self)@.insert(id));
            }
        }
    }

    /// Removes the entry for `id`, the single atomic step that decides the
    /// race between delivery and cancellation: the result says whether this
    /// call removed it. Removing an absent identifier changes nothing and
    /// reports `false`.
    pub fn remove(&mut self, id: u64) -> (was_pending: bool)
        requires
            old(self).wf(),
        ensures
            final(self).wf(),
            was_pending == old(self)@.contains(id),
            final(self)@ == old(self)@.remove(id),
    {
        let n = self.ids.len();
        let mut i: usize = 0;
        while i < n
            invariant
                0 <= i <= n,
                n == self.ids@.len(),
                old(self).wf(),
                self == old(self),
                forall|j: int| 0 <= j < i ==> self.ids@[j] != id,
            decreases n - i,
        {
            if self.ids[i] == id {
                let ghost before = self.ids@;
                self.ids.remove(i);
                proof {
                    assert(before.contains(id)) by {
                        assert(before[i as int] == id);
                    }
                    assert(self.wf()) by {
                        assert forall|a: int, b: int|
                            0 <= a < b < self.ids@.len() implies self.ids@[a] != self.ids@[b] by {
                            if a < i as int && b < i as int {
                            } else if a < i as int {
                                assert(self.ids@[b] == before[b + 1]);
                            } else {
                                assert(self.ids@[a] == before[a + 1]);
                                assert(self.ids@[b] == before[b + 1]);
                            }
                        }
                    }
                    assert forall|x: u64| self.ids@.to_set().contains(x) implies before.to_set()
                        .remove(id).contains(x) by {
                        let k = choose|k: int| 0 <= k < self.ids@.len() && self.ids@[k] == x;
                        if k < i as int {
                            assert(before[k] == x);
                        } else {
                            assert(before[k + 1] == x);
                        }
                        assert(x != id) by {
                            if k < i as int {
                            } else {
                                assert(before[k + 1] != before[i as int]);
                            }
                        }
                    }
                    assert forall|x: u64| before.to_set().remove(id).contains(x) implies self.ids@
                        .to_set().contains(x) by {
                        let k = choose|k: int| 0 <= k < before.len() && before[k] == x;
                        if k < i as int {
                            assert(self.ids@[k] == x);
                        } else {
                            assert(k != i as int);
                            assert(self.ids@[k - 1] == x);
                        }
                    }
                    assert(self@ =~= old(self)@.remove(id));
                }
                return true;
            }
            i += 1;
        }
        proof {
            if self.ids@.contains(id) {
                let k = choose|k: int| 0 <= k < self.ids@.len() && self.ids@[k] == id;
            }
            assert(self@ =~= old(self)@.remove(id));
        }
        false
    }
}

/// Delivery and cancellation race by one atomic removal, and the loser does
/// nothing: once either side has removed a pending identifier, the identifier
/// is absent, so a later delivery resolves nothing and a later cancellation
/// reports that nothing was cancelled, and the set is left exactly as the
/// winner left it — no entry leaks and nothing completes twice.
pub proof fn lemma_completion_race(pending: Set<u64>, id: u64)
    ensures
        !pending.remove(id).contains(id),
        pending.remove(id).remove(id) == pending.remove(id),
{
    assert(pending.remove(id).remove(id) =~= pending.remove(id));
}

/// What a cancellation reported.
#[derive(Debug, Clone, Copy, PartialEq, Eq, Structural)]
pub enum CancelOutcome {
    /// The entry was still pending and this cancellation removed it; the
    /// original response, if it arrives later, resolves nothing.
    Cancelled,
    /// The entry was already gone — completed or cancelled before — so
    /// nothing was cancelled.
    NotCancelled,
}

/// What a delivery did.
#[derive(Debug, Clone, Copy, PartialEq, Eq, Structural)]
pub enum DeliverOutcome {
    /// The entry was pending: it was removed and the response was handed on.
    Delivered,
    /// The identifier was unknown or already consumed: the delivery was
    /// silently ignored. Not an error — a cancellation may have removed the
    /// entry first.
    Ignored,
}

} // verus!
