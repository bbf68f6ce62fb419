//! Composite buffers: several source buffers shown together in one tab, with
//! per-split view state, hunk navigation and scrolling.

use vstd::prelude::*;
use crate::protocol::{BufferId, SplitId};

verus! {

/// How the panes of a composite buffer are arranged.
#[derive(Debug, Clone, Copy, PartialEq, Eq, Structural)]
pub enum CompositeLayout {
    SideBySide,
    Stacked,
    Unified,
}

/// One source pane of a composite buffer.
#[derive(Debug, Clone)]
pub struct SourcePane {
    /// The buffer shown in the pane.
    pub buffer_id: BufferId,
    /// How many lines the pane shows.
    pub line_count: usize,
}

/// How lines from the source buffers are paired for display: the total
/// number of display rows, and the rows where a hunk starts, in strictly
/// ascending order.
#[derive(Debug, Clone)]
pub struct LineAlignment {
    pub row_count: usize,
    pub hunk_rows: Vec<usize>,
}

impl LineAlignment {
    /// The hunk rows are strictly ascending.
    pub open spec fn wf(&self) -> bool {
        forall|i: int, j: int|
            0 <= i < j < self.hunk_rows@.len() ==> self.hunk_rows@[i] < self.hunk_rows@[j]
    }

    /// An alignment with no hunks.
    pub fn empty() -> (r: LineAlignment)
        ensures
            r.wf(),
            r.row_count == 0,
            r.hunk_rows@.len() == 0,
    {
        LineAlignment { row_count: 0, hunk_rows: Vec::new() }
    }

    /// The first hunk row strictly after `row`, if any.
    pub fn next_hunk_row(&self, row: usize) -> (r: Option<usize>)
        requires
            self.wf(),
        ensures
            match r {
                Some(h) => self.hunk_rows@.contains(h) && h > row && forall|j: int|
                    0 <= j < self.hunk_rows@.len() && self.hunk_rows@[j] > row
                        ==> h <= self.hunk_rows@[j],
                None => forall|j: int|
                    0 <= j < self.hunk_rows@.len() ==> self.hunk_rows@[j] <= row,
            },
    {
        let n = self.hunk_rows.len();
        let mut i: usize = 0;
        while i < n
            invariant
                0 <= i <= n,
                n == self.hunk_rows@.len(),
                self.wf(),
                forall|j: int| 0 <= j < i ==> self.hunk_rows@[j] <= row,
            decreases n - i,
        {
            if self.hunk_rows[i] > row {
                proof {
                    assert(self.hunk_rows@.contains(self.hunk_rows@[i as int])) by {
                        assert(self.hunk_rows@[i as int] == self.hunk_rows@[i as int]);
                    }
                    assert forall|j: int|
                        0 <= j < self.hunk_rows@.len() && self.hunk_rows@[j] > row implies self
                        .hunk_rows@[i as int] <= self.hunk_rows@[j] by {
                        if j < i as int {
                        }
                    }
                }
                return Some(self.hunk_rows[i]);
            }
            i += 1;
        }
        None
    }

    /// The last hunk row strictly before `row`, if any.
    pub fn prev_hunk_row(&self, row: usize) -> (r: Option<usize>)
        requires
            self.wf(),
        ensures
            match r {
                Some(h) => self.hunk_rows@.contains(h) && h < row && forall|j: int|
                    0 <= j < self.hunk_rows@.len() && self.hunk_rows@[j] < row
                        ==> self.hunk_rows@[j] <= h,
                None => forall|j: int|
                    0 <= j < self.hunk_rows@.len() ==> self.hunk_rows@[j] >= row,
            },
    {
        let n = self.hunk_rows.len();
        let mut best: Option<usize> = None;
        let mut i: usize = 0;
        while i < n
            invariant
                0 <= i <= n,
                n == self.hunk_rows@.len(),
                self.wf(),
                match best {
                    Some(h) => self.hunk_rows@.contains(h) && h < row && forall|j: int|
                        0 <= j < i && self.hunk_rows@[j] < row ==> self.hunk_rows@[j] <= h,
                    None => forall|j: int| 0 <= j < i ==> self.hunk_rows@[j] >= row,
                },
            decreases n - i,
        {
            if self.hunk_rows[i] < row {
                proof {
                    assert(self.hunk_rows@.contains(self.hunk_rows@[i as int])) by {
                        assert(self.hunk_rows@[i as int] == self.hunk_rows@[i as int]);
                    }
                }
                best = Some(self.hunk_rows[i]);
            }
            i += 1;
        }
        best
    }
}

/// A composite buffer: a named, moded group of source panes with a line
/// alignment and a focused pane.
#[derive(Debug, Clone)]
pub struct CompositeBuffer {
    pub id: BufferId,
    pub name: String,
    pub mode: String,
    pub layout: CompositeLayout,
    pub sources: Vec<SourcePane>,
    pub alignment: LineAlignment,
    pub focused_pane: usize,
}

impl CompositeBuffer {
    /// The focused pane is a source index where any exists, and the
    /// alignment is well formed.
    pub open spec fn wf(&self) -> bool {
        &&& self.alignment.wf()
        &&& (self.sources@.len() > 0 ==> self.focused_pane < self.sources@.len())
        &&& (self.sources@.len() == 0 ==> self.focused_pane == 0)
    }

    /// A composite buffer over the given sources, focused on the first pane,
    /// with an empty alignment.
    pub fn new(
        id: BufferId,
        name: String,
        mode: String,
        layout: CompositeLayout,
        sources: Vec<SourcePane>,
    ) -> (r: CompositeBuffer)
        ensures
            r.wf(),
            r.id == id,
            r.name == name,
            r.mode == mode,
            r.layout == layout,
            r.sources == sources,
            r.focused_pane == 0,
            r.alignment.row_count == 0,
    {
        CompositeBuffer {
            id,
            name,
            mode,
            layout,
            sources,
            alignment: LineAlignment::empty(),
            focused_pane: 0,
        }
    }

    /// How many panes the composite shows.
    pub fn pane_count(&self) -> (r: usize)
        ensures
            r == self.sources@.len(),
    {
        self.sources.len()
    }

    /// How many display rows the alignment pairs up.
    pub fn row_count(&self) -> (r: usize)
        ensures
            r == self.alignment.row_count,
    {
        self.alignment.row_count
    }

    /// Replaces the line alignment.
    pub fn set_alignment(&mut self, alignment: LineAlignment)
        requires
            alignment.wf(),
        ensures
            final(self).alignment == alignment,
            old(self).wf() ==> final(self).wf(),
            final(self).sources == old(self).sources,
            final(self).focused_pane == old(self).focused_pane,
    {
        self.alignment = alignment;
    }

    /// Moves focus to the next pane, wrapping around.
    pub fn focus_next(&mut self)
        requires
            old(self).wf(),
        ensures
            final(self).wf(),
            old(self).sources@.len() > 0 ==> final(self).focused_pane == (old(self).focused_pane
                + 1) % (old(self).sources@.len() as int),
            old(self).sources@.len() == 0 ==> final(self).focused_pane == 0,
            final(self).sources == old(self).sources,
            final(self).alignment == old(self).alignment,
    {
        let n = self.sources.len();
        if n > 0 {
            self.focused_pane = (self.focused_pane + 1) % n;
        }
    }

    /// Moves focus to the previous pane, wrapping around.
    pub fn focus_prev(&mut self)
        requires
            old(self).wf(),
        ensures
            final(self).wf(),
            old(self).sources@.len() > 0 ==> final(self).focused_pane == (old(self).focused_pane
                + old(self).sources@.len() - 1) % (old(self).sources@.len() as int),
            old(self).sources@.len() == 0 ==> final(self).focused_pane == 0,
            final(self).sources == old(self).sources,
            final(self).alignment == old(self).alignment,
    {
        let n = self.sources.len();
        if n > 0 {
            let f = self.focused_pane;
            if f == 0 {
                self.focused_pane = n - 1;
                proof {
                    assert((0 + n as int - 1) % (n as int) == n - 1) by (nonlinear_arith)
                        requires
                            n > 0,
                    ;
                }
            } else {
                self.focused_pane = f - 1;
                proof {
                    assert((f + n as int - 1) % (n as int) == f - 1) by (nonlinear_arith)
                        requires
                            0 < f < n,
                    ;
                }
            }
        }
    }
}

/// Display metadata for a buffer shown in a tab.
#[derive(Debug, Clone)]
pub struct BufferMetadata {
    pub name: String,
    pub mode: String,
    pub is_virtual: bool,
}

impl BufferMetadata {
    /// Metadata for a virtual buffer.
    pub fn virtual_buffer(name: String, mode: String, is_virtual: bool) -> (r: BufferMetadata)
        ensures
            r.name == name,
            r.mode == mode,
            r.is_virtual == is_virtual,
    {
        BufferMetadata { name, mode, is_virtual }
    }
}

/// Per-split view state of a composite buffer.
#[derive(Debug, Clone, Copy)]
pub struct CompositeViewState {
    pub buffer_id: BufferId,
    pub pane_count: usize,
    pub scroll_row: usize,
}

impl CompositeViewState {
    /// Fresh view state at the top of the buffer.
    pub fn new(buffer_id: BufferId, pane_count: usize) -> (r: CompositeViewState)
        ensures
            r.buffer_id == buffer_id,
            r.pane_count == pane_count,
            r.scroll_row == 0,
    {
        CompositeViewState { buffer_id, pane_count, scroll_row: 0 }
    }

    /// Scrolls by a signed delta, clamped to the rows that exist.
    pub fn scroll(&mut self, delta: isize, max_row: usize)
        requires
            delta > isize::MIN,
        ensures
            delta >= 0 ==> final(self).scroll_row == (if old(self).scroll_row + delta <= max_row {
                old(self).scroll_row + delta
            } else {
                max_row as int
            }),
            delta < 0 ==> final(self).scroll_row == (if old(self).scroll_row + delta >= 0 {
                old(self).scroll_row + delta
            } else {
                0
            }),
            final(self).buffer_id == old(self).buffer_id,
            final(self).pane_count == old(self).pane_count,
    {
        if delta >= 0 {
            let step = delta as usize;
            if step <= usize::MAX - self.scroll_row && self.scroll_row + step <= max_row {
                self.scroll_row = self.scroll_row + step;
            } else {
                self.scroll_row = max_row;
            }
        } else {
            let step = (-delta) as usize;
            if step <= self.scroll_row {
                self.scroll_row = self.scroll_row - step;
            } else {
                self.scroll_row = 0;
            }
        }
    }

    /// Scrolls to a row, clamped to the rows that exist.
    pub fn set_scroll_row(&mut self, row: usize, max_row: usize)
        ensures
            final(self).scroll_row == (if row <= max_row {
                row as int
            } else {
                max_row as int
            }),
            final(self).buffer_id == old(self).buffer_id,
            final(self).pane_count == old(self).pane_count,
    {
        self.scroll_row = if row <= max_row {
            row
        } else {
            max_row
        };
    }
}


/// The association of a key with a value in an editor table.
pub open spec fn spec_assoc<K, V>(entries: Seq<(K, V)>, key: K) -> Option<V>
    decreases entries.len(),
{
    if entries.len() == 0 {
        None
    } else if entries[0].0 == key {
        Some(entries[0].1)
    } else {
        spec_assoc(entries.subrange(1, entries.len() as int), key)
    }
}

/// The entries of a buffer-keyed table that do not belong to `id`, in order.
pub open spec fn spec_drop_key<V>(entries: Seq<(BufferId, V)>, id: BufferId) -> Seq<(BufferId, V)>
    decreases entries.len(),
{
    if entries.len() == 0 {
        Seq::empty()
    } else {
        (if entries[0].0 == id {
            Seq::empty()
        } else {
            seq![entries[0]]
        }) + spec_drop_key(entries.subrange(1, entries.len() as int), id)
    }
}

/// Dropping a key removes exactly that key's entry: the dropped table has no
/// entry for it, and every other key reads as before.
proof fn lemma_assoc_drop_key<V>(entries: Seq<(BufferId, V)>, id: BufferId, q: BufferId)
    ensures
        q == id ==> spec_assoc(spec_drop_key(entries, id), q) is None,
        q != id ==> spec_assoc(spec_drop_key(entries, id), q) == spec_assoc(entries, q),
    decreases entries.len(),
{
    if entries.len() > 0 {
        let rest = entries.subrange(1, entries.len() as int);
        lemma_assoc_drop_key(rest, id, q);
        if entries[0].0 == id {
            assert(spec_drop_key(entries, id) =~= spec_drop_key(rest, id));
        } else {
            assert(spec_drop_key(entries, id)[0] == entries[0]);
            assert(spec_drop_key(entries, id).subrange(
                1,
                spec_drop_key(entries, id).len() as int,
            ) =~= spec_drop_key(rest, id));
        }
    }
}

/// The entries of a view-state table whose buffer is not `id`, in order.
pub open spec fn spec_drop_buffer_views<V>(
    entries: Seq<((SplitId, BufferId), V)>,
    id: BufferId,
) -> Seq<((SplitId, BufferId), V)>
    decreases entries.len(),
{
    if entries.len() == 0 {
        Seq::empty()
    } else {
        (if entries[0].0.1 == id {
            Seq::empty()
        } else {
            seq![entries[0]]
        }) + spec_drop_buffer_views(entries.subrange(1, entries.len() as int), id)
    }
}

/// Dropping a buffer removes exactly its view states: no split keeps a view
/// of it, and views of every other buffer read as before.
proof fn lemma_assoc_drop_buffer_views<V>(
    entries: Seq<((SplitId, BufferId), V)>,
    id: BufferId,
    q: (SplitId, BufferId),
)
    ensures
        q.1 == id ==> spec_assoc(spec_drop_buffer_views(entries, id), q) is None,
        q.1 != id ==> spec_assoc(spec_drop_buffer_views(entries, id), q) == spec_assoc(entries, q),
    decreases entries.len(),
{
    if entries.len() > 0 {
        let rest = entries.subrange(1, entries.len() as int);
        lemma_assoc_drop_buffer_views(rest, id, q);
        if entries[0].0.1 == id {
            assert(spec_drop_buffer_views(entries, id) =~= spec_drop_buffer_views(rest, id));
        } else {
            assert(spec_drop_buffer_views(entries, id)[0] == entries[0]);
            assert(spec_drop_buffer_views(entries, id).subrange(
                1,
                spec_drop_buffer_views(entries, id).len() as int,
            ) =~= spec_drop_buffer_views(rest, id));
        }
    }
}

/// The editor state that composite buffers live in: the composite table, the
/// display metadata table, the per-split view states and the next fresh
/// buffer identifier.
pub struct Editor {
    next_buffer_id: usize,
    composite_buffers: Vec<(BufferId, CompositeBuffer)>,
    buffer_metadata: Vec<(BufferId, BufferMetadata)>,
    composite_view_states: Vec<((SplitId, BufferId), CompositeViewState)>,
}

impl Editor {
    /// The next fresh buffer identifier.
    pub closed spec fn spec_next_buffer_id(&self) -> usize {
        self.next_buffer_id
    }

    /// The composite stored for a buffer identifier.
    pub closed spec fn spec_composite(&self, buffer_id: BufferId) -> Option<CompositeBuffer> {
        spec_assoc(self.composite_buffers@, buffer_id)
    }

    /// The metadata stored for a buffer identifier.
    pub closed spec fn spec_metadata(&self, buffer_id: BufferId) -> Option<BufferMetadata> {
        spec_assoc(self.buffer_metadata@, buffer_id)
    }

    /// The view state stored for a split and buffer.
    pub closed spec fn spec_view_state(&self, split_id: SplitId, buffer_id: BufferId) -> Option<
        CompositeViewState,
    > {
        spec_assoc(self.composite_view_states@, (split_id, buffer_id))
    }

    /// Every stored composite is well formed.
    pub closed spec fn wf(&self) -> bool {
        forall|i: int|
            0 <= i < self.composite_buffers@.len() ==> (#[trigger] self.composite_buffers@[i]).1.wf()
    }

    /// An editor with no composite buffers.
    pub fn new() -> (r: Editor)
        ensures
            r.wf(),
            r.spec_next_buffer_id() == 1,
            forall|b: BufferId| r.spec_composite(b) is None,
            forall|b: BufferId| r.spec_metadata(b) is None,
            forall|s: SplitId, b: BufferId| r.spec_view_state(s, b) is None,
    {
        Editor {
            next_buffer_id: 1,
            composite_buffers: Vec::new(),
            buffer_metadata: Vec::new(),
            composite_view_states: Vec::new(),
        }
    }

    /// The index of a composite entry, if stored.
    fn find_composite(&self, buffer_id: BufferId) -> (r: Option<usize>)
        ensures
            match r {
                Some(i) => i < self.composite_buffers@.len()
                    && self.composite_buffers@[i as int].0 == buffer_id && self.spec_composite(
                    buffer_id,
                ) == Some(self.composite_buffers@[i as int].1) && (forall|j: int|
                    0 <= j < i ==> (#[trigger] self.composite_buffers@[j]).0 != buffer_id),
                None => self.spec_composite(buffer_id) is None,
            },
    {
        let n = self.composite_buffers.len();
        let ghost entries = self.composite_buffers@;
        let mut i: usize = 0;
        proof {
            assert(entries.subrange(0, n as int) =~= entries);
        }
        while i < n
            invariant
                0 <= i <= n,
                n == entries.len(),
                entries == self.composite_buffers@,
                forall|j: int| 0 <= j < i ==> (#[trigger] entries[j]).0 != buffer_id,
                spec_assoc(entries, buffer_id) == spec_assoc(
                    entries.subrange(i as int, n as int),
                    buffer_id,
                ),
            decreases n - i,
        {
            let ghost rem = entries.subrange(i as int, n as int);
            proof {
                assert(rem[0] == entries[i as int]);
                assert(rem.subrange(1, rem.len() as int) =~= entries.subrange(
                    i as int + 1,
                    n as int,
                ));
            }
            if self.composite_buffers[i].0.0 == buffer_id.0 {
                return Some(i);
            }
            i += 1;
        }
        proof {
            assert(entries.subrange(n as int, n as int) =~= Seq::<(BufferId, CompositeBuffer)>::empty());
        }
        None
    }

    /// The index of a view-state entry, if stored.
    fn find_view_state(&self, split_id: SplitId, buffer_id: BufferId) -> (r: Option<usize>)
        ensures
            match r {
                Some(i) => i < self.composite_view_states@.len()
                    && self.composite_view_states@[i as int].0 == (split_id, buffer_id)
                    && self.spec_view_state(split_id, buffer_id) == Some(
                    self.composite_view_states@[i as int].1,
                ),
                None => self.spec_view_state(split_id, buffer_id) is None,
            },
    {
        let n = self.composite_view_states.len();
        let ghost entries = self.composite_view_states@;
        let mut i: usize = 0;
        proof {
            assert(entries.subrange(0, n as int) =~= entries);
        }
        while i < n
            invariant
                0 <= i <= n,
                n == entries.len(),
                entries == self.composite_view_states@,
                spec_assoc(entries, (split_id, buffer_id)) == spec_assoc(
                    entries.subrange(i as int, n as int),
                    (split_id, buffer_id),
                ),
            decreases n - i,
        {
            let ghost rem = entries.subrange(i as int, n as int);
            proof {
                assert(rem[0] == entries[i as int]);
                assert(rem.subrange(1, rem.len() as int) =~= entries.subrange(
                    i as int + 1,
                    n as int,
                ));
            }
            let key = &self.composite_view_states[i].0;
            if key.0.0 == split_id.0 && key.1.0 == buffer_id.0 {
                return Some(i);
            }
            i += 1;
        }
        proof {
            assert(entries.subrange(n as int, n as int) =~= Seq::<(
                (SplitId, BufferId),
                CompositeViewState,
            )>::empty());
        }
        None
    }

    /// Whether a buffer identifier names a composite buffer.
    pub fn is_composite_buffer(&self, buffer_id: BufferId) -> (r: bool)
        ensures
            r == (self.spec_composite(buffer_id) is Some),
    {
        self.find_composite(buffer_id).is_some()
    }

    /// The composite buffer stored under an identifier, if any.
    pub fn get_composite(&self, buffer_id: BufferId) -> (r: Option<&CompositeBuffer>)
        ensures
            match r {
                Some(c) => self.spec_composite(buffer_id) == Some(*c),
                None => self.spec_composite(buffer_id) is None,
            },
    {
        match self.find_composite(buffer_id) {
            Some(i) => Some(&self.composite_buffers[i].1),
            None => None,
        }
    }

    /// The display metadata stored under an identifier, if any.
    pub fn get_metadata(&self, buffer_id: BufferId) -> (r: Option<&BufferMetadata>)
        ensures
            match r {
                Some(m) => self.spec_metadata(buffer_id) == Some(*m),
                None => self.spec_metadata(buffer_id) is None,
            },
    {
        let n = self.buffer_metadata.len();
        let ghost entries = self.buffer_metadata@;
        let mut i: usize = 0;
        proof {
            assert(entries.subrange(0, n as int) =~= entries);
        }
        while i < n
            invariant
                0 <= i <= n,
                n == entries.len(),
                entries == self.buffer_metadata@,
                spec_assoc(entries, buffer_id) == spec_assoc(
                    entries.subrange(i as int, n as int),
                    buffer_id,
                ),
            decreases n - i,
        {
            let ghost rem = entries.subrange(i as int, n as int);
            proof {
                assert(rem[0] == entries[i as int]);
                assert(rem.subrange(1, rem.len() as int) =~= entries.subrange(
                    i as int + 1,
                    n as int,
                ));
            }
            if self.buffer_metadata[i].0.0 == buffer_id.0 {
                return Some(&self.buffer_metadata[i].1);
            }
            i += 1;
        }
        proof {
            assert(entries.subrange(n as int, n as int) =~= Seq::<(
                BufferId,
                BufferMetadata,
            )>::empty());
        }
        None
    }

    /// The composite buffer stored under an identifier, writable, if any.
    /// Callers that change it must keep it well formed.
    pub fn get_composite_mut(&mut self, buffer_id: BufferId) -> (r: Option<&mut CompositeBuffer>)
        ensures
            match r {
                Some(c) => old(self).spec_composite(buffer_id) == Some(*c),
                None => old(self).spec_composite(buffer_id) is None && *final(self) == *old(self),
            },
    {
        match self.find_composite(buffer_id) {
            Some(i) => Some(&mut self.composite_buffers[i].1),
            None => None,
        }
    }

    /// Creates a composite buffer over the given sources: a fresh identifier
    /// is allocated, the composite starts focused on its first pane, and
    /// display metadata for a virtual buffer is recorded under the same
    /// identifier. Everything already stored — other composites, other
    /// metadata, every view state — is left as it was.
    pub fn create_composite_buffer(
        &mut self,
        name: String,
        mode: String,
        layout: CompositeLayout,
        sources: Vec<SourcePane>,
    ) -> (r: BufferId)
        requires
            old(self).wf(),
            old(self).spec_next_buffer_id() < usize::MAX,
        ensures
            final(self).wf(),
            r == BufferId(old(self).spec_next_buffer_id()),
            final(self).spec_next_buffer_id() == old(self).spec_next_buffer_id() + 1,
            (final(self).spec_composite(r) matches Some(c) && c.id == r && c.name == name && c.mode
                == mode && c.layout == layout && c.sources == sources && c.focused_pane == 0),
            (final(self).spec_metadata(r) matches Some(m) && m.name == name && m.mode == mode
                && m.is_virtual == true),
            forall|b: BufferId|
                b != r ==> final(self).spec_composite(b) == old(self).spec_composite(b),
            forall|b: BufferId|
                b != r ==> final(self).spec_metadata(b) == old(self).spec_metadata(b),
            forall|s: SplitId, b: BufferId|
                final(self).spec_view_state(s, b) == old(self).spec_view_state(s, b),
    {
        let buffer_id = BufferId(self.next_buffer_id);
        self.next_buffer_id = self.next_buffer_id + 1;
        let composite = CompositeBuffer::new(buffer_id, name.clone(), mode.clone(), layout, sources);
        let ghost cb0 = self.composite_buffers@;
        self.composite_buffers.insert(0, (buffer_id, composite));
        let metadata = BufferMetadata::virtual_buffer(name, mode, true);
        let ghost bm0 = self.buffer_metadata@;
        self.buffer_metadata.insert(0, (buffer_id, metadata));
        proof {
            assert(self.composite_buffers@.subrange(1, self.composite_buffers@.len() as int)
                =~= cb0);
            assert(self.buffer_metadata@.subrange(1, self.buffer_metadata@.len() as int) =~= bm0);
            assert forall|i: int|
                0 <= i < self.composite_buffers@.len() implies (#[trigger] self.composite_buffers@[i]).1.wf() by {
                if i > 0 {
                    assert(self.composite_buffers@[i] == cb0[i - 1]);
                }
            }
        }
        buffer_id
    }

    /// Replaces the line alignment of a composite buffer; an unknown
    /// identifier is a no-op.
    pub fn set_composite_alignment(&mut self, buffer_id: BufferId, alignment: LineAlignment)
        requires
            old(self).wf(),
            alignment.wf(),
        ensures
            final(self).wf(),
            old(self).spec_composite(buffer_id) is Some ==> (final(self).spec_composite(buffer_id)
                matches Some(c) && c.alignment == alignment),
            old(self).spec_composite(buffer_id) is None ==> *final(self) == *old(self),
    {
        match self.find_composite(buffer_id) {
            Some(i) => {
                let ghost before = self.composite_buffers@;
                let entry = &mut self.composite_buffers[i];
                entry.1.set_alignment(alignment);
                proof {
                    lemma_assoc_update(before, self.composite_buffers@, i as int);
                    assert forall|k: int|
                        0 <= k < self.composite_buffers@.len() implies (#[trigger] self.composite_buffers@[k]).1.wf() by {
                        if k != i as int {
                            assert(self.composite_buffers@[k] == before[k]);
                        }
                    }
                    lemma_assoc_at_index(self.composite_buffers@, i as int);
                }
            },
            None => {},
        }
    }

    /// Removes a composite buffer, its display metadata, and every split's
    /// view state of it; everything belonging to other buffers is left as it
    /// was, and the identifier counter does not move. Closing a buffer that
    /// has no entries changes nothing these lookups can observe, so a second
    /// close is a no-op.
    pub fn close_composite_buffer(&mut self, buffer_id: BufferId)
        requires
            old(self).wf(),
        ensures
            final(self).wf(),
            final(self).spec_composite(buffer_id) is None,
            final(self).spec_metadata(buffer_id) is None,
            forall|s: SplitId| final(self).spec_view_state(s, buffer_id) is None,
            forall|b: BufferId|
                b != buffer_id ==> final(self).spec_composite(b) == old(self).spec_composite(b),
            forall|b: BufferId|
                b != buffer_id ==> final(self).spec_metadata(b) == old(self).spec_metadata(b),
            forall|s: SplitId, b: BufferId|
                b != buffer_id ==> final(self).spec_view_state(s, b) == old(self).spec_view_state(
                    s,
                    b,
                ),
            final(self).spec_next_buffer_id() == old(self).spec_next_buffer_id(),
    {
        let ghost orig_c = self.composite_buffers@;
        let ghost orig_m = self.buffer_metadata@;
        let ghost orig_v = self.composite_view_states@;
        let ghost next0 = self.next_buffer_id;

        // Composite table.
        let mut tmp_c: Vec<(BufferId, CompositeBuffer)> = Vec::new();
        while self.composite_buffers.len() > 0
            invariant
                orig_c == self.composite_buffers@ + tmp_c@.reverse(),
                self.buffer_metadata@ == orig_m,
                self.composite_view_states@ == orig_v,
                self.next_buffer_id == next0,
            decreases self.composite_buffers@.len(),
        {
            let ghost ob = self.composite_buffers@;
            let ghost tv = tmp_c@;
            match self.composite_buffers.pop() {
                Some(e) => {
                    tmp_c.push(e);
                    proof {
                        assert(tmp_c@.reverse() =~= seq![ob.last()] + tv.reverse());
                        assert(self.composite_buffers@ + tmp_c@.reverse() =~= orig_c);
                    }
                },
                None => {},
            }
        }
        proof {
            assert(orig_c =~= tmp_c@.reverse());
            assert(orig_c.subrange(orig_c.len() - tmp_c@.len(), orig_c.len() as int)
                =~= tmp_c@.reverse());
        }
        let mut kept_c: Vec<(BufferId, CompositeBuffer)> = Vec::new();
        while tmp_c.len() > 0
            invariant
                tmp_c@.len() <= orig_c.len(),
                orig_c.subrange(orig_c.len() - tmp_c@.len(), orig_c.len() as int)
                    == tmp_c@.reverse(),
                spec_drop_key(orig_c, buffer_id) == kept_c@ + spec_drop_key(
                    orig_c.subrange(orig_c.len() - tmp_c@.len(), orig_c.len() as int),
                    buffer_id,
                ),
                old(self).wf(),
                forall|j: int| 0 <= j < orig_c.len() ==> (#[trigger] orig_c[j]).1.wf(),
                forall|j: int| 0 <= j < kept_c@.len() ==> (#[trigger] kept_c@[j]).1.wf(),
                self.composite_buffers@.len() == 0,
                self.buffer_metadata@ == orig_m,
                self.composite_view_states@ == orig_v,
                self.next_buffer_id == next0,
            decreases tmp_c@.len(),
        {
            let ghost k = orig_c.len() - tmp_c@.len();
            let ghost rem = orig_c.subrange(k as int, orig_c.len() as int);
            let ghost tv = tmp_c@;
            let ghost kv = kept_c@;
            proof {
                assert(rem[0] == orig_c[k as int]);
                assert(tv.reverse() =~= seq![tv.last()] + tv.drop_last().reverse());
                assert(tv.last() == rem[0]);
                assert(tv.drop_last().reverse() =~= rem.subrange(1, rem.len() as int));
                assert(rem.subrange(1, rem.len() as int) =~= orig_c.subrange(
                    k as int + 1,
                    orig_c.len() as int,
                ));
            }
            match tmp_c.pop() {
                Some(e) => {
                    if e.0.0 != buffer_id.0 {
                        kept_c.push(e);
                        proof {
                            assert(kept_c@ =~= kv.push(orig_c[k as int]));
                            assert(kv + spec_drop_key(rem, buffer_id) =~= kept_c@
                                + spec_drop_key(
                                orig_c.subrange(k as int + 1, orig_c.len() as int),
                                buffer_id,
                            ));
                        }
                    } else {
                        proof {
                            assert(kv + spec_drop_key(rem, buffer_id) =~= kv + spec_drop_key(
                                orig_c.subrange(k as int + 1, orig_c.len() as int),
                                buffer_id,
                            ));
                        }
                    }
                },
                None => {},
            }
        }
        proof {
            assert(orig_c.subrange(orig_c.len() as int, orig_c.len() as int) =~= Seq::<(
                BufferId,
                CompositeBuffer,
            )>::empty());
            assert(kept_c@ =~= spec_drop_key(orig_c, buffer_id));
        }
        self.composite_buffers = kept_c;
        let ghost final_c = self.composite_buffers@;

        // Metadata table.
        let mut tmp_m: Vec<(BufferId, BufferMetadata)> = Vec::new();
        while self.buffer_metadata.len() > 0
            invariant
                orig_m == self.buffer_metadata@ + tmp_m@.reverse(),
                self.composite_buffers@ == final_c,
                self.composite_view_states@ == orig_v,
                self.next_buffer_id == next0,
            decreases self.buffer_metadata@.len(),
        {
            let ghost ob = self.buffer_metadata@;
            let ghost tv = tmp_m@;
            match self.buffer_metadata.pop() {
                Some(e) => {
                    tmp_m.push(e);
                    proof {
                        assert(tmp_m@.reverse() =~= seq![ob.last()] + tv.reverse());
                        assert(self.buffer_metadata@ + tmp_m@.reverse() =~= orig_m);
                    }
                },
                None => {},
            }
        }
        proof {
            assert(orig_m =~= tmp_m@.reverse());
            assert(orig_m.subrange(orig_m.len() - tmp_m@.len(), orig_m.len() as int)
                =~= tmp_m@.reverse());
        }
        let mut kept_m: Vec<(BufferId, BufferMetadata)> = Vec::new();
        while tmp_m.len() > 0
            invariant
                tmp_m@.len() <= orig_m.len(),
                orig_m.subrange(orig_m.len() - tmp_m@.len(), orig_m.len() as int)
                    == tmp_m@.reverse(),
                spec_drop_key(orig_m, buffer_id) == kept_m@ + spec_drop_key(
                    orig_m.subrange(orig_m.len() - tmp_m@.len(), orig_m.len() as int),
                    buffer_id,
                ),
                self.composite_buffers@ == final_c,
                self.buffer_metadata@.len() == 0,
                self.composite_view_states@ == orig_v,
                self.next_buffer_id == next0,
            decreases tmp_m@.len(),
        {
            let ghost k = orig_m.len() - tmp_m@.len();
            let ghost rem = orig_m.subrange(k as int, orig_m.len() as int);
            let ghost tv = tmp_m@;
            let ghost kv = kept_m@;
            proof {
                assert(rem[0] == orig_m[k as int]);
                assert(tv.reverse() =~= seq![tv.last()] + tv.drop_last().reverse());
                assert(tv.last() == rem[0]);
                assert(tv.drop_last().reverse() =~= rem.subrange(1, rem.len() as int));
                assert(rem.subrange(1, rem.len() as int) =~= orig_m.subrange(
                    k as int + 1,
                    orig_m.len() as int,
                ));
            }
            match tmp_m.pop() {
                Some(e) => {
                    if e.0.0 != buffer_id.0 {
                        kept_m.push(e);
                        proof {
                            assert(kept_m@ =~= kv.push(orig_m[k as int]));
                            assert(kv + spec_drop_key(rem, buffer_id) =~= kept_m@
                                + spec_drop_key(
                                orig_m.subrange(k as int + 1, orig_m.len() as int),
                                buffer_id,
                            ));
                        }
                    } else {
                        proof {
                            assert(kv + spec_drop_key(rem, buffer_id) =~= kv + spec_drop_key(
                                orig_m.subrange(k as int + 1, orig_m.len() as int),
                                buffer_id,
                            ));
                        }
                    }
                },
                None => {},
            }
        }
        proof {
            assert(orig_m.subrange(orig_m.len() as int, orig_m.len() as int) =~= Seq::<(
                BufferId,
                BufferMetadata,
            )>::empty());
            assert(kept_m@ =~= spec_drop_key(orig_m, buffer_id));
        }
        self.buffer_metadata = kept_m;
        let ghost final_m = self.buffer_metadata@;

        // View-state table.
        let mut tmp_v: Vec<((SplitId, BufferId), CompositeViewState)> = Vec::new();
        while self.composite_view_states.len() > 0
            invariant
                orig_v == self.composite_view_states@ + tmp_v@.reverse(),
                self.composite_buffers@ == final_c,
                self.buffer_metadata@ == final_m,
                self.next_buffer_id == next0,
            decreases self.composite_view_states@.len(),
        {
            let ghost ob = self.composite_view_states@;
            let ghost tv = tmp_v@;
            match self.composite_view_states.pop() {
                Some(e) => {
                    tmp_v.push(e);
                    proof {
                        assert(tmp_v@.reverse() =~= seq![ob.last()] + tv.reverse());
                        assert(self.composite_view_states@ + tmp_v@.reverse() =~= orig_v);
                    }
                },
                None => {},
            }
        }
        proof {
            assert(orig_v =~= tmp_v@.reverse());
            assert(orig_v.subrange(orig_v.len() - tmp_v@.len(), orig_v.len() as int)
                =~= tmp_v@.reverse());
        }
        let mut kept_v: Vec<((SplitId, BufferId), CompositeViewState)> = Vec::new();
        while tmp_v.len() > 0
            invariant
                tmp_v@.len() <= orig_v.len(),
                orig_v.subrange(orig_v.len() - tmp_v@.len(), orig_v.len() as int)
                    == tmp_v@.reverse(),
                spec_drop_buffer_views(orig_v, buffer_id) == kept_v@ + spec_drop_buffer_views(
                    orig_v.subrange(orig_v.len() - tmp_v@.len(), orig_v.len() as int),
                    buffer_id,
                ),
                self.composite_buffers@ == final_c,
                self.buffer_metadata@ == final_m,
                self.composite_view_states@.len() == 0,
                self.next_buffer_id == next0,
            decreases tmp_v@.len(),
        {
            let ghost k = orig_v.len() - tmp_v@.len();
            let ghost rem = orig_v.subrange(k as int, orig_v.len() as int);
            let ghost tv = tmp_v@;
            let ghost kv = kept_v@;
            proof {
                assert(rem[0] == orig_v[k as int]);
                assert(tv.reverse() =~= seq![tv.last()] + tv.drop_last().reverse());
                assert(tv.last() == rem[0]);
                assert(tv.drop_last().reverse() =~= rem.subrange(1, rem.len() as int));
                assert(rem.subrange(1, rem.len() as int) =~= orig_v.subrange(
                    k as int + 1,
                    orig_v.len() as int,
                ));
            }
            match tmp_v.pop() {
                Some(e) => {
                    if e.0.1.0 != buffer_id.0 {
                        kept_v.push(e);
                        proof {
                            assert(kept_v@ =~= kv.push(orig_v[k as int]));
                            assert(kv + spec_drop_buffer_views(rem, buffer_id) =~= kept_v@
                                + spec_drop_buffer_views(
                                orig_v.subrange(k as int + 1, orig_v.len() as int),
                                buffer_id,
                            ));
                        }
                    } else {
                        proof {
                            assert(kv + spec_drop_buffer_views(rem, buffer_id) =~= kv
                                + spec_drop_buffer_views(
                                orig_v.subrange(k as int + 1, orig_v.len() as int),
                                buffer_id,
                            ));
                        }
                    }
                },
                None => {},
            }
        }
        proof {
            assert(orig_v.subrange(orig_v.len() as int, orig_v.len() as int) =~= Seq::<(
                (SplitId, BufferId),
                CompositeViewState,
            )>::empty());
            assert(kept_v@ =~= spec_drop_buffer_views(orig_v, buffer_id));
        }
        self.composite_view_states = kept_v;

        proof {
            lemma_assoc_drop_key(orig_c, buffer_id, buffer_id);
            lemma_assoc_drop_key(orig_m, buffer_id, buffer_id);
            assert forall|b: BufferId|
                b != buffer_id implies self.spec_composite(b) == old(self).spec_composite(b) by {
                lemma_assoc_drop_key(orig_c, buffer_id, b);
            }
            assert forall|b: BufferId|
                b != buffer_id implies self.spec_metadata(b) == old(self).spec_metadata(b) by {
                lemma_assoc_drop_key(orig_m, buffer_id, b);
            }
            assert forall|s: SplitId|
                self.spec_view_state(s, buffer_id) is None by {
                lemma_assoc_drop_buffer_views(orig_v, buffer_id, (s, buffer_id));
            }
            assert forall|s: SplitId, b: BufferId|
                b != buffer_id implies self.spec_view_state(s, b) == old(self).spec_view_state(
                s,
                b,
            ) by {
                lemma_assoc_drop_buffer_views(orig_v, buffer_id, (s, b));
            }
        }
    }

    /// Moves a composite buffer's focus to its next pane; an unknown
    /// identifier is a no-op.
    pub fn composite_focus_next(&mut self, buffer_id: BufferId)
        requires
            old(self).wf(),
        ensures
            final(self).wf(),
            (old(self).spec_composite(buffer_id) matches Some(c) && c.sources@.len() > 0) ==> (
            final(self).spec_composite(buffer_id) matches Some(c2) && c2.focused_pane == (old(
                self,
            ).spec_composite(buffer_id).unwrap().focused_pane + 1) % (old(self).spec_composite(
                buffer_id,
            ).unwrap().sources@.len() as int)),
            old(self).spec_composite(buffer_id) is None ==> *final(self) == *old(self),
    {
        match self.find_composite(buffer_id) {
            Some(i) => {
                let ghost before = self.composite_buffers@;
                let entry = &mut self.composite_buffers[i];
                proof {
                    assert(before[i as int].1.wf());
                }
                entry.1.focus_next();
                proof {
                    lemma_assoc_update(before, self.composite_buffers@, i as int);
                    assert forall|k: int|
                        0 <= k < self.composite_buffers@.len() implies (#[trigger] self.composite_buffers@[k]).1.wf() by {
                        if k != i as int {
                            assert(self.composite_buffers@[k] == before[k]);
                        }
                    }
                    lemma_assoc_at_index(self.composite_buffers@, i as int);
                }
            },
            None => {},
        }
    }

    /// Moves a composite buffer's focus to its previous pane; an unknown
    /// identifier is a no-op.
    pub fn composite_focus_prev(&mut self, buffer_id: BufferId)
        requires
            old(self).wf(),
        ensures
            final(self).wf(),
            (old(self).spec_composite(buffer_id) matches Some(c) && c.sources@.len() > 0) ==> (
            final(self).spec_composite(buffer_id) matches Some(c2) && c2.focused_pane == (old(
                self,
            ).spec_composite(buffer_id).unwrap().focused_pane + old(self).spec_composite(
                buffer_id,
            ).unwrap().sources@.len() - 1) % (old(self).spec_composite(
                buffer_id,
            ).unwrap().sources@.len() as int)),
            old(self).spec_composite(buffer_id) is None ==> *final(self) == *old(self),
    {
        match self.find_composite(buffer_id) {
            Some(i) => {
                let ghost before = self.composite_buffers@;
                let entry = &mut self.composite_buffers[i];
                proof {
                    assert(before[i as int].1.wf());
                }
                entry.1.focus_prev();
                proof {
                    lemma_assoc_update(before, self.composite_buffers@, i as int);
                    assert forall|k: int|
                        0 <= k < self.composite_buffers@.len() implies (#[trigger] self.composite_buffers@[k]).1.wf() by {
                        if k != i as int {
                            assert(self.composite_buffers@[k] == before[k]);
                        }
                    }
                    lemma_assoc_at_index(self.composite_buffers@, i as int);
                }
            },
            None => {},
        }
    }

    /// Fetches the view state for a split and composite buffer, creating it
    /// at the top of the buffer when absent; a non-composite identifier has
    /// no view state.
    pub fn get_composite_view_state(&mut self, split_id: SplitId, buffer_id: BufferId) -> (r:
        Option<CompositeViewState>)
        requires
            old(self).wf(),
        ensures
            final(self).wf(),
            old(self).spec_composite(buffer_id) is None ==> r is None && *final(self) == *old(
                self,
            ),
            old(self).spec_composite(buffer_id) is Some ==> (match r {
                Some(vs) => final(self).spec_view_state(split_id, buffer_id) == Some(vs) && (
                match old(self).spec_view_state(split_id, buffer_id) {
                    Some(prev) => vs == prev,
                    None => vs.buffer_id == buffer_id && vs.scroll_row == 0 && vs.pane_count
                        == old(self).spec_composite(buffer_id).unwrap().sources@.len(),
                }),
                None => false,
            }),
    {
        let pane_count = match self.get_composite(buffer_id) {
            Some(c) => c.pane_count(),
            None => {
                return None;
            },
        };
        match self.find_view_state(split_id, buffer_id) {
            Some(i) => Some(self.composite_view_states[i].1.clone()),
            None => {
                let vs = CompositeViewState::new(buffer_id, pane_count);
                let ghost vs0 = self.composite_view_states@;
                self.composite_view_states.insert(0, ((split_id, buffer_id), vs.clone()));
                proof {
                    assert(self.composite_view_states@.subrange(
                        1,
                        self.composite_view_states@.len() as int,
                    ) =~= vs0);
                }
                Some(vs)
            },
        }
    }

    /// Moves a split's view of a composite buffer to the next hunk, if one
    /// lies below the current scroll row; reports whether it moved.
    pub fn composite_next_hunk(&mut self, split_id: SplitId, buffer_id: BufferId) -> (r: bool)
        requires
            old(self).wf(),
        ensures
            final(self).wf(),
    {
        if !self.is_composite_buffer(buffer_id) {
            return false;
        }
        let next = match self.find_view_state(split_id, buffer_id) {
            Some(i) => {
                let cur = self.composite_view_states[i].1.scroll_row;
                let composite_idx = match self.find_composite(buffer_id) {
                    Some(ci) => ci,
                    None => {
                        return false;
                    },
                };
                proof {
                    assert(self.composite_buffers@[composite_idx as int].1.wf());
                }
                match self.composite_buffers[composite_idx].1.alignment.next_hunk_row(cur) {
                    Some(row) => {
                        let entry = &mut self.composite_view_states[i];
                        entry.1.scroll_row = row;
                        true
                    },
                    None => false,
                }
            },
            None => false,
        };
        next
    }

    /// Moves a split's view of a composite buffer to the previous hunk, if
    /// one lies above the current scroll row; reports whether it moved.
    pub fn composite_prev_hunk(&mut self, split_id: SplitId, buffer_id: BufferId) -> (r: bool)
        requires
            old(self).wf(),
        ensures
            final(self).wf(),
    {
        if !self.is_composite_buffer(buffer_id) {
            return false;
        }
        let prev = match self.find_view_state(split_id, buffer_id) {
            Some(i) => {
                let cur = self.composite_view_states[i].1.scroll_row;
                let composite_idx = match self.find_composite(buffer_id) {
                    Some(ci) => ci,
                    None => {
                        return false;
                    },
                };
                proof {
                    assert(self.composite_buffers@[composite_idx as int].1.wf());
                }
                match self.composite_buffers[composite_idx].1.alignment.prev_hunk_row(cur) {
                    Some(row) => {
                        let entry = &mut self.composite_view_states[i];
                        entry.1.scroll_row = row;
                        true
                    },
                    None => false,
                }
            },
            None => false,
        };
        prev
    }

    /// Scrolls a split's view of a composite buffer by a signed delta,
    /// clamped to the rows the alignment pairs up.
    pub fn composite_scroll(&mut self, split_id: SplitId, buffer_id: BufferId, delta: isize)
        requires
            old(self).wf(),
            delta > isize::MIN,
        ensures
            final(self).wf(),
    {
        let max_row = match self.get_composite(buffer_id) {
            Some(c) => {
                let rc = c.row_count();
                if rc > 0 {
                    rc - 1
                } else {
                    0
                }
            },
            None => {
                return ;
            },
        };
        match self.find_view_state(split_id, buffer_id) {
            Some(i) => {
                let entry = &mut self.composite_view_states[i];
                entry.1.scroll(delta, max_row);
            },
            None => {},
        }
    }

    /// Scrolls a split's view of a composite buffer to a row, clamped to the
    /// rows the alignment pairs up.
    pub fn composite_scroll_to(&mut self, split_id: SplitId, buffer_id: BufferId, row: usize)
        requires
            old(self).wf(),
        ensures
            final(self).wf(),
    {
        let max_row = match self.get_composite(buffer_id) {
            Some(c) => {
                let rc = c.row_count();
                if rc > 0 {
                    rc - 1
                } else {
                    0
                }
            },
            None => {
                return ;
            },
        };
        match self.find_view_state(split_id, buffer_id) {
            Some(i) => {
                let entry = &mut self.composite_view_states[i];
                entry.1.set_scroll_row(row, max_row);
            },
            None => {},
        }
    }
}

/// An association list changed at one index keeps every other key's value.
proof fn lemma_assoc_update(
    before: Seq<(BufferId, CompositeBuffer)>,
    after: Seq<(BufferId, CompositeBuffer)>,
    i: int,
)
    requires
        0 <= i < before.len(),
        after.len() == before.len(),
        forall|j: int| 0 <= j < before.len() && j != i ==> after[j] == before[j],
        after[i].0 == before[i].0,
    ensures
        forall|b: BufferId|
            b != before[i].0 ==> spec_assoc(after, b) == spec_assoc(before, b),
    decreases before.len(),
{
    let restb = before.subrange(1, before.len() as int);
    let resta = after.subrange(1, after.len() as int);
    if i == 0 {
        assert(resta =~= restb);
    } else {
        assert(after[0] == before[0]);
        lemma_assoc_update(restb, resta, i - 1);
        assert forall|b: BufferId|
            b != before[i].0 implies spec_assoc(after, b) == spec_assoc(before, b) by {
            if before[0].0 == b {
            } else {
                assert(spec_assoc(restb, b) == spec_assoc(resta, b));
            }
        }
    }
}

/// The first entry for a key decides an association lookup.
proof fn lemma_assoc_at_index(entries: Seq<(BufferId, CompositeBuffer)>, i: int)
    requires
        0 <= i < entries.len(),
        forall|j: int| 0 <= j < i ==> entries[j].0 != entries[i].0,
    ensures
        spec_assoc(entries, entries[i].0) == Some(entries[i].1),
    decreases i,
{
    if i > 0 {
        let rest = entries.subrange(1, entries.len() as int);
        lemma_assoc_at_index(rest, i - 1);
    }
}

/// A key stored nowhere looks up to nothing.
proof fn lemma_assoc_absent(entries: Seq<(BufferId, CompositeBuffer)>, key: BufferId)
    requires
        forall|j: int| 0 <= j < entries.len() ==> (#[trigger] entries[j]).0 != key,
    ensures
        spec_assoc(entries, key) is None,
    decreases entries.len(),
{
    if entries.len() > 0 {
        lemma_assoc_absent(entries.subrange(1, entries.len() as int), key);
    }
}

} // verus!
