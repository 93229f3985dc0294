//! Cached transcript rendering for the TUI.
//!
//! ## Per-cell revision caching
//!
//! Each cell index has a paired `revision: u64`. The cache keeps one
//! `CachedCell` per cell with the revision its lines were rendered at. On
//! `ensure`, a cell whose current revision matches the cached one (at an
//! unchanged width) keeps its rendered lines; any other cell takes the newly
//! rendered lines. The flattened transcript is then rebuilt from the first
//! cell that changed onward.

use ratatui::text::Line;
use std::sync::Arc;
use vstd::prelude::*;

verus! {

#[verifier::external_type_specification]
#[verifier::external_body]
pub struct ExLine<'a>(Line<'a>);

/// `<Line as Clone>::clone`: ratatui derives `Clone` for `Line`, so the copy
/// has the same style, alignment and spans as the original.
#[verifier::external_body]
fn copy_line(line: &Line<'static>) -> (copy: Line<'static>)
    ensures
        copy == *line,
{
    line.clone()
}

/// `<Arc<T> as Clone>::clone`: a second handle to the same allocation, so it
/// refers to the same value.
#[verifier::external_body]
fn share_lines(lines: &Arc<Vec<Line<'static>>>) -> (shared: Arc<Vec<Line<'static>>>)
    ensures
        shared == *lines,
{
    Arc::clone(lines)
}

/// Per-cell cached render output, reused across `ensure` calls while the
/// cell's revision counter is unchanged.
///
/// Lines are stored behind an `Arc` so that sharing a cached cell is cheap.
#[derive(Debug, Clone)]
pub struct CachedCell {
    /// Revision the cell was at when the lines were rendered.
    pub revision: u64,
    /// Rendered lines for this cell.
    pub lines: Arc<Vec<Line<'static>>>,
    /// Whether this cell's rendered output was empty.
    pub is_empty: bool,
}

/// What a cached cell contributes to the flattened transcript.
pub open spec fn shown(cell: CachedCell) -> Seq<Line<'static>> {
    if cell.is_empty {
        Seq::empty()
    } else {
        cell.lines@
    }
}

/// The transcript made of the cells' lines, in order, empty cells skipped.
pub open spec fn flatten(cells: Seq<CachedCell>) -> Seq<Line<'static>>
    decreases cells.len(),
{
    if cells.len() == 0 {
        Seq::empty()
    } else {
        flatten(cells.drop_last()) + shown(cells.last())
    }
}

/// Appending a cell appends what it shows.
pub proof fn lemma_flatten_push(cells: Seq<CachedCell>, cell: CachedCell)
    ensures
        flatten(cells.push(cell)) == flatten(cells) + shown(cell),
{
    assert(cells.push(cell).drop_last() =~= cells);
}

/// The transcript of a sequence of cells is that of any prefix followed by
/// that of the rest.
pub proof fn lemma_flatten_split(cells: Seq<CachedCell>, k: int)
    requires
        0 <= k <= cells.len(),
    ensures
        flatten(cells) == flatten(cells.take(k)) + flatten(cells.skip(k)),
    decreases cells.len(),
{
    if k == cells.len() {
        assert(cells.take(k) =~= cells);
        assert(cells.skip(k) =~= Seq::<CachedCell>::empty());
        assert(flatten(cells) + Seq::<Line<'static>>::empty() =~= flatten(cells));
    } else {
        let front = cells.drop_last();
        lemma_flatten_split(front, k);
        assert(front.take(k) =~= cells.take(k));
        assert(cells.skip(k).drop_last() =~= front.skip(k));
        assert(cells.skip(k).last() == cells.last());
        assert(flatten(cells.skip(k)) == flatten(front.skip(k)) + shown(cells.last()));
        assert(flatten(cells) =~= flatten(cells.take(k)) + flatten(cells.skip(k)));
    }
}

/// The window of `lines` shown from line `top` onward, at most `count` lines.
pub open spec fn visible_window(lines: Seq<Line<'static>>, top: int, count: int) -> Seq<Line<'static>> {
    if top >= lines.len() {
        Seq::empty()
    } else if top + count < lines.len() {
        lines.subrange(top, top + count)
    } else {
        lines.subrange(top, lines.len() as int)
    }
}

/// Whether `ensure` keeps the cached cell at `idx`: the width is unchanged,
/// one revision is given per cell, and the cached revision equals it.
pub open spec fn keeps_cell(
    cached: Seq<CachedCell>,
    cached_width: u16,
    width: u16,
    revisions: Seq<u64>,
    count: int,
    idx: int,
) -> bool {
    &&& cached_width == width
    &&& revisions.len() == count
    &&& idx < cached.len()
    &&& cached[idx].revision == revisions[idx]
}

/// The revision recorded for a re-rendered cell: its own counter when one is
/// given per cell, else `u64::MAX`, which no later call matches by accident.
pub open spec fn recorded_revision(revisions: Seq<u64>, count: int, idx: int) -> u64 {
    if revisions.len() == count {
        revisions[idx]
    } else {
        u64::MAX
    }
}

/// A cell rendered afresh from `lines` at `revision`.
pub open spec fn rendered_fresh(cell: CachedCell, lines: Seq<Line<'static>>, revision: u64) -> bool {
    &&& cell.revision == revision
    &&& cell.lines@ == lines
    &&& cell.is_empty == (lines.len() == 0)
}

/// What `ensure` leaves in `after`, starting from `before`, for the given
/// cells' lines, revisions and width: every cell that `keeps_cell` allows
/// is kept as it was, every other one is rendered afresh from the given
/// lines.
pub open spec fn ensured(
    before: TranscriptViewCache,
    after: TranscriptViewCache,
    cells: Seq<Seq<Line<'static>>>,
    revisions: Seq<u64>,
    width: u16,
) -> bool {
    &&& after.layout_width() == width
    &&& after.cells().len() == cells.len()
    &&& forall|i: int|
        0 <= i < cells.len() && keeps_cell(
            before.cells(),
            before.layout_width(),
            width,
            revisions,
            cells.len() as int,
            i,
        ) ==> #[trigger] after.cells()[i] == before.cells()[i]
    &&& forall|i: int|
        0 <= i < cells.len() && !keeps_cell(
            before.cells(),
            before.layout_width(),
            width,
            revisions,
            cells.len() as int,
            i,
        ) ==> rendered_fresh(
            #[trigger] after.cells()[i],
            cells[i],
            recorded_revision(revisions, cells.len() as int, i),
        )
}

/// The transcript of freshly rendered cells: their lines, in order.
pub open spec fn joined(cells: Seq<Seq<Line<'static>>>) -> Seq<Line<'static>>
    decreases cells.len(),
{
    if cells.len() == 0 {
        Seq::empty()
    } else {
        joined(cells.drop_last()) + cells.last()
    }
}

proof fn lemma_flatten_joined(cached: Seq<CachedCell>, cells: Seq<Seq<Line<'static>>>)
    requires
        cached.len() == cells.len(),
        forall|i: int| 0 <= i < cached.len() ==> shown(#[trigger] cached[i]) == cells[i],
    ensures
        flatten(cached) == joined(cells),
    decreases cached.len(),
{
    if cached.len() > 0 {
        let front = cached.drop_last();
        let rest = cells.drop_last();
        assert forall|i: int| 0 <= i < front.len() implies shown(#[trigger] front[i]) == rest[i] by {
            assert(front[i] == cached[i]);
        }
        lemma_flatten_joined(front, rest);
        assert(shown(cached.last()) == cells.last());
    }
}

/// Revision caching does not show in the output: when every cell that
/// `ensure` kept from the cache has the same lines as the cell given now
/// (what an unchanged revision counter promises), the transcript after
/// `ensure` is the given cells' lines, in order.
pub proof fn lemma_ensure_matches_fresh_render(
    before: TranscriptViewCache,
    after: TranscriptViewCache,
    cells: Seq<Seq<Line<'static>>>,
    revisions: Seq<u64>,
    width: u16,
)
    requires
        before.wf(),
        after.wf(),
        ensured(before, after, cells, revisions, width),
        forall|i: int|
            0 <= i < cells.len() && keeps_cell(
                before.cells(),
                before.layout_width(),
                width,
                revisions,
                cells.len() as int,
                i,
            ) ==> (#[trigger] before.cells()[i]).lines@ == cells[i],
    ensures
        after.rendered() == joined(cells),
{
    assert forall|i: int| 0 <= i < after.cells().len() implies shown(#[trigger] after.cells()[i]) == cells[i] by {
        if keeps_cell(before.cells(), before.layout_width(), width, revisions, cells.len() as int, i) {
            assert(after.cells()[i] == before.cells()[i]);
        }
    }
    lemma_flatten_joined(after.cells(), cells);
}

/// A width change busts the entire cache: after `ensure` at another width,
/// every cell is rendered afresh from the lines given.
pub proof fn lemma_width_change_rerenders_all(
    before: TranscriptViewCache,
    after: TranscriptViewCache,
    cells: Seq<Seq<Line<'static>>>,
    revisions: Seq<u64>,
    width: u16,
)
    requires
        ensured(before, after, cells, revisions, width),
        before.layout_width() != width,
    ensures
        forall|i: int|
            0 <= i < cells.len() ==> rendered_fresh(
                #[trigger] after.cells()[i],
                cells[i],
                recorded_revision(revisions, cells.len() as int, i),
            ),
{
    assert forall|i: int| 0 <= i < cells.len() implies rendered_fresh(
        #[trigger] after.cells()[i],
        cells[i],
        recorded_revision(revisions, cells.len() as int, i),
    ) by {
        assert(!keeps_cell(before.cells(), before.layout_width(), width, revisions, cells.len() as int, i));
    }
}

/// Calling `ensure` again at the same width, with the same number of cells
/// and every revision unchanged, keeps the whole cache: every cell and the
/// transcript stay as they were.
pub proof fn lemma_unchanged_revisions_keep_cache(
    before: TranscriptViewCache,
    after: TranscriptViewCache,
    cells: Seq<Seq<Line<'static>>>,
    revisions: Seq<u64>,
    width: u16,
)
    requires
        before.wf(),
        after.wf(),
        ensured(before, after, cells, revisions, width),
        before.layout_width() == width,
        cells.len() == before.cells().len(),
        revisions.len() == cells.len(),
        forall|i: int| 0 <= i < cells.len() ==> (#[trigger] before.cells()[i]).revision == revisions[i],
    ensures
        after.cells() == before.cells(),
        after.rendered() == before.rendered(),
{
    assert forall|i: int| 0 <= i < cells.len() implies #[trigger] after.cells()[i] == before.cells()[i] by {
        assert(keeps_cell(before.cells(), before.layout_width(), width, revisions, cells.len() as int, i));
    }
    assert(after.cells() =~= before.cells());
}

/// A second handle on a cached cell's lines.
fn share_cell(cell: &CachedCell) -> (shared: CachedCell)
    ensures
        shared == *cell,
{
    CachedCell { revision: cell.revision, lines: share_lines(&cell.lines), is_empty: cell.is_empty }
}

/// Cache of rendered transcript lines for the current viewport.
#[derive(Debug)]
pub struct TranscriptViewCache {
    /// Width used for last render.
    width: u16,
    /// Per-cell rendered output, indexed by current cell position.
    per_cell: Vec<CachedCell>,
    /// Flattened lines reassembled from `per_cell`.
    lines: Vec<Line<'static>>,
}

/// Copy of rendered lines, line by line.
fn copy_lines(lines: &Vec<Line<'static>>) -> (copy: Vec<Line<'static>>)
    ensures
        copy@ == lines@,
{
    let mut copy: Vec<Line<'static>> = Vec::with_capacity(lines.len());
    let mut k: usize = 0;
    while k < lines.len()
        invariant
            k <= lines@.len(),
            copy@ == lines@.take(k as int),
        decreases lines@.len() - k,
    {
        copy.push(copy_line(&lines[k]));
        k += 1;
        assert(copy@ =~= lines@.take(k as int));
    }
    assert(lines@.take(k as int) =~= lines@);
    copy
}

/// Append to `lines` what `cell` shows.
fn append_shown(lines: &mut Vec<Line<'static>>, cell: &CachedCell)
    ensures
        final(lines)@ == old(lines)@ + shown(*cell),
{
    if cell.is_empty {
        assert(old(lines)@ + shown(*cell) =~= old(lines)@);
        return;
    }
    let rendered: &Vec<Line<'static>> = &*cell.lines;
    let mut k: usize = 0;
    while k < rendered.len()
        invariant
            k <= rendered@.len(),
            rendered@ == shown(*cell),
            lines@ == old(lines)@ + rendered@.take(k as int),
        decreases rendered@.len() - k,
    {
        lines.push(copy_line(&rendered[k]));
        k += 1;
        assert(lines@ =~= old(lines)@ + rendered@.take(k as int));
    }
    assert(rendered@.take(k as int) =~= rendered@);
}

impl TranscriptViewCache {
    /// The width the cached lines were rendered at.
    pub closed spec fn layout_width(&self) -> u16 {
        self.width
    }

    /// The cached cells, in transcript order.
    pub closed spec fn cells(&self) -> Seq<CachedCell> {
        self.per_cell@
    }

    /// The flattened transcript.
    pub closed spec fn rendered(&self) -> Seq<Line<'static>> {
        self.lines@
    }

    /// The flattened transcript is that of the cached cells, and each cell
    /// is marked empty exactly when it has no lines.
    pub open spec fn wf(&self) -> bool {
        &&& self.rendered() == flatten(self.cells())
        &&& forall|i: int|
            0 <= i < self.cells().len() ==> (#[trigger] self.cells()[i]).is_empty == (
            self.cells()[i].lines@.len() == 0)
    }

    /// Create an empty cache.
    pub fn new() -> (cache: Self)
        ensures
            cache.wf(),
            cache.layout_width() == 0,
            cache.cells() == Seq::<CachedCell>::empty(),
            cache.rendered() == Seq::<Line<'static>>::empty(),
    {
        Self { width: 0, per_cell: Vec::new(), lines: Vec::new() }
    }

    /// Rebuild the flattened transcript from the cached cells. With a first
    /// changed index `start > 0`, the lines of the unchanged cells before it
    /// are kept and only the rest are appended again; `prior` are the cells
    /// the current lines were flattened from.
    fn reflatten(&mut self, first_dirty: Option<usize>, Ghost(prior): Ghost<Seq<CachedCell>>)
        requires
            ({
                let start = match first_dirty {
                    Some(f) => f as int,
                    None => 0,
                };
                start > 0 ==> {
                    &&& old(self).lines@ == flatten(prior)
                    &&& start <= prior.len()
                    &&& start <= old(self).per_cell@.len()
                    &&& old(self).per_cell@.take(start) == prior.take(start)
                }
            }),
        ensures
            final(self).lines@ == flatten(old(self).per_cell@),
            final(self).per_cell@ == old(self).per_cell@,
            final(self).width == old(self).width,
    {
        let start: usize = match first_dirty {
            Some(f) => f,
            None => 0,
        };
        let ghost cells = self.per_cell@;
        if start == 0 {
            self.lines.clear();
            assert(cells.take(0) =~= Seq::<CachedCell>::empty());
        } else {
            proof {
                lemma_flatten_split(prior, start as int);
                assert(cells.take(start as int) == prior.take(start as int));
            }
            let mut keep: usize = 0;
            let mut j: usize = 0;
            while j < start
                invariant
                    j <= start <= cells.len(),
                    self.per_cell@ == cells,
                    flatten(cells.take(start as int)).len() <= self.lines@.len(),
                    keep == flatten(cells.take(j as int)).len(),
                decreases start - j,
            {
                proof {
                    lemma_flatten_push(cells.take(j as int), cells[j as int]);
                    assert(cells.take(j + 1) =~= cells.take(j as int).push(cells[j as int]));
                    lemma_flatten_split(cells.take(start as int), j + 1);
                    assert(cells.take(start as int).take(j + 1) =~= cells.take(j + 1));
                }
                if !self.per_cell[j].is_empty {
                    let rendered: &Vec<Line<'static>> = &*self.per_cell[j].lines;
                    assert(rendered@ == shown(cells[j as int]));
                    assert(keep + rendered@.len() <= self.lines.len());
                    keep = keep + rendered.len();
                }
                j += 1;
            }
            self.lines.truncate(keep);
            assert(self.lines@ =~= flatten(cells.take(start as int)));
        }
        let mut j: usize = start;
        while j < self.per_cell.len()
            invariant
                start <= j <= cells.len(),
                self.per_cell@ == cells,
                self.width == old(self).width,
                self.lines@ == flatten(cells.take(j as int)),
            decreases cells.len() - j,
        {
            proof {
                lemma_flatten_push(cells.take(j as int), cells[j as int]);
                assert(cells.take(j + 1) =~= cells.take(j as int).push(cells[j as int]));
            }
            append_shown(&mut self.lines, &self.per_cell[j]);
            j += 1;
        }
        assert(cells.take(cells.len() as int) =~= cells);
    }

    /// Ensure cached lines match the provided cells and per-cell revisions.
    ///
    /// Reuses rendered lines for cells whose `cell_revisions[i]` matches the
    /// previously cached revision. Width changes bust the entire cache.
    ///
    /// # Arguments
    /// * `cells` - Renderable cell lines (each cell returns Vec<Line>)
    /// * `cell_revisions` - Revision counters for each cell
    /// * `width` - Terminal width for wrapping
    pub fn ensure(&mut self, cells: &[Vec<Line<'static>>], cell_revisions: &[u64], width: u16)
        requires
            old(self).wf(),
        ensures
            final(self).wf(),
            ensured(*old(self), *final(self), cells@.map_values(|c: Vec<Line<'static>>| c@), cell_revisions@, width),
    {
        let ghost old_cells = self.per_cell@;
        let ghost old_width = self.width;
        let ghost old_lines = self.lines@;
        let layout_changed = self.width != width;
        if layout_changed {
            self.per_cell.clear();
        }
        self.width = width;
        let ghost prior = self.per_cell@;
        let old_len = self.per_cell.len();
        let n = cells.len();
        let mut any_dirty = layout_changed || old_len != n;
        let mut first_dirty: Option<usize> = if old_len != n {
            Some(if old_len < n { old_len } else { n })
        } else {
            None
        };
        let mut new_per_cell: Vec<CachedCell> = Vec::with_capacity(n);
        let revisions_match = cell_revisions.len() == n;
        let mut idx: usize = 0;
        while idx < n
            invariant
                n == cells@.len(),
                idx <= n,
                new_per_cell@.len() == idx,
                self.per_cell@ == prior,
                self.width == width,
                self.lines@ == old_lines,
                layout_changed == (old_width != width),
                prior == (if layout_changed { Seq::<CachedCell>::empty() } else { old_cells }),
                old_len == prior.len(),
                revisions_match == (cell_revisions@.len() == n),
                forall|i: int|
                    0 <= i < idx && keeps_cell(old_cells, old_width, width, cell_revisions@, n as int, i)
                        ==> #[trigger] new_per_cell@[i] == old_cells[i],
                forall|i: int|
                    0 <= i < idx && !keeps_cell(old_cells, old_width, width, cell_revisions@, n as int, i)
                        ==> rendered_fresh(
                        #[trigger] new_per_cell@[i],
                        cells@[i]@,
                        recorded_revision(cell_revisions@, n as int, i),
                    ),
                !any_dirty ==> {
                    &&& !layout_changed
                    &&& old_len == n
                    &&& forall|i: int|
                        0 <= i < idx ==> keeps_cell(old_cells, old_width, width, cell_revisions@, n as int, i)
                },
                first_dirty is None ==> old_len == n,
                first_dirty matches Some(f) ==> f <= old_len && f <= n,
                forall|i: int|
                    0 <= i < idx && !keeps_cell(old_cells, old_width, width, cell_revisions@, n as int, i)
                        ==> (first_dirty matches Some(f) && f <= i),
            decreases n - idx,
        {
            let current_rev = if revisions_match {
                cell_revisions[idx]
            } else {
                u64::MAX
            };
            let should_reuse = if !layout_changed && revisions_match {
                idx < self.per_cell.len() && self.per_cell[idx].revision == current_rev
            } else {
                false
            };
            assert(should_reuse == keeps_cell(old_cells, old_width, width, cell_revisions@, n as int, idx as int));
            if should_reuse {
                new_per_cell.push(share_cell(&self.per_cell[idx]));
            } else {
                any_dirty = true;
                first_dirty = Some(
                    match first_dirty {
                        Some(current) => if current < idx { current } else { idx },
                        None => idx,
                    },
                );
                let is_empty = cells[idx].len() == 0;
                let copied = copy_lines(&cells[idx]);
                new_per_cell.push(CachedCell { revision: current_rev, lines: Arc::new(copied), is_empty });
            }
            idx += 1;
        }
        proof {
            if !any_dirty {
                assert(new_per_cell@ =~= old_cells);
            }
            let start: int = match first_dirty {
                Some(f) => f as int,
                None => 0,
            };
            if start > 0 {
                assert(new_per_cell@.take(start) =~= prior.take(start));
            }
        }
        self.per_cell = new_per_cell;
        if any_dirty {
            self.reflatten(first_dirty, Ghost(prior));
        }
        proof {
            assert forall|i: int| 0 <= i < self.per_cell@.len() implies (#[trigger] self.per_cell@[i]).is_empty == (
            self.per_cell@[i].lines@.len() == 0) by {
                if keeps_cell(old_cells, old_width, width, cell_revisions@, n as int, i) {
                    assert(old_cells[i] == old(self).cells()[i]);
                }
            }
        }
    }

    /// Get the total number of rendered lines.
    pub fn total_lines(&self) -> (n: usize)
        ensures
            n == self.rendered().len(),
    {
        self.lines.len()
    }

    /// Get the cached lines (for rendering).
    pub fn lines(&self) -> (lines: &[Line<'static>])
        ensures
            lines@ == self.rendered(),
    {
        self.lines.as_slice()
    }

    /// The width the cached lines were rendered at.
    pub fn width(&self) -> (w: u16)
        ensures
            w == self.layout_width(),
    {
        self.width
    }

    /// The cached cells, in transcript order.
    pub fn cached_cells(&self) -> (cells: &[CachedCell])
        ensures
            cells@ == self.cells(),
    {
        self.per_cell.as_slice()
    }

    /// Get a copy of the lines in the viewport that starts at line `top`
    /// and holds `visible_count` lines.
    pub fn visible_lines(&self, top: usize, visible_count: usize) -> (window: Vec<Line<'static>>)
        requires
            top + visible_count <= usize::MAX,
        ensures
            window@ == visible_window(self.rendered(), top as int, visible_count as int),
    {
        let end = if top + visible_count < self.lines.len() {
            top + visible_count
        } else {
            self.lines.len()
        };
        let mut window: Vec<Line<'static>> = Vec::new();
        if top >= self.lines.len() {
            return window;
        }
        let mut i = top;
        while i < end
            invariant
                top <= i <= end <= self.lines@.len(),
                window@ == self.lines@.subrange(top as int, i as int),
            decreases end - i,
        {
            window.push(copy_line(&self.lines[i]));
            i += 1;
            assert(window@ =~= self.lines@.subrange(top as int, i as int));
        }
        window
    }

    /// Clear the cache.
    pub fn clear(&mut self)
        ensures
            final(self).wf(),
            final(self).layout_width() == old(self).layout_width(),
            final(self).cells() == Seq::<CachedCell>::empty(),
            final(self).rendered() == Seq::<Line<'static>>::empty(),
    {
        self.per_cell.clear();
        self.lines.clear();
    }
}

impl Default for TranscriptViewCache {
    fn default() -> (cache: Self)
        ensures
            cache.wf(),
            cache.layout_width() == 0,
            cache.cells() == Seq::<CachedCell>::empty(),
            cache.rendered() == Seq::<Line<'static>>::empty(),
    {
        Self::new()
    }
}

} // verus!
