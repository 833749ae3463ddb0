use vstd::prelude::*;
use crate::cell::{Cell, CellV};
use crate::color::CellStyle;
use crate::grid::{get_sized_buffer, grid_is_rect, grids_equal, paint_model, GridBuffer};
use crate::surface::{
    build_surface, create_span, flat_spans, row_items, span_at, span_of, spans_v, Surface,
    SurfaceV,
};
use crate::DocumentMode;

verus! {

/// One node mutation performed by a diff pass: the leaf at flat index
/// `span` (grid position `(row, col)`) receives new text content and a new
/// style.
pub struct Mutation {
    pub row: usize,
    pub col: usize,
    pub span: usize,
    pub content: String,
    pub style: CellStyle,
}

/// Model of one mutation.
#[verifier::ext_equal]
pub struct MutationV {
    pub row: int,
    pub col: int,
    pub span: int,
    pub content: Seq<char>,
    pub style: CellStyle,
}

impl View for Mutation {
    type V = MutationV;

    open spec fn view(&self) -> MutationV {
        MutationV {
            row: self.row as int,
            col: self.col as int,
            span: self.span as int,
            content: self.content@,
            style: self.style,
        }
    }
}

pub open spec fn muts_v(s: Seq<Mutation>) -> Seq<MutationV> {
    s.map(|i: int, m: Mutation| m@)
}

/// Whether the diff pass must touch position `(y, x)`: hyperlink-flagged
/// cells are never live-updated; any other cell is rewritten exactly when
/// it differs from the previously rendered frame.
pub open spec fn cell_changed(cur: Seq<Seq<CellV>>, prev: Seq<Seq<CellV>>, y: int, x: int) -> bool {
    !cur[y][x].is_link() && cur[y][x] != prev[y][x]
}

/// The changed positions of row `y` among columns `0 .. x`, in column order.
pub open spec fn row_changes_upto(
    cur: Seq<Seq<CellV>>,
    prev: Seq<Seq<CellV>>,
    y: int,
    x: int,
) -> Seq<(int, int)>
    decreases x,
{
    if x <= 0 {
        Seq::empty()
    } else {
        row_changes_upto(cur, prev, y, x - 1) + if cell_changed(cur, prev, y, x - 1) {
            seq![(y, x - 1)]
        } else {
            Seq::empty()
        }
    }
}

/// The changed positions of the first `y` rows, in row-major order.
pub open spec fn diff_upto(cur: Seq<Seq<CellV>>, prev: Seq<Seq<CellV>>, y: int) -> Seq<(int, int)>
    decreases y,
{
    if y <= 0 {
        Seq::empty()
    } else {
        diff_upto(cur, prev, y - 1) + row_changes_upto(cur, prev, y - 1, cur[y - 1].len() as int)
    }
}

/// All positions the diff pass mutates when `cur` is rendered over `prev`,
/// in row-major order.
pub open spec fn diff_changes(cur: Seq<Seq<CellV>>, prev: Seq<Seq<CellV>>) -> Seq<(int, int)> {
    diff_upto(cur, prev, cur.len() as int)
}

/// One recorded mutation is exactly the rewrite of position `p` of the
/// current frame: the leaf at flat index `p.0 * w + p.1` gets the cell's
/// glyph as content and the cell's resolved style.
pub open spec fn mut_matches_at(
    m: MutationV,
    p: (int, int),
    cur: Seq<Seq<CellV>>,
    dark: bool,
    w: int,
) -> bool {
    &&& m.row == p.0
    &&& m.col == p.1
    &&& m.span == p.0 * w + p.1
    &&& m.content == cur[p.0][p.1].glyph
    &&& m.style == cur[p.0][p.1].style(dark)
}

/// The recorded mutations are exactly the changed positions, in order.
pub open spec fn muts_match(
    muts: Seq<MutationV>,
    ch: Seq<(int, int)>,
    cur: Seq<Seq<CellV>>,
    dark: bool,
    w: int,
) -> bool {
    &&& muts.len() == ch.len()
    &&& forall|i: int|
        0 <= i < muts.len() ==> mut_matches_at(#[trigger] muts[i], ch[i], cur, dark, w)
}

/// The surface a first flush builds from grid `g`: the flat node index in
/// row-major order plus each row's grouped children.
pub open spec fn surface_matches_grid(s: SurfaceV, g: Seq<Seq<CellV>>, dark: bool) -> bool {
    &&& s.spans == flat_spans(g, g.len() as int, dark)
    &&& s.spans.len() == g.len() * crate::grid::grid_width(g)
    &&& s.rows.len() == g.len()
    &&& forall|y: int|
        0 <= y < g.len() ==> #[trigger] s.rows[y] == row_items(
            g[y],
            y * crate::grid::grid_width(g),
            dark,
        )
}

/// The renderer: the current and previously rendered frames, the persistent
/// surface, and the fixed grid geometry chosen at construction.
pub struct WasmBackend {
    pub buffer: GridBuffer,
    pub prev_buffer: GridBuffer,
    pub surface: Surface,
    pub initialized: bool,
    pub width: u16,
    pub height: u16,
}

impl WasmBackend {
    /// Geometry invariant: the previously rendered frame always has the
    /// configured rectangular shape, the current frame always has the
    /// configured number of rows, and once the surface is built its flat
    /// node index holds one leaf per cell.
    pub open spec fn wf(self) -> bool {
        &&& grid_is_rect(self.prev_buffer@, self.width as int, self.height as int)
        &&& self.buffer@.len() == self.height
        &&& self.initialized ==> self.surface@.spans.len() == (self.height as int) * (
        self.width as int)
        &&& self.initialized ==> self.surface@.rows.len() == self.height
    }

    /// Creates a backend with blank current and previous frames of the
    /// given fixed dimensions and an empty, not yet built surface.
    pub fn new(width: u16, height: u16) -> (r: WasmBackend)
        ensures
            r.wf(),
            r.width == width,
            r.height == height,
            !r.initialized,
            grid_is_rect(r.buffer@, width as int, height as int),
            forall|y: int, x: int|
                0 <= y < height && 0 <= x < width ==> #[trigger] r.buffer@[y][x]
                    == crate::cell::default_cell(),
            r.prev_buffer@ == r.buffer@,
    {
        let buffer = get_sized_buffer(width, height);
        let prev_buffer = get_sized_buffer(width, height);
        let r = WasmBackend {
            buffer,
            prev_buffer,
            surface: Surface { spans: Vec::new(), rows: Vec::new() },
            initialized: false,
            width,
            height,
        };
        proof {
            assert(r.prev_buffer@ =~~= r.buffer@);
        }
        r
    }
}

/// Model of a batch of paint instructions: `(col, row, cell)` triples.
pub open spec fn updates_v(s: Seq<(u16, u16, Cell)>) -> Seq<(u16, u16, CellV)> {
    s.map(|i: int, u: (u16, u16, Cell)| (u.0, u.1, u.2@))
}

/// The grid after applying a batch of paint instructions in order.
pub open spec fn draw_model(g: Seq<Seq<CellV>>, updates: Seq<(u16, u16, CellV)>) -> Seq<Seq<CellV>>
    decreases updates.len(),
{
    if updates.len() == 0 {
        g
    } else {
        let u = updates.last();
        paint_model(draw_model(g, updates.drop_last()), u.0 as int, u.1 as int, u.2)
    }
}

/// Painting never adds or removes rows.
pub proof fn lemma_draw_model_len(g: Seq<Seq<CellV>>, updates: Seq<(u16, u16, CellV)>)
    requires
        forall|i: int| 0 <= i < updates.len() ==> (#[trigger] updates[i]).1 < g.len(),
    ensures
        draw_model(g, updates).len() == g.len(),
    decreases updates.len(),
{
    if updates.len() > 0 {
        assert(forall|i: int|
            0 <= i < updates.drop_last().len() ==> (#[trigger] updates.drop_last()[i]).1
                < g.len());
        lemma_draw_model_len(g, updates.drop_last());
    }
}

impl WasmBackend {
    /// Applies one frame's stream of paint instructions to the current
    /// buffer, in order. Every instruction's row must lie inside the fixed
    /// grid height; columns may lie past a row's current end.
    pub fn draw(&mut self, updates: &Vec<(u16, u16, Cell)>)
        requires
            old(self).wf(),
            forall|i: int|
                0 <= i < updates@.len() ==> (#[trigger] updates@[i]).1 < old(self).height,
        ensures
            final(self).wf(),
            final(self).buffer@ == draw_model(old(self).buffer@, updates_v(updates@)),
            final(self).prev_buffer == old(self).prev_buffer,
            final(self).surface == old(self).surface,
            final(self).initialized == old(self).initialized,
            final(self).width == old(self).width,
            final(self).height == old(self).height,
    {
        let ghost old_buf = self.buffer@;
        let ghost uv = updates_v(updates@);
        let n = updates.len();
        let mut i: usize = 0;
        while i < n
            invariant
                i <= n,
                updates@.len() == n,
                uv == updates_v(updates@),
                forall|j: int| 0 <= j < n ==> (#[trigger] updates@[j]).1 < old(self).height,
                self.buffer@ == draw_model(old_buf, uv.take(i as int)),
                self.buffer@.len() == old_buf.len(),
                old_buf.len() == old(self).height,
                self.prev_buffer == old(self).prev_buffer,
                self.surface == old(self).surface,
                self.initialized == old(self).initialized,
                self.width == old(self).width,
                self.height == old(self).height,
            decreases n - i,
        {
            let col = updates[i].0;
            let row = updates[i].1;
            let cell = updates[i].2.clone();
            self.buffer.paint(col as usize, row as usize, cell);
            proof {
                assert(uv.take(i as int + 1).drop_last() =~= uv.take(i as int));
                assert(uv.take(i as int + 1).last() == uv[i as int]);
                assert(uv[i as int] == (updates@[i as int].0, updates@[i as int].1, updates@[
                    i as int].2@));
            }
            i = i + 1;
        }
        proof {
            assert(uv.take(n as int) =~= uv);
        }
    }

    /// Discards the current frame and reinitializes a blank grid of the
    /// fixed dimensions; the previous frame and the surface are untouched.
    pub fn clear(&mut self)
        requires
            old(self).wf(),
        ensures
            final(self).wf(),
            grid_is_rect(final(self).buffer@, old(self).width as int, old(self).height as int),
            forall|y: int, x: int|
                0 <= y < old(self).height && 0 <= x < old(self).width
                    ==> #[trigger] final(self).buffer@[y][x] == crate::cell::default_cell(),
            final(self).prev_buffer == old(self).prev_buffer,
            final(self).surface == old(self).surface,
            final(self).initialized == old(self).initialized,
            final(self).width == old(self).width,
            final(self).height == old(self).height,
    {
        self.buffer = get_sized_buffer(self.width, self.height);
    }

    /// Reports the grid size as `(first row length - 1, row count - 1)`,
    /// the off-by-one the host layout expects.
    pub fn size(&self) -> (r: (u16, u16))
        requires
            self.wf(),
            self.view_has_rows(),
            self.buffer@[0].len() <= u16::MAX as int + 1,
        ensures
            r.0 == if self.buffer@[0].len() == 0 {
                0int
            } else {
                self.buffer@[0].len() - 1
            },
            r.1 == self.buffer@.len() - 1,
    {
        self.buffer.size()
    }

    /// Whether the grid has any rows at all; `size` is only meaningful then.
    pub open spec fn view_has_rows(self) -> bool {
        self.buffer@.len() > 0
    }

    /// The diff pass: walks the current frame against the previously
    /// rendered one and rewrites exactly the leaves of changed,
    /// non-hyperlink cells. Returns the mutations performed, in row-major
    /// order, for the host surface to apply.
    fn update_grid(&mut self, mode: &DocumentMode) -> (muts: Vec<Mutation>)
        requires
            old(self).wf(),
            old(self).initialized,
            grid_is_rect(old(self).buffer@, old(self).width as int, old(self).height as int),
        ensures
            final(self).wf(),
            muts_match(
                muts_v(muts@),
                diff_changes(old(self).buffer@, old(self).prev_buffer@),
                old(self).buffer@,
                mode.dark,
                old(self).width as int,
            ),
            final(self).surface@.rows == old(self).surface@.rows,
            final(self).surface@.spans.len() == old(self).surface@.spans.len(),
            forall|i: int, j: int|
                0 <= i < old(self).height && 0 <= j < old(self).width
                    ==> #[trigger] span_at(final(self).surface@.spans, i, j, old(self).width as int)
                    == if cell_changed(old(self).buffer@, old(self).prev_buffer@, i, j) {
                    span_of(old(self).buffer@[i][j], mode.dark)
                } else {
                    span_at(old(self).surface@.spans, i, j, old(self).width as int)
                },
            final(self).buffer == old(self).buffer,
            final(self).prev_buffer == old(self).prev_buffer,
            final(self).initialized == old(self).initialized,
            final(self).width == old(self).width,
            final(self).height == old(self).height,
    {
        let ghost cur = self.buffer@;
        let ghost prev = self.prev_buffer@;
        let ghost dark = mode.dark;
        let ghost w = self.width as int;
        let ghost h = self.height as int;
        let ghost old_spans = self.surface@.spans;
        let mut muts: Vec<Mutation> = Vec::new();
        let hh = self.buffer.height();
        let n_sp = self.surface.spans.len();
        let mut k: usize = 0;
        let mut y: usize = 0;
        while y < hh
            invariant
                y <= hh,
                hh == h,
                h == old(self).height,
                w == old(self).width,
                dark == mode.dark,
                cur == old(self).buffer@,
                prev == old(self).prev_buffer@,
                old_spans == old(self).surface@.spans,
                grid_is_rect(cur, w, h),
                grid_is_rect(prev, w, h),
                self.buffer == old(self).buffer,
                self.prev_buffer == old(self).prev_buffer,
                self.initialized == old(self).initialized,
                self.width == old(self).width,
                self.height == old(self).height,
                self.surface@.rows == old(self).surface@.rows,
                self.surface.spans@.len() == old_spans.len(),
                old_spans.len() == h * w,
                n_sp as int == h * w,
                k as int == y * w,
                muts_match(muts_v(muts@), diff_upto(cur, prev, y as int), cur, dark, w),
                forall|i: int, j: int|
                    0 <= i < h && 0 <= j < w ==> #[trigger] span_at(
                        spans_v(self.surface.spans@),
                        i,
                        j,
                        w,
                    ) == if i < y && cell_changed(cur, prev, i, j) {
                        span_of(cur[i][j], dark)
                    } else {
                        span_at(old_spans, i, j, w)
                    },
            decreases hh - y,
        {
            let row_len = self.buffer.row_len(y);
            let mut x: usize = 0;
            while x < row_len
                invariant
                    x <= row_len,
                    y < hh,
                    y <= hh,
                    hh == h,
                    h == old(self).height,
                    w == old(self).width,
                    dark == mode.dark,
                    cur == old(self).buffer@,
                    prev == old(self).prev_buffer@,
                    old_spans == old(self).surface@.spans,
                    grid_is_rect(cur, w, h),
                    grid_is_rect(prev, w, h),
                    row_len == w,
                    self.buffer == old(self).buffer,
                    self.prev_buffer == old(self).prev_buffer,
                    self.initialized == old(self).initialized,
                    self.width == old(self).width,
                    self.height == old(self).height,
                    self.surface@.rows == old(self).surface@.rows,
                    self.surface.spans@.len() == old_spans.len(),
                    old_spans.len() == h * w,
                    n_sp as int == h * w,
                    k as int == y * w + x,
                    muts_match(
                        muts_v(muts@),
                        diff_upto(cur, prev, y as int) + row_changes_upto(
                            cur,
                            prev,
                            y as int,
                            x as int,
                        ),
                        cur,
                        dark,
                        w,
                    ),
                    forall|i: int, j: int|
                        0 <= i < h && 0 <= j < w ==> #[trigger] span_at(
                            spans_v(self.surface.spans@),
                            i,
                            j,
                            w,
                        ) == if (i < y || (i == y && j < x)) && cell_changed(cur, prev, i, j) {
                            span_of(cur[i][j], dark)
                        } else {
                            span_at(old_spans, i, j, w)
                        },
                decreases row_len - x,
            {
                proof {
                    assert((y as int) * w + x < h * w) by (nonlinear_arith)
                        requires
                            0 <= y < h,
                            0 <= x < w,
                    ;
                }
                let changed = {
                    let cur_cell = self.buffer.get(y, x);
                    if cur_cell.is_hyperlink() {
                        false
                    } else {
                        let prev_cell = self.prev_buffer.get(y, x);
                        !cur_cell.eq(prev_cell)
                    }
                };
                proof {
                    assert(changed == cell_changed(cur, prev, y as int, x as int));
                }
                let ghost ch_old = diff_upto(cur, prev, y as int) + row_changes_upto(
                    cur,
                    prev,
                    y as int,
                    x as int,
                );
                let ghost muts_old = muts@;
                let ghost spans_old = self.surface.spans@;
                if changed {
                    let cur_cell = self.buffer.get(y, x);
                    let content = cur_cell.glyph.clone();
                    let sp = create_span(cur_cell, mode);
                    let style = sp.style;
                    self.surface.spans[k] = sp;
                    muts.push(Mutation { row: y, col: x, span: k, content, style });
                    proof {
                        assert(sp@ == span_of(cur[y as int][x as int], dark));
                        assert forall|i: int| 0 <= i < muts@.len() implies mut_matches_at(
                            #[trigger] muts_v(muts@)[i],
                            (ch_old + seq![(y as int, x as int)])[i],
                            cur,
                            dark,
                            w,
                        ) by {
                            assert(muts@[i] == muts_old.push(
                                Mutation { row: y, col: x, span: k, content, style },
                            )[i]);
                            if i < muts_old.len() {
                                assert(muts_v(muts_old)[i] == muts@[i]@);
                                assert(mut_matches_at(muts_v(muts_old)[i], ch_old[i], cur, dark, w));
                            }
                        }
                        assert(muts_v(muts@).len() == ch_old.len() + 1);
                        assert(row_changes_upto(cur, prev, y as int, x as int + 1)
                            == row_changes_upto(cur, prev, y as int, x as int) + seq![
                            (y as int, x as int),
                        ]);
                        assert(diff_upto(cur, prev, y as int) + (row_changes_upto(
                            cur,
                            prev,
                            y as int,
                            x as int,
                        ) + seq![(y as int, x as int)]) =~= ch_old + seq![(y as int, x as int)]);
                        assert forall|i: int, j: int| 0 <= i < h && 0 <= j < w implies #[trigger] span_at(
                            spans_v(self.surface.spans@),
                            i,
                            j,
                            w,
                        ) == if (i < y || (i == y && j < x + 1)) && cell_changed(cur, prev, i, j) {
                            span_of(cur[i][j], dark)
                        } else {
                            span_at(old_spans, i, j, w)
                        } by {
                            assert(0 <= i * w + j < h * w) by (nonlinear_arith)
                                requires
                                    0 <= i < h,
                                    0 <= j < w,
                            ;
                            if i == y as int && j == x as int {
                                assert(self.surface.spans@[i * w + j]@ == sp@);
                            } else {
                                assert(i * w + j != (y as int) * w + x) by (nonlinear_arith)
                                    requires
                                        0 <= i,
                                        0 <= j < w,
                                        0 <= x < w,
                                        0 <= y,
                                        w > 0,
                                        i != y || j != x,
                                ;
                                assert(self.surface.spans@[i * w + j] == spans_old[i * w + j]);
                                assert(span_at(spans_v(spans_old), i, j, w) == spans_v(
                                    spans_old,
                                )[i * w + j]);
                            }
                        }
                    }
                } else {
                    proof {
                        assert(row_changes_upto(cur, prev, y as int, x as int + 1)
                            == row_changes_upto(cur, prev, y as int, x as int) + Seq::<
                            (int, int),
                        >::empty());
                        assert(row_changes_upto(cur, prev, y as int, x as int) + Seq::<
                            (int, int),
                        >::empty() =~= row_changes_upto(cur, prev, y as int, x as int));
                    }
                }
                k = k + 1;
                x = x + 1;
            }
            proof {
                assert((y as int + 1) * w == (y as int) * w + w) by (nonlinear_arith);
                assert(cur[y as int].len() == w);
                assert(diff_upto(cur, prev, y as int + 1) == diff_upto(cur, prev, y as int)
                    + row_changes_upto(cur, prev, y as int, w));
            }
            y = y + 1;
        }
        proof {
            assert(diff_changes(cur, prev) == diff_upto(cur, prev, h));
        }
        muts
    }

    /// Flushes one completed frame to the surface. The first flush builds
    /// the surface from the frame exactly once; every later flush diffs the
    /// frame against the previously rendered one and mutates only changed,
    /// non-hyperlink leaves. In either case the frame then becomes the
    /// previous frame. Returns whether the surface was built by this call,
    /// and the node mutations to apply.
    pub fn flush(&mut self, mode: &DocumentMode) -> (r: (bool, Vec<Mutation>))
        requires
            old(self).wf(),
            grid_is_rect(old(self).buffer@, old(self).width as int, old(self).height as int),
        ensures
            final(self).wf(),
            final(self).initialized,
            final(self).buffer@ == old(self).buffer@,
            final(self).prev_buffer@ == old(self).buffer@,
            final(self).width == old(self).width,
            final(self).height == old(self).height,
            r.0 == !old(self).initialized,
            !old(self).initialized ==> surface_matches_grid(
                final(self).surface@,
                old(self).buffer@,
                mode.dark,
            ) && r.1@.len() == 0,
            old(self).initialized ==> muts_match(
                muts_v(r.1@),
                diff_changes(old(self).buffer@, old(self).prev_buffer@),
                old(self).buffer@,
                mode.dark,
                old(self).width as int,
            ),
            old(self).initialized ==> final(self).surface@.rows == old(self).surface@.rows
                && final(self).surface@.spans.len() == old(self).surface@.spans.len() && forall|
                i: int,
                j: int,
            |
                0 <= i < old(self).height && 0 <= j < old(self).width ==> #[trigger] span_at(
                    final(self).surface@.spans,
                    i,
                    j,
                    old(self).width as int,
                ) == if cell_changed(old(self).buffer@, old(self).prev_buffer@, i, j) {
                    span_of(old(self).buffer@[i][j], mode.dark)
                } else {
                    span_at(old(self).surface@.spans, i, j, old(self).width as int)
                },
    {
        let ghost w = self.width as int;
        let ghost h = self.height as int;
        let built = !self.initialized;
        if built {
            let s = build_surface(&self.buffer, mode);
            self.surface = s;
            self.prev_buffer = self.buffer.clone();
            self.initialized = true;
            proof {
                if h > 0 {
                    assert(crate::grid::grid_width(self.buffer@) == w);
                } else {
                    assert(self.buffer@.len() * crate::grid::grid_width(self.buffer@) == 0);
                    assert(h * w == 0) by (nonlinear_arith)
                        requires
                            h == 0,
                    ;
                }
            }
        }
        let muts = if !grids_equal(&self.buffer, &self.prev_buffer) {
            self.update_grid(mode)
        } else {
            proof {
                lemma_diff_identical(self.buffer@);
            }
            Vec::new()
        };
        self.prev_buffer = self.buffer.clone();
        (built, muts)
    }
}

/// Every column of a row of identical frames is unchanged.
proof fn lemma_row_changes_identical(g: Seq<Seq<CellV>>, y: int, x: int)
    ensures
        row_changes_upto(g, g, y, x) == Seq::<(int, int)>::empty(),
    decreases x,
{
    if x > 0 {
        lemma_row_changes_identical(g, y, x - 1);
        assert(Seq::<(int, int)>::empty() + Seq::<(int, int)>::empty() =~= Seq::<
            (int, int),
        >::empty());
    }
}

proof fn lemma_diff_upto_identical(g: Seq<Seq<CellV>>, y: int)
    ensures
        diff_upto(g, g, y) == Seq::<(int, int)>::empty(),
    decreases y,
{
    if y > 0 {
        lemma_diff_upto_identical(g, y - 1);
        lemma_row_changes_identical(g, y - 1, g[y - 1].len() as int);
        assert(Seq::<(int, int)>::empty() + Seq::<(int, int)>::empty() =~= Seq::<
            (int, int),
        >::empty());
    }
}

/// Diffing a grid against an identical previous grid performs no node
/// mutations at all.
pub proof fn lemma_diff_identical(g: Seq<Seq<CellV>>)
    ensures
        diff_changes(g, g) == Seq::<(int, int)>::empty(),
{
    lemma_diff_upto_identical(g, g.len() as int);
}

/// Idempotence of the diff step: a flush leaves the previous frame equal to
/// the current one, so running the diff again with no intervening paint
/// yields no mutations.
pub proof fn lemma_diff_idempotent(b: WasmBackend)
    requires
        b.prev_buffer@ == b.buffer@,
    ensures
        diff_changes(b.buffer@, b.prev_buffer@) == Seq::<(int, int)>::empty(),
{
    lemma_diff_identical(b.buffer@);
}

/// Every position a diff records lies in the grid and was a changed,
/// non-hyperlink cell.
proof fn lemma_row_changes_sound(cur: Seq<Seq<CellV>>, prev: Seq<Seq<CellV>>, y: int, x: int)
    ensures
        forall|i: int|
            0 <= i < row_changes_upto(cur, prev, y, x).len()
                ==> (#[trigger] row_changes_upto(cur, prev, y, x)[i]).0 == y && 0 <= row_changes_upto(
                cur,
                prev,
                y,
                x,
            )[i].1 < x && cell_changed(cur, prev, y, row_changes_upto(cur, prev, y, x)[i].1),
    decreases x,
{
    if x > 0 {
        lemma_row_changes_sound(cur, prev, y, x - 1);
        let prefix = row_changes_upto(cur, prev, y, x - 1);
        let whole = row_changes_upto(cur, prev, y, x);
        assert forall|i: int| 0 <= i < whole.len() implies (#[trigger] whole[i]).0 == y && 0
            <= whole[i].1 < x && cell_changed(cur, prev, y, whole[i].1) by {
            if i < prefix.len() {
                assert(whole[i] == prefix[i]);
            } else {
                assert(whole[i] == (y, x - 1));
            }
        }
    }
}

proof fn lemma_diff_upto_sound(cur: Seq<Seq<CellV>>, prev: Seq<Seq<CellV>>, y: int)
    ensures
        forall|i: int|
            0 <= i < diff_upto(cur, prev, y).len() ==> 0 <= (#[trigger] diff_upto(
                cur,
                prev,
                y,
            )[i]).0 < y && 0 <= diff_upto(cur, prev, y)[i].1 < cur[diff_upto(
                cur,
                prev,
                y,
            )[i].0].len() && cell_changed(
                cur,
                prev,
                diff_upto(cur, prev, y)[i].0,
                diff_upto(cur, prev, y)[i].1,
            ),
    decreases y,
{
    if y > 0 {
        lemma_diff_upto_sound(cur, prev, y - 1);
        lemma_row_changes_sound(cur, prev, y - 1, cur[y - 1].len() as int);
        let prefix = diff_upto(cur, prev, y - 1);
        let rowpart = row_changes_upto(cur, prev, y - 1, cur[y - 1].len() as int);
        let whole = diff_upto(cur, prev, y);
        assert forall|i: int| 0 <= i < whole.len() implies 0 <= (#[trigger] whole[i]).0 < y && 0
            <= whole[i].1 < cur[whole[i].0].len() && cell_changed(
            cur,
            prev,
            whole[i].0,
            whole[i].1,
        ) by {
            if i < prefix.len() {
                assert(whole[i] == prefix[i]);
            } else {
                assert(whole[i] == rowpart[i - prefix.len()]);
            }
        }
    }
}

proof fn lemma_row_changes_complete(cur: Seq<Seq<CellV>>, prev: Seq<Seq<CellV>>, y: int, x: int, upto: int)
    requires
        0 <= x < upto,
        cell_changed(cur, prev, y, x),
    ensures
        row_changes_upto(cur, prev, y, upto).contains((y, x)),
    decreases upto,
{
    if upto == x + 1 {
        let whole = row_changes_upto(cur, prev, y, upto);
        let n = row_changes_upto(cur, prev, y, x).len();
        assert(whole[n as int] == (y, x));
    } else {
        lemma_row_changes_complete(cur, prev, y, x, upto - 1);
        let prefix = row_changes_upto(cur, prev, y, upto - 1);
        let whole = row_changes_upto(cur, prev, y, upto);
        let i = choose|i: int| 0 <= i < prefix.len() && prefix[i] == (y, x);
        assert(whole[i] == (y, x));
    }
}

proof fn lemma_diff_upto_complete(cur: Seq<Seq<CellV>>, prev: Seq<Seq<CellV>>, y: int, x: int, upto: int)
    requires
        0 <= y < upto <= cur.len(),
        0 <= x < cur[y].len(),
        cell_changed(cur, prev, y, x),
    ensures
        diff_upto(cur, prev, upto).contains((y, x)),
    decreases upto,
{
    let whole = diff_upto(cur, prev, upto);
    let prefix = diff_upto(cur, prev, upto - 1);
    if y == upto - 1 {
        lemma_row_changes_complete(cur, prev, y, x, cur[y].len() as int);
        let rowpart = row_changes_upto(cur, prev, y, cur[y].len() as int);
        let i = choose|i: int| 0 <= i < rowpart.len() && rowpart[i] == (y, x);
        assert(whole[prefix.len() + i] == (y, x));
    } else {
        lemma_diff_upto_complete(cur, prev, y, x, upto - 1);
        let i = choose|i: int| 0 <= i < prefix.len() && prefix[i] == (y, x);
        assert(whole[i] == (y, x));
    }
}

/// Completeness of the diff: every changed, non-hyperlink cell position is
/// among the mutations the diff performs.
pub proof fn lemma_diff_changes_complete(cur: Seq<Seq<CellV>>, prev: Seq<Seq<CellV>>, y: int, x: int)
    requires
        0 <= y < cur.len(),
        0 <= x < cur[y].len(),
        cell_changed(cur, prev, y, x),
    ensures
        diff_changes(cur, prev).contains((y, x)),
{
    lemma_diff_upto_complete(cur, prev, y, x, cur.len() as int);
}

proof fn lemma_row_changes_single(
    cur: Seq<Seq<CellV>>,
    prev: Seq<Seq<CellV>>,
    r: int,
    c: int,
    y: int,
    x: int,
)
    requires
        0 <= y < cur.len(),
        0 <= x <= cur[y].len(),
        0 <= r < cur.len(),
        0 <= c < cur[r].len(),
        forall|y2: int, x2: int|
            0 <= y2 < cur.len() && 0 <= x2 < (#[trigger] cur[y2]).len() && !(y2 == r && x2 == c)
                ==> cur[y2][x2] == #[trigger] prev[y2][x2],
    ensures
        row_changes_upto(cur, prev, y, x) == if y == r && x > c && cell_changed(cur, prev, r, c) {
            seq![(r, c)]
        } else {
            Seq::<(int, int)>::empty()
        },
    decreases x,
{
    if x > 0 {
        lemma_row_changes_single(cur, prev, r, c, y, x - 1);
        if !(y == r && x - 1 == c) {
            assert(cur[y][x - 1] == prev[y][x - 1]);
            assert(!cell_changed(cur, prev, y, x - 1));
        }
        assert(Seq::<(int, int)>::empty() + Seq::<(int, int)>::empty() =~= Seq::<
            (int, int),
        >::empty());
        assert(Seq::<(int, int)>::empty() + seq![(r, c)] =~= seq![(r, c)]);
        assert(seq![(r, c)] + Seq::<(int, int)>::empty() =~= seq![(r, c)]);
    }
}

proof fn lemma_diff_upto_single(cur: Seq<Seq<CellV>>, prev: Seq<Seq<CellV>>, r: int, c: int, y: int)
    requires
        0 <= y <= cur.len(),
        0 <= r < cur.len(),
        0 <= c < cur[r].len(),
        cell_changed(cur, prev, r, c),
        forall|y2: int, x2: int|
            0 <= y2 < cur.len() && 0 <= x2 < (#[trigger] cur[y2]).len() && !(y2 == r && x2 == c)
                ==> cur[y2][x2] == #[trigger] prev[y2][x2],
    ensures
        diff_upto(cur, prev, y) == if y > r {
            seq![(r, c)]
        } else {
            Seq::<(int, int)>::empty()
        },
    decreases y,
{
    if y > 0 {
        lemma_diff_upto_single(cur, prev, r, c, y - 1);
        lemma_row_changes_single(cur, prev, r, c, y - 1, cur[y - 1].len() as int);
        assert(Seq::<(int, int)>::empty() + Seq::<(int, int)>::empty() =~= Seq::<
            (int, int),
        >::empty());
        assert(Seq::<(int, int)>::empty() + seq![(r, c)] =~= seq![(r, c)]);
        assert(seq![(r, c)] + Seq::<(int, int)>::empty() =~= seq![(r, c)]);
    }
}

/// Minimality of the diff: two consecutive frames that differ in exactly
/// one non-hyperlink cell produce exactly one node mutation, at that cell.
pub proof fn lemma_single_cell_diff(cur: Seq<Seq<CellV>>, prev: Seq<Seq<CellV>>, r: int, c: int)
    requires
        0 <= r < cur.len(),
        0 <= c < cur[r].len(),
        cell_changed(cur, prev, r, c),
        forall|y2: int, x2: int|
            0 <= y2 < cur.len() && 0 <= x2 < (#[trigger] cur[y2]).len() && !(y2 == r && x2 == c)
                ==> cur[y2][x2] == #[trigger] prev[y2][x2],
    ensures
        diff_changes(cur, prev) == seq![(r, c)],
{
    lemma_diff_upto_single(cur, prev, r, c, cur.len() as int);
}

/// Hyperlink immutability: a hyperlink-flagged cell's position is never
/// among the mutations a diff performs, however its content changed.
pub proof fn lemma_hyperlink_never_mutated(
    cur: Seq<Seq<CellV>>,
    prev: Seq<Seq<CellV>>,
    y: int,
    x: int,
)
    requires
        cur[y][x].is_link(),
    ensures
        forall|i: int|
            0 <= i < diff_changes(cur, prev).len() ==> #[trigger] diff_changes(cur, prev)[i] != (
            y,
            x,
            ),
{
    lemma_diff_upto_sound(cur, prev, cur.len() as int);
}

} // verus!
