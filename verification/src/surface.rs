use vstd::prelude::*;
use vstd::string::StringExecFns;
use crate::cell::{get_cell_color, Cell, CellV};
use crate::color::CellStyle;
use crate::grid::{grid_width, GridBuffer};
use crate::DocumentMode;

verus! {

/// One leaf node of the persistent surface: the rendered text of a single
/// cell together with its resolved style. The flat node index of the
/// surface is a vector of these, parallel to the grid.
pub struct SpanNode {
    pub content: String,
    pub style: CellStyle,
}

/// Model of a leaf node.
#[verifier::ext_equal]
pub struct SpanV {
    pub content: Seq<char>,
    pub style: CellStyle,
}

impl View for SpanNode {
    type V = SpanV;

    open spec fn view(&self) -> SpanV {
        SpanV { content: self.content@, style: self.style }
    }
}

/// One child of a row container: either a single plain leaf, or an anchor
/// container that wraps the leaves of one hyperlink span. Children are
/// referred to by their index in the flat node index.
pub enum RowItem {
    Plain { span: usize },
    Anchor { href: String, style: CellStyle, spans: Vec<usize> },
}

/// Model of a row child.
#[verifier::ext_equal]
pub enum RowItemV {
    Plain { span: int },
    Anchor { href: Seq<char>, style: CellStyle, spans: Seq<int> },
}

impl View for RowItem {
    type V = RowItemV;

    open spec fn view(&self) -> RowItemV {
        match self {
            RowItem::Plain { span } => RowItemV::Plain { span: *span as int },
            RowItem::Anchor { href, style, spans } => RowItemV::Anchor {
                href: href@,
                style: *style,
                spans: ids_v(spans@),
            },
        }
    }
}

/// The persistent surface, modelled as an arena: the flat node index of
/// leaves plus, per grid row, the ordered children of that row's container.
/// It is built exactly once and afterwards only leaf content and style are
/// mutated.
pub struct Surface {
    pub spans: Vec<SpanNode>,
    pub rows: Vec<Vec<RowItem>>,
}

/// Model of the whole surface.
#[verifier::ext_equal]
pub struct SurfaceV {
    pub spans: Seq<SpanV>,
    pub rows: Seq<Seq<RowItemV>>,
}

pub open spec fn spans_v(s: Seq<SpanNode>) -> Seq<SpanV> {
    s.map(|i: int, n: SpanNode| n@)
}

/// The flat-index positions held by an anchor, as mathematical integers.
pub open spec fn ids_v(s: Seq<usize>) -> Seq<int> {
    s.map(|i: int, v: usize| v as int)
}

pub open spec fn items_v(s: Seq<RowItem>) -> Seq<RowItemV> {
    s.map(|i: int, it: RowItem| it@)
}

impl View for Surface {
    type V = SurfaceV;

    open spec fn view(&self) -> SurfaceV {
        SurfaceV {
            spans: spans_v(self.spans@),
            rows: self.rows@.map(|i: int, r: Vec<RowItem>| items_v(r@)),
        }
    }
}

/// The concatenation of the glyphs of a run of cells, in order: the link
/// target of an anchor.
pub open spec fn concat_glyphs(cells: Seq<CellV>) -> Seq<char>
    decreases cells.len(),
{
    if cells.len() == 0 {
        Seq::empty()
    } else {
        concat_glyphs(cells.drop_last()) + cells.last().glyph
    }
}

pub proof fn lemma_concat_glyphs_push(s: Seq<CellV>, c: CellV)
    ensures
        concat_glyphs(s.push(c)) == concat_glyphs(s) + c.glyph,
{
    assert(s.push(c).drop_last() =~= s);
    assert(s.push(c).last() == c);
}

/// The leaf node that renders one cell.
pub open spec fn span_of(c: CellV, dark: bool) -> SpanV {
    SpanV { content: c.glyph, style: c.style(dark) }
}

/// The leaves of one row in column order.
pub open spec fn row_spans_model(row: Seq<CellV>, dark: bool) -> Seq<SpanV> {
    Seq::new(row.len(), |x: int| span_of(row[x], dark))
}

/// The flat node index built from the first `upto` rows of the grid: one
/// leaf per cell, in row-major order.
pub open spec fn flat_spans(g: Seq<Seq<CellV>>, upto: int, dark: bool) -> Seq<SpanV>
    decreases upto,
{
    if upto <= 0 {
        Seq::empty()
    } else {
        flat_spans(g, upto - 1, dark) + row_spans_model(g[upto - 1], dark)
    }
}

/// The children of a row container from column `i` on, given that the
/// pending hyperlink run (if any) began at column `start`. A plain cell
/// becomes one leaf child; a maximal run of hyperlink-flagged cells becomes
/// one anchor child whose link target concatenates the run's glyphs, whose
/// style is the run's last cell's style, and whose children are the run's
/// leaves `base + start .. base + i` in the flat index, where `base` is the
/// flat index of the row's first cell.
pub open spec fn row_items_from(
    row: Seq<CellV>,
    base: int,
    dark: bool,
    i: int,
    start: int,
) -> Seq<RowItemV>
    decreases row.len() - i,
{
    if i < 0 || i >= row.len() {
        Seq::empty()
    } else if row[i].is_link() {
        if i + 1 < row.len() && row[i + 1].is_link() {
            row_items_from(row, base, dark, i + 1, start)
        } else {
            seq![
                RowItemV::Anchor {
                    href: concat_glyphs(row.subrange(start, i + 1)),
                    style: row[i].style(dark),
                    spans: Seq::new((i + 1 - start) as nat, |k: int| base + start + k),
                },
            ] + row_items_from(row, base, dark, i + 1, i + 1)
        }
    } else {
        seq![RowItemV::Plain { span: base + i }] + row_items_from(row, base, dark, i + 1, i + 1)
    }
}

/// The full child list of one row container.
pub open spec fn row_items(row: Seq<CellV>, base: int, dark: bool) -> Seq<RowItemV> {
    row_items_from(row, base, dark, 0, 0)
}

/// The leaf of cell `(y, x)` in a flat node index of row width `w`.
pub open spec fn span_at(s: Seq<SpanV>, y: int, x: int, w: int) -> SpanV {
    s[y * w + x]
}

/// In a rectangular grid, the flat node index places the leaf of cell
/// `(y, x)` at position `y * w + x`.
pub proof fn lemma_flat_spans_index(g: Seq<Seq<CellV>>, upto: int, w: int, dark: bool)
    requires
        0 <= upto <= g.len(),
        forall|i: int| 0 <= i < g.len() ==> (#[trigger] g[i]).len() == w,
    ensures
        flat_spans(g, upto, dark).len() == upto * w,
        forall|y: int, x: int|
            0 <= y < upto && 0 <= x < w ==> #[trigger] flat_spans(g, upto, dark)[y * w + x]
                == span_of(g[y][x], dark),
    decreases upto,
{
    if upto <= 0 {
        assert(upto * w == 0) by (nonlinear_arith)
            requires
                upto == 0,
        ;
    } else {
        lemma_flat_spans_index(g, upto - 1, w, dark);
        assert(upto * w == (upto - 1) * w + w) by (nonlinear_arith);
        assert forall|y: int, x: int| 0 <= y < upto && 0 <= x < w implies #[trigger] flat_spans(
            g,
            upto,
            dark,
        )[y * w + x] == span_of(g[y][x], dark) by {
            if y < upto - 1 {
                assert(0 <= y * w + x < (upto - 1) * w) by (nonlinear_arith)
                    requires
                        0 <= y < upto - 1,
                        0 <= x < w,
                ;
                assert(flat_spans(g, upto, dark)[y * w + x] == flat_spans(g, upto - 1, dark)[y * w
                    + x]);
            } else {
                assert(y * w + x == (upto - 1) * w + x);
                assert(flat_spans(g, upto, dark)[y * w + x] == row_spans_model(g[upto - 1], dark)[x]);
            }
        }
    }
}

/// Creates the leaf node that renders one cell: the cell's glyph as its
/// text content, and its resolved style.
pub fn create_span(cell: &Cell, mode: &DocumentMode) -> (r: SpanNode)
    ensures
        r@ == span_of(cell@, mode.dark),
{
    let r = SpanNode { content: cell.glyph.clone(), style: get_cell_color(cell, mode) };
    proof {
        assert(r@ =~= span_of(cell@, mode.dark));
    }
    r
}

/// Builds the initial surface from the first finalized frame: the flat node
/// index gets one leaf per cell in row-major order, and each row container
/// gets its children with maximal hyperlink runs grouped into anchors.
pub fn build_surface(grid: &GridBuffer, mode: &DocumentMode) -> (s: Surface)
    requires
        forall|y: int| 0 <= y < grid@.len() ==> (#[trigger] grid@[y]).len() == grid_width(grid@),
    ensures
        s@.spans == flat_spans(grid@, grid@.len() as int, mode.dark),
        s@.spans.len() == grid@.len() * grid_width(grid@),
        forall|y: int, x: int|
            0 <= y < grid@.len() && 0 <= x < grid_width(grid@) ==> #[trigger] s@.spans[y
                * grid_width(grid@) + x] == span_of(grid@[y][x], mode.dark),
        s@.rows.len() == grid@.len(),
        forall|y: int|
            0 <= y < grid@.len() ==> #[trigger] s@.rows[y] == row_items(
                grid@[y],
                y * grid_width(grid@),
                mode.dark,
            ),
{
    let ghost w = grid_width(grid@);
    let ghost dark = mode.dark;
    let h = grid.height();
    let mut spans: Vec<SpanNode> = Vec::new();
    let mut rows_out: Vec<Vec<RowItem>> = Vec::new();
    let mut y: usize = 0;
    while y < h
        invariant
            y <= h,
            h == grid@.len(),
            dark == mode.dark,
            forall|i: int| 0 <= i < grid@.len() ==> (#[trigger] grid@[i]).len() == w,
            w == grid_width(grid@),
            rows_out@.len() == y,
            forall|i: int|
                0 <= i < y ==> #[trigger] items_v(rows_out@[i]@) == row_items(grid@[i], i * w, dark),
            spans_v(spans@) == flat_spans(grid@, y as int, dark),
            spans@.len() == (y as int) * w,
        decreases h - y,
    {
        let ghost rowv = grid@[y as int];
        let ghost base = (y as int) * w;
        let ghost done_spans = spans_v(spans@);
        let row_len = grid.row_len(y);
        let mut line_items: Vec<RowItem> = Vec::new();
        let mut run_ids: Vec<usize> = Vec::new();
        let mut href: String = String::new();
        let mut run_open: bool = false;
        let ghost mut start: int = 0;
        let mut x: usize = 0;
        while x < row_len
            invariant
                x <= row_len,
                y < h,
                h == grid@.len(),
                dark == mode.dark,
                forall|i: int| 0 <= i < grid@.len() ==> (#[trigger] grid@[i]).len() == w,
                rowv == grid@[y as int],
                row_len == w,
                rowv.len() == w,
                base == (y as int) * w,
                done_spans == flat_spans(grid@, y as int, dark),
                spans@.len() == base + x,
                spans_v(spans@) == done_spans + Seq::new(x as nat, |k: int| span_of(rowv[k], dark)),
                items_v(line_items@) + row_items_from(
                    rowv,
                    base,
                    dark,
                    x as int,
                    if run_open {
                        start
                    } else {
                        x as int
                    },
                ) == row_items(rowv, base, dark),
                run_open ==> 0 <= start <= x as int && (x as int) < rowv.len()
                    && rowv[x as int].is_link(),
                run_open ==> href@ == concat_glyphs(rowv.subrange(start, x as int)),
                run_open ==> ids_v(run_ids@) == Seq::new(
                    (x as int - start) as nat,
                    |k: int| base + start + k,
                ),
                !run_open ==> href@ == Seq::<char>::empty() && run_ids@.len() == 0,
            decreases row_len - x,
        {
            let ghost old_spans = spans@;
            let ghost old_items = line_items@;
            let ghost old_ids = run_ids@;
            let cell = grid.get(y, x);
            let link = cell.is_hyperlink();
            let sp = create_span(cell, mode);
            let id = spans.len();
            spans.push(sp);
            proof {
                let new_model = done_spans + Seq::new(
                    (x + 1) as nat,
                    |k: int| span_of(rowv[k], dark),
                );
                assert(spans_v(old_spans).len() == old_spans.len());
                assert(Seq::new(x as nat, |k: int| span_of(rowv[k], dark)).len() == x);
                assert(done_spans.len() == base);
                assert(sp@ == span_of(rowv[x as int], dark));
                assert forall|i: int| 0 <= i < spans@.len() implies #[trigger] spans_v(spans@)[i]
                    == new_model[i] by {
                    assert(spans@[i] == old_spans.push(sp)[i]);
                    if i < base + x {
                        assert(spans_v(old_spans)[i] == (done_spans + Seq::new(
                            x as nat,
                            |k: int| span_of(rowv[k], dark),
                        ))[i]);
                        assert(spans@[i] == old_spans[i]);
                    }
                }
                assert(spans_v(spans@) =~= new_model);
            }
            if link {
                if !run_open {
                    run_open = true;
                    proof {
                        start = x as int;
                        assert(rowv.subrange(start, x as int) =~= Seq::<CellV>::empty());
                        assert(ids_v(old_ids) =~= Seq::new(0nat, |k: int| base + start + k));
                    }
                }
                run_ids.push(id);
                href.append(cell.glyph.as_str());
                proof {
                    assert(rowv.subrange(start, x as int + 1) =~= rowv.subrange(
                        start,
                        x as int,
                    ).push(rowv[x as int]));
                    lemma_concat_glyphs_push(rowv.subrange(start, x as int), rowv[x as int]);
                    assert(href@ == concat_glyphs(rowv.subrange(start, x as int + 1)));
                    assert forall|k: int| 0 <= k < run_ids@.len() implies #[trigger] ids_v(
                        run_ids@,
                    )[k] == base + start + k by {
                        assert(run_ids@[k] == old_ids.push(id)[k]);
                        if k < x as int - start {
                            assert(ids_v(old_ids)[k] == Seq::new(
                                (x as int - start) as nat,
                                |k2: int| base + start + k2,
                            )[k]);
                            assert(run_ids@[k] == old_ids[k]);
                        }
                    }
                    assert(ids_v(run_ids@) =~= Seq::new(
                        (x as int + 1 - start) as nat,
                        |k: int| base + start + k,
                    ));
                }
                let next_link = if x + 1 < row_len {
                    grid.get(y, x + 1).is_hyperlink()
                } else {
                    false
                };
                if !next_link {
                    let ids = run_ids;
                    let target = href;
                    let anchor = RowItem::Anchor {
                        href: target,
                        style: get_cell_color(cell, mode),
                        spans: ids,
                    };
                    let ghost anchor_v = anchor@;
                    line_items.push(anchor);
                    run_ids = Vec::new();
                    href = String::new();
                    run_open = false;
                    proof {
                        let head = RowItemV::Anchor {
                            href: concat_glyphs(rowv.subrange(start, x as int + 1)),
                            style: rowv[x as int].style(dark),
                            spans: Seq::new(
                                (x as int + 1 - start) as nat,
                                |k: int| base + start + k,
                            ),
                        };
                        assert(anchor_v == head);
                        assert(row_items_from(rowv, base, dark, x as int, start) == seq![head]
                            + row_items_from(rowv, base, dark, x as int + 1, x as int + 1));
                        assert(items_v(line_items@) =~= items_v(old_items) + seq![anchor_v]);
                        assert((items_v(old_items) + seq![head]) + row_items_from(
                            rowv,
                            base,
                            dark,
                            x as int + 1,
                            x as int + 1,
                        ) =~= items_v(old_items) + (seq![head] + row_items_from(
                            rowv,
                            base,
                            dark,
                            x as int + 1,
                            x as int + 1,
                        )));
                    }
                } else {
                    proof {
                        assert(row_items_from(rowv, base, dark, x as int, start)
                            == row_items_from(rowv, base, dark, x as int + 1, start));
                    }
                }
            } else {
                line_items.push(RowItem::Plain { span: id });
                proof {
                    let head = RowItemV::Plain { span: base + x as int };
                    assert(row_items_from(rowv, base, dark, x as int, x as int) == seq![head]
                        + row_items_from(rowv, base, dark, x as int + 1, x as int + 1));
                    assert(items_v(line_items@) =~= items_v(old_items) + seq![head]);
                    assert((items_v(old_items) + seq![head]) + row_items_from(
                        rowv,
                        base,
                        dark,
                        x as int + 1,
                        x as int + 1,
                    ) =~= items_v(old_items) + (seq![head] + row_items_from(
                        rowv,
                        base,
                        dark,
                        x as int + 1,
                        x as int + 1,
                    )));
                }
            }
            x = x + 1;
        }
        proof {
            assert(row_items_from(rowv, base, dark, x as int, x as int) =~= Seq::<
                RowItemV,
            >::empty());
            assert(items_v(line_items@) + Seq::<RowItemV>::empty() =~= items_v(line_items@));
            assert(items_v(line_items@) == row_items(rowv, base, dark));
            assert(Seq::new(x as nat, |k: int| span_of(rowv[k], dark)) =~= row_spans_model(
                rowv,
                dark,
            ));
            assert(spans_v(spans@) == flat_spans(grid@, y as int + 1, dark));
            assert((y as int + 1) * w == (y as int) * w + w) by (nonlinear_arith);
        }
        let ghost old_rows_out = rows_out@;
        rows_out.push(line_items);
        proof {
            assert forall|i: int| 0 <= i < y + 1 implies #[trigger] items_v(rows_out@[i]@)
                == row_items(grid@[i], i * w, dark) by {
                if i < y {
                    assert(rows_out@[i] == old_rows_out[i]);
                }
            }
        }
        y = y + 1;
    }
    let s = Surface { spans, rows: rows_out };
    proof {
        assert(s@.rows =~= rows_out@.map(|i: int, r: Vec<RowItem>| items_v(r@)));
        assert forall|yy: int| 0 <= yy < grid@.len() implies #[trigger] s@.rows[yy] == row_items(
            grid@[yy],
            yy * w,
            dark,
        ) by {
            assert(s@.rows[yy] == items_v(rows_out@[yy]@));
        }
        lemma_flat_spans_index(grid@, grid@.len() as int, w, dark);
    }
    s
}

} // verus!
