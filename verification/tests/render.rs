use webgrid::backend::WasmBackend;
use webgrid::cell::{Cell, HYPERLINK};
use webgrid::color::{ansi_to_rgb, Color, Rgb};
use webgrid::grid::{get_sized_buffer, grids_equal};
use webgrid::pump::{FramePump, PumpAction, PumpState};
use webgrid::surface::RowItem;
use webgrid::DocumentMode;

fn cell(glyph: &str, fg: Color, bg: Color, modifiers: u16) -> Cell {
    Cell::new(String::from(glyph), fg, bg, modifiers)
}

fn plain(glyph: &str) -> Cell {
    cell(glyph, Color::Unset, Color::Unset, 0)
}

fn link(glyph: &str, fg: Color) -> Cell {
    cell(glyph, fg, Color::Unset, HYPERLINK)
}

fn dark() -> DocumentMode {
    DocumentMode::from_dark(true)
}

#[test]
fn paint_read_back() {
    let mut grid = get_sized_buffer(4, 3);
    grid.paint(2, 1, plain("x"));
    assert_eq!(grid.get(1, 2).glyph, "x");
    // the other positions still hold the blank cell
    assert_eq!(grid.get(1, 1).glyph, " ");
    assert_eq!(grid.get(0, 2).glyph, " ");
}

#[test]
fn paint_past_row_end_pads_with_blanks() {
    let mut grid = get_sized_buffer(2, 1);
    grid.paint(5, 0, plain("z"));
    assert_eq!(grid.row_len(0), 6);
    assert_eq!(grid.get(0, 5).glyph, "z");
    // the newly created columns hold the blank cell
    assert_eq!(grid.get(0, 2).glyph, " ");
    assert_eq!(grid.get(0, 4).glyph, " ");
}

#[test]
fn grids_equal_detects_one_cell() {
    let mut a = get_sized_buffer(3, 2);
    let b = get_sized_buffer(3, 2);
    assert!(grids_equal(&a, &b));
    a.paint(0, 0, plain("q"));
    assert!(!grids_equal(&a, &b));
}

#[test]
fn diff_identical_frames_mutates_nothing() {
    let mode = dark();
    let mut backend = WasmBackend::new(4, 2);
    backend.draw(&vec![(0, 0, plain("h")), (1, 0, plain("i"))]);
    let (built, muts) = backend.flush(&mode);
    assert!(built);
    assert_eq!(muts.len(), 0);
    // same frame again: the diff sees identical buffers and performs no
    // node mutations at all
    let (built2, muts2) = backend.flush(&mode);
    assert!(!built2);
    assert_eq!(muts2.len(), 0);
}

#[test]
fn diff_twice_without_paint_is_idempotent() {
    let mode = dark();
    let mut backend = WasmBackend::new(3, 2);
    backend.flush(&mode);
    backend.draw(&vec![(1, 1, plain("a"))]);
    let (_, first) = backend.flush(&mode);
    assert_eq!(first.len(), 1);
    // no paint in between: the second diff step produces zero mutations
    let (_, second) = backend.flush(&mode);
    assert_eq!(second.len(), 0);
}

#[test]
fn hyperlink_grouping_builds_one_anchor() {
    let mode = dark();
    let mut backend = WasmBackend::new(4, 1);
    backend.draw(&vec![
        (0, 0, link("a", Color::Unset)),
        (1, 0, link("b", Color::Unset)),
        (2, 0, link("c", Color::Red)),
        (3, 0, plain("d")),
    ]);
    backend.flush(&mode);
    assert_eq!(backend.surface.rows.len(), 1);
    let row = &backend.surface.rows[0];
    assert_eq!(row.len(), 2);
    match &row[0] {
        RowItem::Anchor { href, style, spans } => {
            assert_eq!(href.as_str(), "abc");
            // the anchor takes the style of the last cell in the span
            assert_eq!(style.fg, Rgb { r: 128, g: 0, b: 0 });
            assert_eq!(spans.as_slice(), &[0, 1, 2]);
        }
        RowItem::Plain { .. } => panic!("expected an anchor for the hyperlink run"),
    }
    match &row[1] {
        RowItem::Plain { span } => assert_eq!(*span, 3),
        RowItem::Anchor { .. } => panic!("expected a plain leaf for the trailing cell"),
    }
    // the flat index still holds every cell's leaf individually
    assert_eq!(backend.surface.spans.len(), 4);
    assert_eq!(backend.surface.spans[0].content, "a");
    assert_eq!(backend.surface.spans[2].content, "c");
    assert_eq!(backend.surface.spans[3].content, "d");
}

#[test]
fn two_hyperlink_runs_in_one_row() {
    let mode = dark();
    let mut backend = WasmBackend::new(5, 1);
    backend.draw(&vec![
        (0, 0, link("x", Color::Unset)),
        (1, 0, link("y", Color::Unset)),
        (2, 0, plain("-")),
        (3, 0, link("z", Color::Unset)),
        (4, 0, plain("!")),
    ]);
    backend.flush(&mode);
    let row = &backend.surface.rows[0];
    assert_eq!(row.len(), 4);
    match &row[0] {
        RowItem::Anchor { href, spans, .. } => {
            assert_eq!(href.as_str(), "xy");
            assert_eq!(spans.as_slice(), &[0, 1]);
        }
        _ => panic!("expected the first run's anchor"),
    }
    match &row[2] {
        RowItem::Anchor { href, spans, .. } => {
            assert_eq!(href.as_str(), "z");
            assert_eq!(spans.as_slice(), &[3]);
        }
        _ => panic!("expected the second run's anchor"),
    }
}

#[test]
fn hyperlink_cells_are_never_live_updated() {
    let mode = dark();
    let mut backend = WasmBackend::new(2, 1);
    backend.draw(&vec![(0, 0, link("a", Color::Unset)), (1, 0, plain("b"))]);
    backend.flush(&mode);
    let anchor_leaf_before = backend.surface.spans[0].content.clone();
    // change the hyperlink-flagged cell's glyph and diff again
    backend.draw(&vec![(0, 0, link("Z", Color::Unset))]);
    let (_, muts) = backend.flush(&mode);
    assert_eq!(muts.len(), 0);
    assert_eq!(backend.surface.spans[0].content, anchor_leaf_before);
    match &backend.surface.rows[0][0] {
        RowItem::Anchor { href, .. } => assert_eq!(href.as_str(), "a"),
        _ => panic!("expected an anchor"),
    }
}

#[test]
fn single_cell_change_yields_single_mutation() {
    let mode = dark();
    let mut backend = WasmBackend::new(8, 6);
    backend.flush(&mode);
    let untouched_before = backend.surface.spans[0].content.clone();
    backend.draw(&vec![(5, 3, cell("Q", Color::Green, Color::Unset, 0))]);
    let (built, muts) = backend.flush(&mode);
    assert!(!built);
    assert_eq!(muts.len(), 1);
    assert_eq!(muts[0].row, 3);
    assert_eq!(muts[0].col, 5);
    assert_eq!(muts[0].span, 3 * 8 + 5);
    assert_eq!(muts[0].content, "Q");
    assert_eq!(muts[0].style.fg, Rgb { r: 0, g: 128, b: 0 });
    // the mutated leaf carries the new glyph; every other leaf is untouched
    assert_eq!(backend.surface.spans[3 * 8 + 5].content, "Q");
    assert_eq!(backend.surface.spans[0].content, untouched_before);
    assert_eq!(backend.surface.spans[47].content, " ");
}

#[test]
fn color_table_named_colors() {
    assert_eq!(ansi_to_rgb(Color::Black), Some(Rgb { r: 0, g: 0, b: 0 }));
    assert_eq!(ansi_to_rgb(Color::Red), Some(Rgb { r: 128, g: 0, b: 0 }));
    assert_eq!(ansi_to_rgb(Color::Green), Some(Rgb { r: 0, g: 128, b: 0 }));
    assert_eq!(ansi_to_rgb(Color::Yellow), Some(Rgb { r: 128, g: 128, b: 0 }));
    assert_eq!(ansi_to_rgb(Color::Blue), Some(Rgb { r: 0, g: 0, b: 128 }));
    assert_eq!(ansi_to_rgb(Color::Magenta), Some(Rgb { r: 128, g: 0, b: 128 }));
    assert_eq!(ansi_to_rgb(Color::Cyan), Some(Rgb { r: 0, g: 128, b: 128 }));
    assert_eq!(ansi_to_rgb(Color::Gray), Some(Rgb { r: 192, g: 192, b: 192 }));
    assert_eq!(ansi_to_rgb(Color::DarkGray), Some(Rgb { r: 128, g: 128, b: 128 }));
    assert_eq!(ansi_to_rgb(Color::LightRed), Some(Rgb { r: 255, g: 0, b: 0 }));
    assert_eq!(ansi_to_rgb(Color::LightGreen), Some(Rgb { r: 0, g: 255, b: 0 }));
    assert_eq!(ansi_to_rgb(Color::LightYellow), Some(Rgb { r: 255, g: 255, b: 0 }));
    assert_eq!(ansi_to_rgb(Color::LightBlue), Some(Rgb { r: 0, g: 0, b: 255 }));
    assert_eq!(ansi_to_rgb(Color::LightMagenta), Some(Rgb { r: 255, g: 0, b: 255 }));
    assert_eq!(ansi_to_rgb(Color::LightCyan), Some(Rgb { r: 0, g: 255, b: 255 }));
    assert_eq!(ansi_to_rgb(Color::White), Some(Rgb { r: 255, g: 255, b: 255 }));
    assert_eq!(ansi_to_rgb(Color::Unset), None);
    assert_eq!(ansi_to_rgb(Color::Other), None);
}

#[test]
fn unset_colors_follow_document_mode() {
    let c = plain("s");
    let in_dark = webgrid::cell::get_cell_color(&c, &DocumentMode::from_dark(true));
    assert_eq!(in_dark.fg, Rgb { r: 255, g: 255, b: 255 });
    assert_eq!(in_dark.bg, None);
    let in_light = webgrid::cell::get_cell_color(&c, &DocumentMode::from_dark(false));
    assert_eq!(in_light.fg, Rgb { r: 0, g: 0, b: 0 });
    assert_eq!(in_light.bg, None);
}

#[test]
fn viewport_handheld_uses_screen_metrics() {
    assert!(webgrid::viewport::is_mobile(500));
    assert!(!webgrid::viewport::is_mobile(550));
    let dims = webgrid::viewport::grid_dimensions(500, 800, Some((9999, 9999)));
    assert_eq!(dims, (50, 42));
}

#[test]
fn viewport_desktop_uses_window_metrics() {
    let dims = webgrid::viewport::grid_dimensions(1200, 800, Some((1200, 800)));
    assert_eq!(dims, (120, 40));
    let fallback = webgrid::viewport::grid_dimensions(1200, 800, None);
    assert_eq!(fallback, (120, 120));
}

#[test]
fn size_reports_one_less_than_dimensions() {
    let grid = get_sized_buffer(80, 24);
    assert_eq!(grid.size(), (79, 23));
    let empty_rows = get_sized_buffer(0, 3);
    assert_eq!(empty_rows.size(), (0, 2));
}

#[test]
fn backend_clear_resets_current_frame_only() {
    let mode = dark();
    let mut backend = WasmBackend::new(3, 2);
    backend.draw(&vec![(0, 0, plain("x"))]);
    backend.flush(&mode);
    backend.clear();
    assert_eq!(backend.buffer.get(0, 0).glyph, " ");
    // the surface still shows the rendered frame
    assert_eq!(backend.surface.spans[0].content, "x");
}

#[test]
fn pump_runs_the_tick_protocol() {
    let mut pump = FramePump::new();
    assert_eq!(pump.state, PumpState::Idle);
    assert_eq!(pump.start(), PumpAction::Reschedule);
    assert_eq!(pump.state, PumpState::Running);
    let actions = pump.tick();
    assert_eq!(
        actions,
        vec![
            PumpAction::Autoresize,
            PumpAction::RenderFrame,
            PumpAction::FlushTerminal,
            PumpAction::SwapBuffers,
            PumpAction::FlushBackend,
            PumpAction::Reschedule,
        ]
    );
    assert_eq!(pump.state, PumpState::Running);
}

#[test]
fn style_only_change_is_a_mutation() {
    let mode = dark();
    let mut backend = WasmBackend::new(2, 1);
    backend.draw(&vec![(0, 0, cell("g", Color::Red, Color::Unset, 0))]);
    backend.flush(&mode);
    // same glyph, different foreground: the cell differs, so it is rewritten
    backend.draw(&vec![(0, 0, cell("g", Color::Blue, Color::Unset, 0))]);
    let (_, muts) = backend.flush(&mode);
    assert_eq!(muts.len(), 1);
    assert_eq!(muts[0].content, "g");
    assert_eq!(muts[0].style.fg, Rgb { r: 0, g: 0, b: 128 });
}

#[test]
fn clear_then_redraw_diffs_against_last_frame() {
    let mode = dark();
    let mut backend = WasmBackend::new(2, 1);
    backend.draw(&vec![(0, 0, plain("m")), (1, 0, plain("n"))]);
    backend.flush(&mode);
    // a cleared frame differs from the previous one in both painted cells
    backend.clear();
    let (_, muts) = backend.flush(&mode);
    assert_eq!(muts.len(), 2);
    assert_eq!((muts[0].row, muts[0].col), (0, 0));
    assert_eq!((muts[1].row, muts[1].col), (0, 1));
    assert_eq!(muts[0].content, " ");
    assert_eq!(backend.surface.spans[0].content, " ");
}
