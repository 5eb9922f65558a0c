use std::sync::Arc;

use scratchpad::mouse::{click_count_at_pointer, line_selection_range, normalize_click_count, row_selection_at_pointer};
use scratchpad::types::{CharCursor, CursorRange};

fn laid_out(text: &str) -> Arc<egui::Galley> {
    let ctx = egui::Context::default();
    let mut galley = None;
    let output = ctx.run_ui(Default::default(), |ui| {
        galley = Some(ui.ctx().fonts_mut(|fonts| {
            fonts.layout_job(egui::text::LayoutJob::simple(
                text.to_owned(),
                egui::FontId::monospace(14.0),
                egui::Color32::WHITE,
                f32::INFINITY,
            ))
        }));
    });
    output.drop_without_applying_deltas();
    galley.expect("galley")
}

#[test]
fn a_click_at_a_row_end_counts_once() {
    let galley = laid_out("a\nbc");
    assert_eq!(normalize_click_count(&galley, CharCursor::new(1), 3), 1);
    assert_eq!(normalize_click_count(&galley, CharCursor::new(0), 2), 2);
    assert_eq!(click_count_at_pointer(&galley, CharCursor::new(4), 2), Some(1));
}

#[test]
fn a_row_selection_spans_the_painted_row() {
    let galley = laid_out("a\nbc");
    let range = line_selection_range(&galley, 10, CharCursor::new(3));
    assert_eq!(range.primary.index, 14);
    assert_eq!(range.secondary.index, 12);
    assert_eq!(
        row_selection_at_pointer(&galley, 0, CharCursor::new(0)).map(|r: CursorRange| (r.secondary.index, r.primary.index)),
        Some((0, 1))
    );
}
