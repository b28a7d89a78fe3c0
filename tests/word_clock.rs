use word_clock::cell::{letter_at, Cell, TimeWords};
use word_clock::clock::{am_pm_marker, clock_grid, should_redraw, time_words, twelve_hour, GRID_SIZE};
use word_clock::grid::{compose, compose_with, Grid, Placement};
use word_clock::style::{style_of, Color, Style};

fn text_of(cells: &[Cell]) -> String {
    cells.iter().map(|c| c.ch).collect()
}

fn run_of(grid: &Grid, kind: TimeWords) -> (usize, String) {
    let idx: Vec<usize> = (0..grid.cells.len()).filter(|&k| grid.cells[k].kind == kind).collect();
    assert!(!idx.is_empty());
    let start = idx[0];
    for (n, k) in idx.iter().enumerate() {
        assert_eq!(*k, start + n, "cells of one word are contiguous");
    }
    (start, idx.iter().map(|&k| grid.cells[k].ch).collect())
}

fn check_grid(grid: &Grid, h: &str, m: &str, ap: &str, g: usize) {
    assert_eq!(grid.size, g);
    assert_eq!(grid.cells.len(), g * g);
    let (sh, th) = run_of(grid, TimeWords::Hour);
    let (sm, tm) = run_of(grid, TimeWords::Minute);
    let (sa, ta) = run_of(grid, TimeWords::AMPM);
    assert_eq!(th, h);
    assert_eq!(tm, m);
    assert_eq!(ta, ap);
    assert!(sh + h.len() <= sm);
    assert!(sm + m.len() <= sa);
    let words = grid.cells.iter().filter(|c| c.kind != TimeWords::Others).count();
    assert_eq!(words, h.len() + m.len() + ap.len());
    for c in grid.cells.iter().filter(|c| c.kind == TimeWords::Others) {
        assert!(c.ch.is_ascii_uppercase());
    }
}

fn fixed_letters(g: usize) -> Vec<u8> {
    (0..g * g).map(|k| (k % 26) as u8).collect()
}

fn fixed_placement() -> Placement {
    Placement { hour_row: 1, hour_col: 2, minute_row: 4, minute_col: 0, ampm_row: 10, ampm_col: 3 }
}

#[test]
fn three_forty_five_fixed_draws() {
    let letters = fixed_letters(14);
    let grid = compose_with("THREE", "FORTYFIVE", "PM", 14, fixed_placement(), &letters);
    check_grid(&grid, "THREE", "FORTYFIVE", "PM", 14);
    assert_eq!(run_of(&grid, TimeWords::Hour).0, 16);
    assert_eq!(run_of(&grid, TimeWords::Minute).0, 56);
    assert_eq!(run_of(&grid, TimeWords::AMPM).0, 143);
    let decoys = grid.cells.iter().filter(|c| c.kind == TimeWords::Others).count();
    assert_eq!(decoys, 180);
}

#[test]
fn three_forty_five_random() {
    for _ in 0..50 {
        let grid = compose("THREE", "FORTYFIVE", "PM", 14);
        check_grid(&grid, "THREE", "FORTYFIVE", "PM", 14);
        let decoys = grid.cells.iter().filter(|c| c.kind == TimeWords::Others).count();
        assert_eq!(decoys, 180);
    }
}

#[test]
fn fixed_draws_reproduce_golden_rows() {
    let letters = fixed_letters(14);
    let a = compose_with("THREE", "FORTYFIVE", "PM", 14, fixed_placement(), &letters);
    let b = compose_with("THREE", "FORTYFIVE", "PM", 14, fixed_placement(), &letters);
    assert_eq!(a.cells, b.cells);
    assert_eq!(text_of(&a.cells[0..14]), "ABCDEFGHIJKLMN");
    assert_eq!(text_of(&a.cells[14..28]), "OPTHREEVWXYZAB");
    assert_eq!(text_of(&a.cells[56..70]), "FORTYFIVENOPQR");
    assert_eq!(text_of(&a.cells[140..154]), "KLMPMPQRSTUVWX");
}

#[test]
fn cell_reads_row_and_column() {
    let letters = fixed_letters(14);
    let grid = compose_with("THREE", "FORTYFIVE", "PM", 14, fixed_placement(), &letters);
    assert_eq!(grid.cell(1, 2), Cell { ch: 'T', kind: TimeWords::Hour });
    assert_eq!(grid.cell(4, 8), Cell { ch: 'E', kind: TimeWords::Minute });
    assert_eq!(grid.cell(10, 4), Cell { ch: 'M', kind: TimeWords::AMPM });
    assert_eq!(grid.cell(0, 0), Cell { ch: 'A', kind: TimeWords::Others });
}

#[test]
fn words_spanning_rows_and_last_row() {
    let p = Placement { hour_row: 0, hour_col: 0, minute_row: 1, minute_col: 0, ampm_row: 3, ampm_col: 0 };
    let letters = fixed_letters(4);
    let grid = compose_with("ONE", "TWO", "AM", 4, p, &letters);
    check_grid(&grid, "ONE", "TWO", "AM", 4);
    assert_eq!(text_of(&grid.cells), "ONEDTWOHIJKLAMOP");
}

#[test]
fn smallest_grid_random() {
    for _ in 0..50 {
        let grid = compose("ONE", "TWO", "PM", 4);
        check_grid(&grid, "ONE", "TWO", "PM", 4);
    }
}

#[test]
fn noon_stays_twelve_pm() {
    assert_eq!(twelve_hour(12), 12);
    let w = time_words(12, 0);
    assert_eq!(w.hour_word, "TWELVE");
    assert_eq!(w.am_pm, "PM");
}

#[test]
fn afternoon_and_morning_hours() {
    assert_eq!(twelve_hour(15), 3);
    assert_eq!(twelve_hour(23), 11);
    assert_eq!(twelve_hour(0), 0);
    assert_eq!(twelve_hour(11), 11);
    assert_eq!(am_pm_marker(0), "AM");
    assert_eq!(am_pm_marker(11), "AM");
    assert_eq!(am_pm_marker(12), "PM");
    assert_eq!(am_pm_marker(23), "PM");
}

#[test]
fn minute_zero_is_spelled() {
    let w = time_words(3, 0);
    assert_eq!(w.minute_word, "ZERO");
    assert_eq!(w.hour_word, "THREE");
    assert_eq!(w.am_pm, "AM");
}

#[test]
fn words_are_spelled_in_capitals() {
    let w = time_words(15, 45);
    assert_eq!(w.hour_word, "THREE");
    assert_eq!(w.minute_word, "FORTY-FIVE");
    assert_eq!(w.am_pm, "PM");
}

#[test]
fn clock_grid_places_the_time() {
    let grid = clock_grid(15, 45, GRID_SIZE).expect("words fit");
    check_grid(&grid, "THREE", "FORTY-FIVE", "PM", 14);
    let grid = clock_grid(12, 0, GRID_SIZE).expect("words fit");
    check_grid(&grid, "TWELVE", "ZERO", "PM", 14);
}

#[test]
fn clock_grid_too_narrow_for_words() {
    assert!(clock_grid(15, 45, 10).is_none());
    assert!(clock_grid(15, 45, 11).is_some());
    assert!(clock_grid(1, 1, 4).is_some());
    assert!(clock_grid(3, 3, 5).is_none());
}

#[test]
fn decoy_letters_cover_alphabet() {
    assert_eq!(letter_at(0), 'A');
    assert_eq!(letter_at(7), 'H');
    assert_eq!(letter_at(25), 'Z');
}

#[test]
fn styles_by_kind() {
    let word = Style { bold: true, color: Color::Red };
    assert_eq!(style_of(TimeWords::Hour), word);
    assert_eq!(style_of(TimeWords::Minute), word);
    assert_eq!(style_of(TimeWords::AMPM), word);
    assert_eq!(style_of(TimeWords::Others), Style { bold: false, color: Color::White });
}

#[test]
fn redraw_on_first_tick_and_new_minute() {
    assert!(should_redraw(true, 5, 5));
    assert!(should_redraw(false, 6, 5));
    assert!(!should_redraw(false, 5, 5));
}
