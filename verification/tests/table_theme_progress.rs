use keel::progress::render_count_bar;
use keel::table::Table;
use keel::theme::Theme;

#[test]
fn table_calculates_widths() {
    let mut table = Table::new(&["ID", "NAME"]);
    table.row(&["1", "Alice"]);
    table.row(&["123", "Bob"]);
    assert_eq!(table.widths(), vec![3, 5]);
}

#[test]
fn table_header_sets_min_width() {
    let mut table = Table::new(&["IDENTIFIER", "N"]);
    table.row(&["1", "Alice"]);
    assert_eq!(table.widths(), vec![10, 5]);
}

#[test]
fn table_is_empty() {
    let table = Table::new(&["A", "B"]);
    assert!(table.is_empty());
    assert_eq!(table.len(), 0);
}

#[test]
fn table_counts_rows() {
    let mut table = Table::new(&["A"]);
    table.row(&["1"]);
    table.row(&["2"]);
    assert!(!table.is_empty());
    assert_eq!(table.len(), 2);
}

#[test]
fn table_alignment_with_ansi() {
    let mut table = Table::new(&["ID", "STATUS"]);
    let done = "\x1b[32mDONE\x1b[39m".to_string();
    table.row(&["1", &done]);
    table.row(&["123", "TODO"]);
    assert_eq!(table.widths()[0], 3);
    assert_eq!(table.widths()[1], 6);
}

#[test]
fn theme_struct_has_all_fields() {
    let theme = Theme::default();
    assert!(!theme.human.is_empty());
    assert!(!theme.agent.is_empty());
    assert!(!theme.warning.is_empty());
    assert!(!theme.muted.is_empty());
    assert!(!theme.bold.is_empty());
    assert!(!theme.reset.is_empty());
}

#[test]
fn default_theme_has_colors() {
    let theme = Theme::default();
    assert!(theme.human.contains("\x1b["));
    assert!(theme.agent.contains("\x1b["));
    assert!(theme.warning.contains("\x1b["));
    assert!(theme.muted.contains("\x1b["));
    assert!(theme.bold.contains("\x1b["));
    assert!(theme.reset.contains("\x1b["));
}

#[test]
fn no_color_theme_is_empty() {
    let theme = Theme::no_color();
    assert!(theme.human.is_empty());
    assert!(theme.agent.is_empty());
    assert!(theme.warning.is_empty());
    assert!(theme.muted.is_empty());
    assert!(theme.bold.is_empty());
    assert!(theme.reset.is_empty());
}

#[test]
fn should_use_color_respects_flag() {
    assert!(!Theme::should_use_color_with(true, false));
    assert!(!Theme::should_use_color_with(false, true));
    assert!(Theme::should_use_color_with(false, false));
}

#[test]
fn for_color_mode_returns_correct_theme() {
    let with_color = Theme::for_color_mode(true);
    assert!(!with_color.human.is_empty());
    let without_color = Theme::for_color_mode(false);
    assert!(without_color.human.is_empty());
}

#[test]
fn render_count_bar_handles_zero_total() {
    assert_eq!(render_count_bar(0, 0, 15, Some("(functional)")), "0/0 (functional)");
}

#[test]
fn render_count_bar_renders_bar_and_suffix() {
    let rendered = render_count_bar(2, 4, 10, Some("(stories)"));
    assert!(rendered.contains("2/4"));
    assert!(rendered.contains("(stories)"));
}

#[test]
fn table_render_pads_cells_and_keeps_trailing_blanks() {
    let mut table = Table::new(&["ID", "NAME"]);
    table.row(&["1", "Alice"]);
    table.row(&["123", "Bob"]);
    assert_eq!(
        table.render(),
        vec![
            "ID   NAME ".to_string(),
            "----------".to_string(),
            "1    Alice".to_string(),
            "123  Bob  ".to_string(),
        ]
    );
}

#[test]
fn table_render_pads_by_visible_width() {
    let mut table = Table::new(&["ID", "STATUS"]);
    let done = "\x1b[32mDONE\x1b[39m".to_string();
    table.row(&["1", &done]);
    table.row(&["123", "TODO", "extra"]);
    let lines = table.render();
    assert_eq!(lines[0], "ID   STATUS");
    assert_eq!(lines[1], "-----------");
    assert_eq!(lines[2], format!("1    {done}  "));
    assert_eq!(lines[3], "123  TODO    extra");
}
