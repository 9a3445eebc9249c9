use late::theme_tree::{find_row, tree_rows, RowQuery, ThemeCatalog, ThemeTree, ThemeTreeRow};

fn catalog() -> ThemeCatalog {
    ThemeCatalog { groups: vec![0, 1, 2], option_groups: vec![0, 0, 1, 2, 2, 2] }
}

fn group(group: u8, collapsed: bool) -> ThemeTreeRow {
    ThemeTreeRow::Group { group, collapsed }
}

fn theme(option_index: usize, last_in_group: bool) -> ThemeTreeRow {
    ThemeTreeRow::Theme { option_index, last_in_group }
}

#[test]
fn tree_rows_list_groups_with_their_themes() {
    let cat = catalog();
    assert_eq!(
        tree_rows(&cat, 0),
        vec![
            group(0, false),
            theme(0, false),
            theme(1, true),
            group(1, false),
            theme(2, true),
            group(2, false),
            theme(3, false),
            theme(4, false),
            theme(5, true),
        ]
    );
    assert_eq!(
        tree_rows(&cat, 0b010),
        vec![
            group(0, false),
            theme(0, false),
            theme(1, true),
            group(1, true),
            group(2, false),
            theme(3, false),
            theme(4, false),
            theme(5, true),
        ]
    );
    assert_eq!(tree_rows(&cat, 0b111), vec![group(0, true), group(1, true), group(2, true)]);
}

#[test]
fn find_row_finds_first_match() {
    let cat = catalog();
    let rows = tree_rows(&cat, 0);
    assert_eq!(find_row(&rows, RowQuery::Heading(2), &cat.option_groups), Some(5));
    assert_eq!(find_row(&rows, RowQuery::Option(4), &cat.option_groups), Some(7));
    assert_eq!(find_row(&rows, RowQuery::GroupTheme(2), &cat.option_groups), Some(6));
    assert_eq!(find_row(&rows, RowQuery::Heading(9), &cat.option_groups), None);
}

#[test]
fn moving_the_cursor_applies_themes_and_scrolls() {
    let cat = catalog();
    let mut t = ThemeTree::new();
    t.set_visible_height(3);
    assert_eq!(t.move_cursor(&cat, 1), Some(0));
    assert_eq!((t.selected_row, t.scroll_offset, t.theme_index), (1, 0, 0));
    assert_eq!(t.move_cursor(&cat, 5), Some(3));
    assert_eq!((t.selected_row, t.scroll_offset, t.theme_index), (6, 4, 3));
    assert_eq!(t.move_cursor(&cat, -4), Some(1));
    assert_eq!((t.selected_row, t.scroll_offset), (2, 2));
    assert_eq!(t.move_cursor(&cat, 100), Some(5));
    assert_eq!(t.selected_row, 8);
    assert_eq!(t.move_cursor(&cat, -100), None);
    assert_eq!((t.selected_row, t.scroll_offset), (0, 0));
}

#[test]
fn left_collapses_and_right_expands_then_enters() {
    let cat = catalog();
    let mut t = ThemeTree::new();
    t.set_visible_height(3);
    t.move_cursor(&cat, 6);
    t.cursor_left(&cat);
    assert!(t.group_collapsed(2));
    assert_eq!((t.selected_row, t.scroll_offset), (5, 3));
    assert_eq!(t.cursor_right(&cat), None);
    assert!(!t.group_collapsed(2));
    assert_eq!(t.selected_row, 5);
    assert_eq!(t.cursor_right(&cat), Some(3));
    assert_eq!((t.selected_row, t.theme_index), (6, 3));
}

#[test]
fn collapse_then_expand_restores_the_tree() {
    let cat = catalog();
    let mut t = ThemeTree::new();
    let before = tree_rows(&cat, t.collapsed_groups);
    t.collapse_group(&cat, 1);
    assert_eq!(t.collapsed_groups, 0b010);
    assert_eq!(t.selected_row, 3);
    t.expand_group(&cat, 1);
    assert_eq!(t.collapsed_groups, 0);
    assert_eq!(tree_rows(&cat, t.collapsed_groups), before);
}

#[test]
fn enter_toggles_headings_and_selects_themes() {
    let cat = catalog();
    let mut t = ThemeTree::new();
    assert_eq!(t.toggle_row(&cat), None);
    assert!(t.group_collapsed(0));
    assert_eq!(t.toggle_row(&cat), None);
    assert!(!t.group_collapsed(0));
    t.move_cursor(&cat, 2);
    assert_eq!(t.toggle_row(&cat), Some(1));
    assert_eq!((t.selected_row, t.theme_index), (2, 1));
}

#[test]
fn select_index_clamps_and_expands_its_group() {
    let cat = catalog();
    let mut t = ThemeTree::new();
    t.collapse_group(&cat, 2);
    assert_eq!(t.select_index(&cat, 42), Some(5));
    assert!(!t.group_collapsed(2));
    assert_eq!((t.theme_index, t.selected_row), (5, 8));
    assert_eq!(t.apply_index(&cat, 6), None);
    assert_eq!(t.theme_index, 5);
}

#[test]
fn sync_points_at_the_drafts_theme() {
    let cat = catalog();
    let mut t = ThemeTree::new();
    t.set_visible_height(2);
    t.collapse_group(&cat, 1);
    t.sync_to_option(&cat, 2);
    assert!(!t.group_collapsed(1));
    assert_eq!((t.theme_index, t.selected_row, t.scroll_offset), (2, 4, 3));
}
