use benutzerverwaltung::cell::NextcloudTableCell;
use benutzerverwaltung::table::{
    decode_cell, parse_nextcloud_table, Column, ColumnData, ColumnScheme, DecodedRow, SchemeResponse,
    SelectionOptions, SelectionType, TableScheme,
};
use benutzerverwaltung::users::{get_user_configs, row_lookup, user_configs_from_rows, user_from_row, DesiredState};
use benutzerverwaltung::{false_bool, true_bool};

fn opt(id: u64, label: &str) -> SelectionOptions {
    SelectionOptions { id, label: label.to_string() }
}

fn text_col(id: u64, title: &str) -> ColumnScheme {
    ColumnScheme::Text { id, title: title.to_string() }
}

fn sel_col(id: u64, title: &str, subtype: SelectionType, options: Vec<SelectionOptions>) -> ColumnScheme {
    ColumnScheme::Selection { id, title: title.to_string(), subtype, selection_options: options }
}

fn text(id: u64, v: &str) -> ColumnData {
    ColumnData::Text { column_id: id, value: v.to_string() }
}

fn scheme(columns: Vec<ColumnScheme>) -> SchemeResponse {
    SchemeResponse { data: TableScheme { title: "Mitglieder".to_string(), columns } }
}

fn get<'a>(row: &'a DecodedRow, title: &str) -> Option<&'a NextcloudTableCell> {
    row_lookup(row, title)
}

#[test]
fn multi_select_resolves_known_ids_in_order() {
    let cols = vec![sel_col(7, "Funktion", SelectionType::Multi, vec![opt(1, "A"), opt(2, "B")])];
    let cell = ColumnData::List { column_id: 7, value: vec![1, 99, 2] };
    match decode_cell(&cols, &cell) {
        Some((title, NextcloudTableCell::List(l))) => {
            assert_eq!(title, "Funktion");
            assert_eq!(l, vec!["A".to_string(), "B".to_string()]);
        }
        other => panic!("unexpected {:?}", other),
    }
}

#[test]
fn multi_select_with_no_known_id_is_empty_list() {
    let cols = vec![sel_col(7, "Funktion", SelectionType::Multi, vec![opt(1, "A")])];
    let cell = ColumnData::List { column_id: 7, value: vec![5, 6] };
    match decode_cell(&cols, &cell) {
        Some((_, NextcloudTableCell::List(l))) => assert!(l.is_empty()),
        other => panic!("unexpected {:?}", other),
    }
}

#[test]
fn check_cell_is_strict() {
    let cols = vec![sel_col(3, "Aktiv", SelectionType::Check, vec![])];
    assert!(decode_cell(&cols, &text(3, "yes")).is_none());
    match decode_cell(&cols, &text(3, "true")) {
        Some((t, NextcloudTableCell::Bool(true))) => assert_eq!(t, "Aktiv"),
        other => panic!("unexpected {:?}", other),
    }
    match decode_cell(&cols, &text(3, "false")) {
        Some((_, NextcloudTableCell::Bool(false))) => {}
        other => panic!("unexpected {:?}", other),
    }
}

#[test]
fn single_select_looks_up_label() {
    let cols = vec![sel_col(4, "Status", SelectionType::Single, vec![opt(10, "aktiv"), opt(11, "alt")])];
    match decode_cell(&cols, &ColumnData::Number { column_id: 4, value: 11 }) {
        Some((t, NextcloudTableCell::String(s))) => {
            assert_eq!(t, "Status");
            assert_eq!(s, "alt");
        }
        other => panic!("unexpected {:?}", other),
    }
    assert!(decode_cell(&cols, &ColumnData::Number { column_id: 4, value: 12 }).is_none());
}

#[test]
fn single_select_negative_number_reads_as_unsigned() {
    let cols = vec![sel_col(4, "Status", SelectionType::Single, vec![opt(u64::MAX, "max")])];
    match decode_cell(&cols, &ColumnData::Number { column_id: 4, value: -1 }) {
        Some((_, NextcloudTableCell::String(s))) => assert_eq!(s, "max"),
        other => panic!("unexpected {:?}", other),
    }
}

#[test]
fn mismatched_shapes_and_unknown_columns_are_dropped() {
    let cols = vec![
        text_col(1, "Vorname"),
        sel_col(2, "Funktion", SelectionType::Multi, vec![opt(1, "A")]),
        sel_col(3, "Status", SelectionType::Single, vec![opt(1, "A")]),
    ];
    assert!(decode_cell(&cols, &ColumnData::Number { column_id: 1, value: 1 }).is_none());
    assert!(decode_cell(&cols, &ColumnData::List { column_id: 1, value: vec![1] }).is_none());
    assert!(decode_cell(&cols, &text(2, "true")).is_none());
    assert!(decode_cell(&cols, &ColumnData::Number { column_id: 2, value: 1 }).is_none());
    assert!(decode_cell(&cols, &ColumnData::List { column_id: 3, value: vec![1] }).is_none());
    assert!(decode_cell(&cols, &text(99, "x")).is_none());
    match decode_cell(&cols, &text(1, "Jane")) {
        Some((t, NextcloudTableCell::String(s))) => {
            assert_eq!(t, "Vorname");
            assert_eq!(s, "Jane");
        }
        other => panic!("unexpected {:?}", other),
    }
}

#[test]
fn parse_keeps_row_order_and_drops_bad_cells() {
    let sch = scheme(vec![text_col(1, "Vorname"), sel_col(2, "Aktiv", SelectionType::Check, vec![])]);
    let rows = vec![
        Column { data: vec![text(1, "Jane"), text(2, "maybe")] },
        Column { data: vec![text(1, "John"), text(2, "false"), text(42, "x")] },
    ];
    let out = parse_nextcloud_table(rows, sch);
    assert_eq!(out.len(), 2);
    assert_eq!(out[0].cells.len(), 1);
    assert!(matches!(get(&out[0], "Vorname"), Some(NextcloudTableCell::String(s)) if s == "Jane"));
    assert!(get(&out[0], "Aktiv").is_none());
    assert_eq!(out[1].cells.len(), 2);
    assert!(matches!(get(&out[1], "Aktiv"), Some(NextcloudTableCell::Bool(false))));
}

#[test]
fn later_cell_with_same_title_wins() {
    let row = DecodedRow {
        cells: vec![
            ("Vorname".to_string(), NextcloudTableCell::String("A".to_string())),
            ("Vorname".to_string(), NextcloudTableCell::String("B".to_string())),
        ],
    };
    assert!(matches!(get(&row, "Vorname"), Some(NextcloudTableCell::String(s)) if s == "B"));
}

fn user_row(id: &str, first: &str, last: &str, group: &str, fns: &[&str]) -> DecodedRow {
    DecodedRow {
        cells: vec![
            ("Funktionskennung".to_string(), NextcloudTableCell::String(id.to_string())),
            ("Vorname".to_string(), NextcloudTableCell::String(first.to_string())),
            ("Nachname".to_string(), NextcloudTableCell::String(last.to_string())),
            ("Fachschaft".to_string(), NextcloudTableCell::String(group.to_string())),
            ("Funktion".to_string(), NextcloudTableCell::List(fns.iter().map(|s| s.to_string()).collect())),
        ],
    }
}

#[test]
fn end_to_end_table_to_user() {
    let sch = scheme(vec![
        text_col(1, "Vorname"),
        sel_col(2, "Funktion", SelectionType::Multi, vec![opt(10, "Admin")]),
        text_col(3, "Funktionskennung"),
        text_col(4, "Nachname"),
        text_col(5, "Fachschaft"),
    ]);
    let rows = vec![Column {
        data: vec![
            text(1, "Jane"),
            ColumnData::List { column_id: 2, value: vec![10] },
            text(3, "jdoe"),
            text(4, "Doe"),
            text(5, "CS"),
        ],
    }];
    let state = get_user_configs(rows, sch);
    assert_eq!(state.len(), 1);
    let (id, u) = &state.entries[0];
    assert_eq!(id, "jdoe");
    assert_eq!(u.first_name.as_deref(), Some("Jane"));
    assert_eq!(u.last_name.as_deref(), Some("Doe"));
    assert_eq!(u.email.as_deref(), Some("jdoe@hhu.de"));
    assert_eq!(u.matrix_id, None);
    assert_eq!(u.roles, vec!["CS - Admin".to_string(), "CS".to_string()]);
    assert!(u.enabled);
}

#[test]
fn rows_sharing_identifier_merge_roles() {
    let rows = vec![user_row("abc123", "A", "B", "F", &["X"]), user_row("abc123", "C", "D", "G", &["Y"])];
    let state = user_configs_from_rows(&rows);
    assert_eq!(state.len(), 1);
    let (id, u) = &state.entries[0];
    assert_eq!(id, "abc123");
    assert_eq!(u.first_name.as_deref(), Some("A"));
    assert_eq!(u.roles, vec!["F - X".to_string(), "F".to_string(), "G - Y".to_string(), "G".to_string()]);
}

#[test]
fn insert_merge_appends_roles_of_same_identifier() {
    let mut state = DesiredState::new();
    let mk = |first: &str, roles: &[&str]| benutzerverwaltung::users::UserConfig {
        first_name: Some(first.to_string()),
        last_name: None,
        email: None,
        matrix_id: None,
        roles: roles.iter().map(|s| s.to_string()).collect(),
        enabled: true,
    };
    state.insert_merge("abc123".to_string(), mk("First", &["X"]));
    state.insert_merge("other".to_string(), mk("Other", &["Z"]));
    state.insert_merge("abc123".to_string(), mk("Second", &["Y"]));
    assert_eq!(state.len(), 2);
    assert_eq!(state.entries[0].0, "abc123");
    assert_eq!(state.entries[0].1.first_name.as_deref(), Some("First"));
    assert_eq!(state.entries[0].1.roles, vec!["X".to_string(), "Y".to_string()]);
    assert_eq!(state.entries[1].1.roles, vec!["Z".to_string()]);
}

#[test]
fn rows_missing_fields_are_dropped() {
    let mut incomplete = user_row("x1", "A", "B", "F", &["X"]);
    incomplete.cells.retain(|c| c.0 != "Nachname");
    assert!(user_from_row(&incomplete).is_none());
    let mut wrong_kind = user_row("x2", "A", "B", "F", &["X"]);
    wrong_kind.cells[4].1 = NextcloudTableCell::String("X".to_string());
    assert!(user_from_row(&wrong_kind).is_none());
    let mut no_group = user_row("x3", "A", "B", "F", &["X"]);
    no_group.cells.retain(|c| c.0 != "Fachschaft");
    assert!(user_from_row(&no_group).is_none());
    let state = user_configs_from_rows(&vec![incomplete, wrong_kind, no_group, user_row("ok", "A", "B", "F", &[])]);
    assert_eq!(state.len(), 1);
    assert_eq!(state.entries[0].1.roles, vec!["F".to_string()]);
}

#[test]
fn default_flags() {
    assert!(true_bool());
    assert!(!false_bool());
    assert_eq!(SelectionType::default(), SelectionType::Single);
}
