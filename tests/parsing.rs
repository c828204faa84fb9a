use scene_scheduler::calendar::{Date, Time};
use scene_scheduler::cell::{Cell, CellKind};
use scene_scheduler::parsing::{
    add_corresponding_stop_time, parse_date, parse_mandatory_silent_play_and_place, parse_note,
    parse_room, parse_scene_plan_content, parse_scenes, parse_schedule_plan_content, parse_time,
};
use scene_scheduler::structures::{SceneSchedulerError, Scenes, ScheduleEntry};

fn t(s: &str) -> Cell {
    Cell::text(s)
}

fn e() -> Cell {
    Cell::empty()
}

fn header(location: &str) -> Vec<Cell> {
    vec![t("Probeplan"), t(location), e(), e(), e()]
}

fn marker() -> Vec<Cell> {
    vec![t("Datum"), t("Zeit"), t("Szenen"), t("Raum"), t("Bemerkung")]
}

fn row(d: &str, time: &str, scenes: &str) -> Vec<Cell> {
    let date_cell = if d.is_empty() { e() } else { t(d) };
    let scenes_cell = if scenes.is_empty() { e() } else { t(scenes) };
    vec![date_cell, t(time), scenes_cell, e(), e()]
}

fn hm(hour: u32, minute: u32) -> Time {
    Time { hour, minute, second: 0 }
}

#[test]
fn blank_date_carries_the_previous_date_forward() {
    let grid = vec![header("Aula"), marker(), row("01.01.22", "10:00", ""), row("", "11:00", "")];
    let entries = parse_schedule_plan_content(&grid, "plan.xlsx", "Plan").unwrap();
    assert_eq!(entries.len(), 2);
    let jan_first = Date { year: 2022, month: 1, day: 1 };
    assert_eq!(entries[0].date, jan_first);
    assert_eq!(entries[1].date, jan_first);
}

#[test]
fn open_stop_is_closed_by_the_next_start_of_the_same_date() {
    let grid = vec![
        header("Aula"),
        marker(),
        row("Mo 02.05.22", "10:00", "1"),
        row("", "12:00", "2"),
        row("Di 3.5.22", "18:00", "3"),
    ];
    let entries = parse_schedule_plan_content(&grid, "plan.xlsx", "Plan").unwrap();
    assert_eq!(entries.len(), 3);
    assert_eq!(entries[0].start_stop_time, (hm(10, 0), Some(hm(12, 0))));
    assert_eq!(entries[1].start_stop_time, (hm(12, 0), None));
    assert_eq!(entries[2].start_stop_time, (hm(18, 0), None));
    let refreshed = ScheduleEntry::new(
        entries[0].date,
        (hm(10, 0), Some(hm(12, 0))),
        Scenes::Normal(vec!["1".to_string()]),
        None,
        None,
    );
    assert_eq!(entries[0].uuid, refreshed.uuid);
}

#[test]
fn stop_times_given_are_kept() {
    let jan = Date { year: 2022, month: 1, day: 1 };
    let entries = vec![
        ScheduleEntry::new(jan, (hm(9, 0), Some(hm(9, 30))), Scenes::Normal(vec![]), None, None),
        ScheduleEntry::new(jan, (hm(10, 0), None), Scenes::Normal(vec![]), None, None),
    ];
    let out = add_corresponding_stop_time(entries);
    assert_eq!(out[0].start_stop_time, (hm(9, 0), Some(hm(9, 30))));
    assert_eq!(out[1].start_stop_time, (hm(10, 0), None));
}

#[test]
fn rows_before_the_marker_are_passed_over() {
    let grid = vec![header("Aula"), row("01.01.22", "zzz", ""), marker(), row("02.01.22", "10:00", "")];
    let entries = parse_schedule_plan_content(&grid, "plan.xlsx", "Plan").unwrap();
    assert_eq!(entries.len(), 1);
    assert_eq!(entries[0].date.day, 2);
}

#[test]
fn short_row_is_a_structural_error() {
    let grid = vec![
        header("Aula"),
        marker(),
        row("01.01.22", "10:00", ""),
        vec![t("02.01.22"), t("10:00"), e(), e()],
    ];
    match parse_schedule_plan_content(&grid, "plan.xlsx", "Plan") {
        Err(SceneSchedulerError::StructuralError { row, column, file, sheet, .. }) => {
            assert_eq!(row, 4);
            assert_eq!(column, None);
            assert_eq!(file, "plan.xlsx");
            assert_eq!(sheet, "Plan");
        }
        other => panic!("unexpected {:?}", other),
    }
}

#[test]
fn bad_time_is_a_token_error() {
    let grid = vec![header("Aula"), marker(), row("01.01.22", "zehn Uhr", "")];
    match parse_schedule_plan_content(&grid, "plan.xlsx", "Plan") {
        Err(SceneSchedulerError::TokenParseError { row, column, token, expected, .. }) => {
            assert_eq!((row, column), (3, 2));
            assert_eq!(token, "zehn Uhr");
            assert_eq!(expected, "Wrong time string format should be HH:MM, e.g. 12:00");
        }
        other => panic!("unexpected {:?}", other),
    }
}

#[test]
fn date_text_without_a_token_and_no_earlier_date_is_a_referential_error() {
    let grid = vec![header("Aula"), marker(), row("Montag", "10:00", "")];
    match parse_schedule_plan_content(&grid, "plan.xlsx", "Plan") {
        Err(SceneSchedulerError::ReferentialError { row, column, token, .. }) => {
            assert_eq!((row, column), (3, 1));
            assert_eq!(token, "Montag");
        }
        other => panic!("unexpected {:?}", other),
    }
}

#[test]
fn blank_first_date_is_a_referential_error() {
    let grid = vec![header("Aula"), marker(), row("", "10:00", "")];
    match parse_schedule_plan_content(&grid, "plan.xlsx", "Plan") {
        Err(SceneSchedulerError::ReferentialError { row, column, .. }) => {
            assert_eq!((row, column), (3, 1));
        }
        other => panic!("unexpected {:?}", other),
    }
}

#[test]
fn native_date_and_time_cells_are_used_directly() {
    let stamp = (Date { year: 2023, month: 3, day: 4 }, Time { hour: 19, minute: 30, second: 15 });
    let cell = Cell { kind: CellKind::DateTime, text: "45000.8".to_string(), stamp: Some(stamp) };
    let time_cell = Cell { kind: CellKind::DateTime, text: "0.8".to_string(), stamp: Some(stamp) };
    let grid = vec![header("Aula"), marker(), vec![cell, time_cell, e(), e(), e()]];
    let entries = parse_schedule_plan_content(&grid, "plan.xlsx", "Plan").unwrap();
    assert_eq!(entries[0].date, stamp.0);
    assert_eq!(entries[0].start_stop_time, (stamp.1, None));
}

#[test]
fn header_gives_location_and_cutoff() {
    let grid = vec![vec![t("Plan"), t("  Aula  "), e(), t("ab 1.6.22"), e()]];
    let (cutoff, room) = parse_mandatory_silent_play_and_place(&grid, "f", "s").unwrap();
    assert_eq!(cutoff, Some(Date { year: 2022, month: 6, day: 1 }));
    assert_eq!(room, "Aula");
}

#[test]
fn header_without_cutoff() {
    let grid = vec![header("Aula")];
    let (cutoff, room) = parse_mandatory_silent_play_and_place(&grid, "f", "s").unwrap();
    assert_eq!(cutoff, None);
    assert_eq!(room, "Aula");
}

#[test]
fn header_without_location_is_a_structural_error() {
    let grid = vec![vec![t("Plan"), e(), e(), e(), e()]];
    match parse_mandatory_silent_play_and_place(&grid, "f", "s") {
        Err(SceneSchedulerError::StructuralError { row, column, .. }) => {
            assert_eq!((row, column), (1, Some(2)));
        }
        other => panic!("unexpected {:?}", other),
    }
    match parse_mandatory_silent_play_and_place(&vec![], "f", "s") {
        Err(SceneSchedulerError::StructuralError { row, column, .. }) => {
            assert_eq!((row, column), (1, None));
        }
        other => panic!("unexpected {:?}", other),
    }
}

#[test]
fn header_with_a_bad_cutoff_is_a_token_error() {
    let grid = vec![vec![t("Plan"), t("Aula"), e(), t("bald"), e()]];
    match parse_mandatory_silent_play_and_place(&grid, "f", "s") {
        Err(SceneSchedulerError::TokenParseError { row, column, token, .. }) => {
            assert_eq!((row, column), (1, 4));
            assert_eq!(token, "bald");
        }
        other => panic!("unexpected {:?}", other),
    }
}

#[test]
fn scenes_text_grammar() {
    match parse_scenes(" 1/2a , 3 ") {
        Scenes::Normal(v) => assert_eq!(v, vec!["1", "2a", "3"]),
        other => panic!("unexpected {:?}", other),
    }
    match parse_scenes("  Durchlauf ") {
        Scenes::Special(l) => assert_eq!(l, "Durchlauf"),
        other => panic!("unexpected {:?}", other),
    }
    match parse_scenes("   ") {
        Scenes::Normal(v) => assert!(v.is_empty()),
        other => panic!("unexpected {:?}", other),
    }
}

#[test]
fn room_and_note_are_trimmed() {
    assert_eq!(parse_room("  Saal 2 "), "Saal 2");
    assert_eq!(parse_note("\tmit Kostüm\n"), "mit Kostüm");
}

#[test]
fn date_token_is_found_in_free_text() {
    assert_eq!(parse_date("Mo, 7.11.22 abends"), Some(Date { year: 2022, month: 11, day: 7 }));
    assert_eq!(parse_date("31.02.22"), None);
    assert_eq!(parse_date("kein Datum"), None);
}

#[test]
fn time_grammar() {
    assert_eq!(parse_time("10:00"), Some((hm(10, 0), None)));
    assert_eq!(parse_time("10:00 - 12:30"), Some((hm(10, 0), Some(hm(12, 30)))));
    assert_eq!(parse_time("09:15–11:00"), Some((hm(9, 15), Some(hm(11, 0)))));
    assert_eq!(parse_time("10:00-11:00-12:00"), None);
    assert_eq!(parse_time("12:00-10:00"), None);
    assert_eq!(parse_time("10:00-10:00"), Some((hm(10, 0), Some(hm(10, 0)))));
    assert_eq!(parse_time("abends"), None);
}

fn cast_grid() -> Vec<Vec<Cell>> {
    let number = Cell { kind: CellKind::Float, text: "2".to_string(), stamp: None };
    vec![
        vec![t("Rolle"), t("Wer"), t("1"), number, t("3")],
        vec![t("Hexe"), t("Anna"), t("x"), t("s"), e()],
        vec![t("Rabe"), t("Ben"), e(), t("x"), t("s")],
        vec![e(), e(), e(), e(), e()],
        vec![t("Zwerg"), t("Cem"), t("x"), e(), e()],
    ]
}

#[test]
fn cast_sheet_reads_roles_and_marks_until_a_blank_row() {
    let entries = parse_scene_plan_content(cast_grid(), "f", "Besetzung").unwrap();
    assert_eq!(entries.len(), 2);
    assert_eq!(entries[0].role, "Hexe");
    assert_eq!(entries[0].who, "Anna");
    assert_eq!(entries[0].scenes, vec!["1", "2"]);
    assert_eq!(entries[0].silent_play, vec![false, true]);
    assert_eq!(entries[1].scenes, vec!["2", "3"]);
    assert_eq!(entries[1].silent_play, vec![false, true]);
}

#[test]
fn cast_header_with_a_bad_cell_is_a_structural_error() {
    let mut grid = cast_grid();
    grid[0][3] = Cell { kind: CellKind::Bool, text: "true".to_string(), stamp: None };
    match parse_scene_plan_content(grid, "f", "Besetzung") {
        Err(SceneSchedulerError::StructuralError { row, column, token, .. }) => {
            assert_eq!((row, column), (1, Some(4)));
            assert_eq!(token, "true");
        }
        other => panic!("unexpected {:?}", other),
    }
}

#[test]
fn cast_row_without_a_person_is_a_structural_error() {
    let mut grid = cast_grid();
    grid[2][1] = e();
    match parse_scene_plan_content(grid, "f", "Besetzung") {
        Err(SceneSchedulerError::StructuralError { row, column, .. }) => {
            assert_eq!((row, column), (3, Some(2)));
        }
        other => panic!("unexpected {:?}", other),
    }
}

#[test]
fn date_text_without_a_token_carries_the_date_forward() {
    let grid = vec![header("Aula"), marker(), row("01.01.22", "10:00", ""), row("abends", "19:00", "")];
    let entries = parse_schedule_plan_content(&grid, "plan.xlsx", "Plan").unwrap();
    assert_eq!(entries[1].date, Date { year: 2022, month: 1, day: 1 });
}

#[test]
fn impossible_date_is_a_token_error_even_after_a_date() {
    let grid = vec![header("Aula"), marker(), row("01.01.22", "10:00", ""), row("31.02.22", "19:00", "")];
    match parse_schedule_plan_content(&grid, "plan.xlsx", "Plan") {
        Err(SceneSchedulerError::TokenParseError { row, column, token, .. }) => {
            assert_eq!((row, column), (4, 1));
            assert_eq!(token, "31.02.22");
        }
        other => panic!("unexpected {:?}", other),
    }
}

#[test]
fn reversed_time_range_is_a_token_error() {
    let grid = vec![header("Aula"), marker(), row("01.01.22", "12:00-10:00", "")];
    match parse_schedule_plan_content(&grid, "plan.xlsx", "Plan") {
        Err(SceneSchedulerError::TokenParseError { row, column, .. }) => {
            assert_eq!((row, column), (3, 2));
        }
        other => panic!("unexpected {:?}", other),
    }
}

#[test]
fn earlier_next_start_leaves_the_stop_open() {
    let grid = vec![header("Aula"), marker(), row("01.01.22", "12:00", ""), row("", "10:00", "")];
    let entries = parse_schedule_plan_content(&grid, "plan.xlsx", "Plan").unwrap();
    assert_eq!(entries[0].start_stop_time, (hm(12, 0), None));
    assert_eq!(entries[1].start_stop_time, (hm(10, 0), None));
}

#[test]
fn short_rows_before_the_marker_are_passed_over() {
    let grid = vec![header("Aula"), vec![t("Hinweis")], vec![], marker(), row("01.01.22", "10:00", "")];
    let entries = parse_schedule_plan_content(&grid, "plan.xlsx", "Plan").unwrap();
    assert_eq!(entries.len(), 1);
}

#[test]
fn cast_row_with_a_numeric_role_names_the_cell() {
    let mut grid = cast_grid();
    grid[1][0] = Cell { kind: CellKind::Float, text: "7".to_string(), stamp: None };
    match parse_scene_plan_content(grid, "f", "Besetzung") {
        Err(SceneSchedulerError::StructuralError { row, column, token, .. }) => {
            assert_eq!((row, column), (2, Some(1)));
            assert_eq!(token, "7");
        }
        other => panic!("unexpected {:?}", other),
    }
}
