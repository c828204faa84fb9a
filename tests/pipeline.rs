use scene_scheduler::cell::Cell;
use scene_scheduler::config::{Config, GuiConfig, ThemeType};
use scene_scheduler::gui::{Gui, GuiAction, Message};
use scene_scheduler::scheduler::Scheduler;
use scene_scheduler::structures::SceneSchedulerError;

fn t(s: &str) -> Cell {
    Cell::text(s)
}

fn e() -> Cell {
    Cell::empty()
}

fn scheduler() -> Scheduler {
    let mut config = Config::default();
    config.excel_file_path = "probe.xlsx".to_string();
    Scheduler { config }
}

fn schedule(room: Option<&str>) -> Vec<Vec<Cell>> {
    let room_cell = match room {
        Some(r) => t(r),
        None => e(),
    };
    vec![
        vec![t("Probeplan"), t("Aula"), e(), e(), e()],
        vec![t("Datum"), t("Zeit"), t("Szenen"), t("Raum"), t("Bemerkung")],
        vec![t("Sa 01.10.22"), t("10:00-13:00"), t("1, 2"), room_cell, t("Textprobe")],
    ]
}

fn cast() -> Vec<Vec<Cell>> {
    vec![
        vec![t("Rolle"), t("Wer"), t("1"), t("2")],
        vec![t("Hexe"), t("Anna"), t("x"), t("x")],
    ]
}

#[test]
fn end_to_end_uses_the_default_location() {
    let calendars = scheduler().process(&schedule(None), "Plan", cast(), "Besetzung").unwrap();
    assert_eq!(calendars.len(), 1);
    assert_eq!(calendars[0].person, "Anna");
    assert_eq!(calendars[0].events.len(), 1);
    let event = &calendars[0].events[0];
    assert_eq!(event.location, "Aula");
    assert!(event.description.contains("Hexe"));
    assert!(event.description.contains("1, 2"));
    assert_eq!(event.description, "Rolle: Hexe\nSzenen: 1, 2\nAnmerkung: Textprobe\n");
    assert_eq!((event.start.hour, event.stop.unwrap().hour), (10, 13));
}

#[test]
fn end_to_end_prefers_the_room() {
    let calendars = scheduler().process(&schedule(Some(" Saal ")), "Plan", cast(), "Besetzung").unwrap();
    assert_eq!(calendars.len(), 1);
    assert_eq!(calendars[0].events.len(), 1);
    assert_eq!(calendars[0].events[0].location, "Saal");
}

#[test]
fn unconditional_occasion_describes_all_scenes() {
    let mut grid = schedule(None);
    grid[2][2] = e();
    grid[2][4] = e();
    let calendars = scheduler().process(&grid, "Plan", cast(), "Besetzung").unwrap();
    assert_eq!(calendars.len(), 0);
    let mut grid = schedule(None);
    grid.push(vec![t("02.10.22"), t("18:00"), t("Generalprobe"), e(), e()]);
    let calendars = scheduler().process(&grid, "Plan", cast(), "Besetzung").unwrap();
    assert_eq!(calendars[0].events.len(), 2);
    assert_eq!(calendars[0].events[1].description, "Generalprobe\n");
}

#[test]
fn malformed_row_stops_the_run() {
    let mut grid = schedule(None);
    grid.push(vec![t("02.10.22"), t("18:00"), e(), e()]);
    match scheduler().process(&grid, "Plan", cast(), "Besetzung") {
        Err(SceneSchedulerError::StructuralError { row, file, sheet, .. }) => {
            assert_eq!(row, 4);
            assert_eq!(file, "probe.xlsx");
            assert_eq!(sheet, "Plan");
        }
        other => panic!("unexpected {:?}", other),
    }
}

#[test]
fn cutoff_from_the_header_applies() {
    let mut grid = schedule(None);
    grid[0][3] = t("15.10.22");
    let silent_cast = vec![
        vec![t("Rolle"), t("Wer"), t("1"), t("2")],
        vec![t("Hexe"), t("Anna"), t("s"), t("s")],
        vec![t("Rabe"), t("Ben"), t("x"), e()],
    ];
    let calendars = scheduler().process(&grid, "Plan", silent_cast, "Besetzung").unwrap();
    assert_eq!(calendars.len(), 1);
    assert_eq!(calendars[0].person, "Ben");
}

#[test]
fn default_configs() {
    let c = Config::default();
    assert_eq!((c.schedule_sheet_num, c.scene_sheet_num), (0, 1));
    assert!(c.excel_file_path.is_empty() && c.out_dir.is_empty());
    assert_eq!(GuiConfig::default().theme, ThemeType::Light);
}

#[test]
fn sheet_numbers_are_read_from_text() {
    let mut gui = Gui::new(Config::default(), GuiConfig::default());
    assert_eq!(gui.schedule_sheet_num_opt, Some(0));
    assert!(matches!(gui.update(Message::ScheduleSheetNumChanged("3".to_string())), GuiAction::Nothing));
    assert_eq!(gui.scheduler.config.schedule_sheet_num, 3);
    assert_eq!(gui.schedule_sheet_num_opt, Some(3));
    match gui.update(Message::SceneSheetNumChanged("zwei".to_string())) {
        GuiAction::RejectSceneSheetNum(v) => assert_eq!(v, "zwei"),
        other => panic!("unexpected {:?}", other),
    }
    assert_eq!(gui.scheduler.config.scene_sheet_num, 1);
    gui.update(Message::SceneSheetNumChanged(String::new()));
    assert_eq!(gui.scene_sheet_num_opt, None);
    assert_eq!(gui.scheduler.config.scene_sheet_num, 1);
}

#[test]
fn window_messages_ask_for_work() {
    let mut gui = Gui::new(Config::default(), GuiConfig::default());
    assert!(matches!(gui.update(Message::RunProgram), GuiAction::Run));
    assert!(matches!(gui.update(Message::ChooseOutDir), GuiAction::PickOutDir));
    assert!(matches!(gui.update(Message::CloseProgram), GuiAction::SaveAndClose));
    gui.update(Message::ThemeChanged(ThemeType::Dark));
    assert_eq!(gui.gui_config.theme, ThemeType::Dark);
    gui.update(Message::ExcelPathChanged("a.xlsx".to_string()));
    assert_eq!(gui.scheduler.config.excel_file_path, "a.xlsx");
}
