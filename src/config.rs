//! The settings of a run and of the window.
use vstd::prelude::*;
use vstd::string::*;

verus! {

/// Where the workbook is, which sheets to read, and where the calendars go.
#[derive(Debug, Clone)]
pub struct Config {
    pub excel_file_path: String,
    pub schedule_sheet_num: usize,
    pub scene_sheet_num: usize,
    pub out_dir: String,
    /// How long an event lasts whose stop time the schedule leaves open.
    pub default_event_duration_hours: u32,
}

impl Config {
    /// No paths; the schedule on the first sheet and the cast on the second;
    /// events of four hours where no stop time is known.
    pub fn default() -> (r: Self)
        ensures
            r.excel_file_path@ == Seq::<char>::empty(),
            r.schedule_sheet_num == 0,
            r.scene_sheet_num == 1,
            r.out_dir@ == Seq::<char>::empty(),
            r.default_event_duration_hours == 4,
    {
        Config {
            excel_file_path: String::new(),
            schedule_sheet_num: 0,
            scene_sheet_num: 1,
            out_dir: String::new(),
            default_event_duration_hours: 4,
        }
    }
}

/// The colour scheme of the window.
#[derive(Debug, PartialEq, Eq, Structural, Clone, Copy)]
pub enum ThemeType {
    Light,
    Dark,
}

/// The settings of the window.
#[derive(Debug, Clone, Copy)]
pub struct GuiConfig {
    pub theme: ThemeType,
}

impl GuiConfig {
    /// The light theme.
    pub fn default() -> (r: Self)
        ensures
            r.theme == ThemeType::Light,
    {
        GuiConfig { theme: ThemeType::Light }
    }
}

} // verus!
