//! The decisions of the settings window: what each user message changes,
//! and what outside work it asks for.
use vstd::prelude::*;
use crate::config::{Config, GuiConfig, ThemeType};
use crate::scheduler::Scheduler;
use vstd::string::*;

verus! {

/// A user input of the settings window.
#[derive(Debug, Clone)]
pub enum Message {
    ThemeChanged(ThemeType),
    ExcelPathChanged(String),
    ChooseExcelFile,
    OutDirChanged(String),
    ChooseOutDir,
    ScheduleSheetNumChanged(String),
    SceneSheetNumChanged(String),
    RunProgram,
    CloseProgram,
}

/// The outside work that a message asks for.
#[derive(Debug)]
pub enum GuiAction {
    Nothing,
    /// Save both configurations and end the program.
    SaveAndClose,
    /// Ask the user for the workbook.
    PickExcelFile,
    /// Ask the user for the output directory.
    PickOutDir,
    /// Read the workbook and write the calendars.
    Run,
    /// Tell the user that this schedule sheet number is not a number.
    RejectScheduleSheetNum(String),
    /// Tell the user that this cast sheet number is not a number.
    RejectSceneSheetNum(String),
}

/// The state of the settings window.
#[derive(Debug)]
pub struct Gui {
    pub scheduler: Scheduler,
    pub schedule_sheet_num_opt: Option<usize>,
    pub scene_sheet_num_opt: Option<usize>,
    pub gui_config: GuiConfig,
}

/// The number that a non-empty run of ASCII digits stands for.
pub open spec fn digits_value(d: Seq<char>) -> int
    decreases d.len(),
{
    if d.len() == 0 {
        0
    } else {
        digits_value(d.drop_last()) * 10 + (d.last() as int - 48)
    }
}

/// What `str::parse::<usize>` reads from a text: an optional `+` and then
/// one or more ASCII digits whose value fits a `usize`.
pub open spec fn parsed_usize_of(s: Seq<char>) -> Option<int> {
    let d = if s.len() > 0 && s[0] == '+' {
        s.drop_first()
    } else {
        s
    };
    if d.len() > 0 && (forall|k: int| 0 <= k < d.len() ==> '0' <= #[trigger] d[k] <= '9')
        && digits_value(d) <= usize::MAX {
        Some(digits_value(d))
    } else {
        None
    }
}

/// Relies on `str::parse::<usize>`: the number, if the text is one.
#[verifier::external_body]
fn parse_sheet_number(s: &str) -> (r: Option<usize>)
    ensures
        match parsed_usize_of(s@) {
            Some(n) => r == Some(n as usize),
            None => r is None,
        },
{
    s.parse::<usize>().ok()
}

impl Gui {
    /// The window state for the loaded configurations; the sheet number
    /// fields show the configured numbers.
    pub fn new(config: Config, gui_config: GuiConfig) -> (r: Self)
        ensures
            r.scheduler.config == config,
            r.gui_config == gui_config,
            r.schedule_sheet_num_opt == Some(config.schedule_sheet_num),
            r.scene_sheet_num_opt == Some(config.scene_sheet_num),
    {
        let schedule_sheet_num_opt = Some(config.schedule_sheet_num);
        let scene_sheet_num_opt = Some(config.scene_sheet_num);
        Gui {
            scheduler: Scheduler { config },
            schedule_sheet_num_opt,
            scene_sheet_num_opt,
            gui_config,
        }
    }

    /// Applies a message to the window state and says what outside work it
    /// asks for. An empty sheet number clears the field and keeps the
    /// configured number; one that is not a number changes nothing.
    pub fn update(&mut self, message: Message) -> (r: GuiAction)
        ensures
            match message {
                Message::ThemeChanged(t) => r is Nothing && *final(self) == (Gui {
                    gui_config: GuiConfig { theme: t },
                    ..*old(self)
                }),
                Message::ExcelPathChanged(v) => r is Nothing && *final(self) == (Gui {
                    scheduler: Scheduler {
                        config: Config { excel_file_path: v, ..old(self).scheduler.config },
                    },
                    ..*old(self)
                }),
                Message::OutDirChanged(v) => r is Nothing && *final(self) == (Gui {
                    scheduler: Scheduler { config: Config { out_dir: v, ..old(self).scheduler.config } },
                    ..*old(self)
                }),
                Message::ChooseExcelFile => r is PickExcelFile && *final(self) == *old(self),
                Message::ChooseOutDir => r is PickOutDir && *final(self) == *old(self),
                Message::RunProgram => r is Run && *final(self) == *old(self),
                Message::CloseProgram => r is SaveAndClose && *final(self) == *old(self),
                Message::ScheduleSheetNumChanged(v) => if v@.len() == 0 {
                    r is Nothing && *final(self) == (Gui { schedule_sheet_num_opt: None, ..*old(self) })
                } else {
                    match parsed_usize_of(v@) {
                        None => (r matches GuiAction::RejectScheduleSheetNum(x) && x == v)
                            && *final(self) == *old(self),
                        Some(n) => r is Nothing && *final(self) == (Gui {
                            scheduler: Scheduler {
                                config: Config {
                                    schedule_sheet_num: n as usize,
                                    ..old(self).scheduler.config
                                },
                            },
                            schedule_sheet_num_opt: Some(n as usize),
                            ..*old(self)
                        }),
                    }
                },
                Message::SceneSheetNumChanged(v) => if v@.len() == 0 {
                    r is Nothing && *final(self) == (Gui { scene_sheet_num_opt: None, ..*old(self) })
                } else {
                    match parsed_usize_of(v@) {
                        None => (r matches GuiAction::RejectSceneSheetNum(x) && x == v)
                            && *final(self) == *old(self),
                        Some(n) => r is Nothing && *final(self) == (Gui {
                            scheduler: Scheduler {
                                config: Config {
                                    scene_sheet_num: n as usize,
                                    ..old(self).scheduler.config
                                },
                            },
                            scene_sheet_num_opt: Some(n as usize),
                            ..*old(self)
                        }),
                    }
                },
            },
    {
        match message {
            Message::CloseProgram => GuiAction::SaveAndClose,
            Message::ThemeChanged(theme) => {
                self.gui_config = GuiConfig { theme };
                GuiAction::Nothing
            },
            Message::ExcelPathChanged(value) => {
                self.scheduler.config.excel_file_path = value;
                GuiAction::Nothing
            },
            Message::OutDirChanged(value) => {
                self.scheduler.config.out_dir = value;
                GuiAction::Nothing
            },
            Message::ChooseExcelFile => GuiAction::PickExcelFile,
            Message::ChooseOutDir => GuiAction::PickOutDir,
            Message::RunProgram => GuiAction::Run,
            Message::ScheduleSheetNumChanged(value) => {
                if value.as_str().unicode_len() == 0 {
                    self.schedule_sheet_num_opt = None;
                    return GuiAction::Nothing;
                }
                match parse_sheet_number(value.as_str()) {
                    None => GuiAction::RejectScheduleSheetNum(value),
                    Some(n) => {
                        self.scheduler.config.schedule_sheet_num = n;
                        self.schedule_sheet_num_opt = Some(n);
                        GuiAction::Nothing
                    },
                }
            },
            Message::SceneSheetNumChanged(value) => {
                if value.as_str().unicode_len() == 0 {
                    self.scene_sheet_num_opt = None;
                    return GuiAction::Nothing;
                }
                match parse_sheet_number(value.as_str()) {
                    None => GuiAction::RejectSceneSheetNum(value),
                    Some(n) => {
                        self.scheduler.config.scene_sheet_num = n;
                        self.scene_sheet_num_opt = Some(n);
                        GuiAction::Nothing
                    },
                }
            },
        }
    }
}

} // verus!
