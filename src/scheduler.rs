//! The whole run on two sheets already read: parse, match, filter, group,
//! and describe each person's events.
use vstd::prelude::*;
use crate::cell::{grid_wf, Grid};
use crate::config::Config;
use crate::events::{events_for, events_of, CalendarView, PersonCalendar};
use crate::parsing::{
    cast_of, cast_view, entries_view, header_of, parse_mandatory_silent_play_and_place,
    parse_scene_plan_content, parse_schedule_plan_content, schedule_of,
};
use crate::sorting::{
    filter_by_silent_play, filter_cutoff, get_person_to_scene_and_schedule_entry,
    get_schedule_to_scene_entry, group_all, groups_view, lemma_matching_keeps_wf, match_all,
    pairs_view, PairView,
};
use crate::structures::{ErrorView, SceneSchedulerError};

verus! {

/// One calendar per group, with the default location for occasions that
/// name no room.
pub open spec fn calendars_of(groups: Seq<(Seq<char>, Seq<PairView>)>, location: Seq<char>) -> Seq<
    CalendarView,
> {
    groups.map_values(
        |g: (Seq<char>, Seq<PairView>)| CalendarView { person: g.0, events: events_of(g.1, location) },
    )
}

/// The calendars that the two sheets give, or the first error: the schedule
/// rows are read first, then the schedule header, then the cast sheet.
pub open spec fn plan_of(
    file: Seq<char>,
    schedule: Seq<Vec<crate::cell::Cell>>,
    schedule_sheet: Seq<char>,
    cast: Seq<Vec<crate::cell::Cell>>,
    cast_sheet: Seq<char>,
) -> Result<Seq<CalendarView>, ErrorView> {
    match schedule_of(schedule, file, schedule_sheet) {
        Err(e) => Err(e),
        Ok(occs) => match header_of(schedule, file, schedule_sheet) {
            Err(e) => Err(e),
            Ok(h) => match cast_of(cast, file, cast_sheet) {
                Err(e) => Err(e),
                Ok(cs) => {
                    let ps = match_all(occs, cs);
                    let kept = match h.0 {
                        Some(d) => filter_cutoff(ps, d),
                        None => ps,
                    };
                    Ok(calendars_of(group_all(kept), h.1))
                },
            },
        },
    }
}

/// Runs with a configuration.
#[derive(Debug)]
pub struct Scheduler {
    pub config: Config,
}

impl Scheduler {
    /// Turns the schedule sheet and the cast sheet of the configured workbook
    /// into one list of calendar events per person.
    pub fn process(
        &self,
        schedule_range: &Grid,
        schedule_sheet_name: &str,
        scene_range: Grid,
        scene_sheet_name: &str,
    ) -> (r: Result<Vec<PersonCalendar>, SceneSchedulerError>)
        requires
            grid_wf(schedule_range@),
        ensures
            match plan_of(
                self.config.excel_file_path@,
                schedule_range@,
                schedule_sheet_name@,
                scene_range@,
                scene_sheet_name@,
            ) {
                Ok(cals) => r matches Ok(v) && v@.map_values(|c: PersonCalendar| c@) == cals,
                Err(e) => r matches Err(x) && x@ == e,
            },
    {
        let file = self.config.excel_file_path.as_str();
        let ghost cast_rows = scene_range@;
        let schedule_entries = match parse_schedule_plan_content(
            schedule_range,
            file,
            schedule_sheet_name,
        ) {
            Ok(v) => v,
            Err(e) => {
                return Err(e);
            },
        };
        let (mandatory_silent_play, location) = match parse_mandatory_silent_play_and_place(
            schedule_range,
            file,
            schedule_sheet_name,
        ) {
            Ok(h) => h,
            Err(e) => {
                return Err(e);
            },
        };
        let scene_entries = match parse_scene_plan_content(scene_range, file, scene_sheet_name) {
            Ok(v) => v,
            Err(e) => {
                return Err(e);
            },
        };
        let ghost occs = entries_view(schedule_entries@);
        let ghost cs = cast_view(scene_entries@);
        assert(schedule_entries@.map_values(|e: crate::structures::ScheduleEntry| e@) == occs);
        assert(scene_entries@.map_values(|c: crate::structures::SceneEntry| c@) == cs);
        let schedule_to_scene_entries = get_schedule_to_scene_entry(&schedule_entries, &scene_entries);
        proof {
            assert forall|k: int| 0 <= k < cs.len() implies crate::structures::cast_wf(
                #[trigger] cs[k],
            ) by {
                assert(scene_entries@[k].wf());
            }
            lemma_matching_keeps_wf(occs, cs);
        }
        let filtered = match &mandatory_silent_play {
            Some(cutoff) => filter_by_silent_play(&schedule_to_scene_entries, cutoff),
            None => schedule_to_scene_entries,
        };
        let groups = get_person_to_scene_and_schedule_entry(&filtered);
        let ghost gs = groups_view(groups@);
        let mut calendars: Vec<PersonCalendar> = Vec::new();
        let mut i: usize = 0;
        while i < groups.len()
            invariant
                i <= groups@.len(),
                gs == groups_view(groups@),
                calendars@.map_values(|c: PersonCalendar| c@) =~= calendars_of(gs, location@).subrange(
                    0,
                    i as int,
                ),
            decreases groups@.len() - i,
        {
            let (person, pairs) = &groups[i];
            let ghost before = calendars@.map_values(|c: PersonCalendar| c@);
            let cal = PersonCalendar { person: person.clone(), events: events_for(pairs, location.as_str()) };
            calendars.push(cal);
            assert(gs[i as int] == (person@, pairs_view(pairs@)));
            assert(calendars@.map_values(|c: PersonCalendar| c@) =~= before.push(cal@));
            i = i + 1;
        }
        Ok(calendars)
    }
}

} // verus!
