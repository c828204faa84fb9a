//! The calendar events handed to the calendar writer: one list per person.
use vstd::prelude::*;
use vstd::string::*;
use crate::calendar::{Date, Time};
use crate::sorting::{pair_view, pairs_view, PairView, Pairing};
use crate::structures::{Scenes, ScenesView, ScheduleEntry};
use crate::text::{join_strings, join_with};

verus! {

/// One event of a person's calendar.
#[derive(Debug)]
pub struct CalendarEvent {
    /// The fingerprint of the occasion.
    pub uid: [u8; 16],
    pub date: Date,
    pub start: Time,
    /// `None` leaves the length of the event to the calendar writer.
    pub stop: Option<Time>,
    pub location: String,
    pub description: String,
}

/// The events of one person.
#[derive(Debug)]
pub struct PersonCalendar {
    pub person: String,
    pub events: Vec<CalendarEvent>,
}

pub struct EventView {
    pub uid: Seq<u8>,
    pub date: Date,
    pub start: Time,
    pub stop: Option<Time>,
    pub location: Seq<char>,
    pub description: Seq<char>,
}

pub struct CalendarView {
    pub person: Seq<char>,
    pub events: Seq<EventView>,
}

impl View for CalendarEvent {
    type V = EventView;

    open spec fn view(&self) -> EventView {
        EventView {
            uid: self.uid@,
            date: self.date,
            start: self.start,
            stop: self.stop,
            location: self.location@,
            description: self.description@,
        }
    }
}

impl View for PersonCalendar {
    type V = CalendarView;

    open spec fn view(&self) -> CalendarView {
        CalendarView {
            person: self.person@,
            events: self.events@.map_values(|e: CalendarEvent| e@),
        }
    }
}

/// The scenes line of a description.
pub open spec fn scenes_line(s: ScenesView) -> Seq<char> {
    match s {
        ScenesView::Normal(v) => if v.len() == 0 {
            "Szenen: Alle Szenen\n"@
        } else {
            "Szenen: "@ + join_with(v, ", "@) + "\n"@
        },
        ScenesView::Special(l) => l + "\n"@,
    }
}

/// The description of an event: the role if the cast entry is known, the
/// scenes, and the note if there is one, a line each.
pub open spec fn description_of(p: PairView) -> Seq<char> {
    (match p.1 {
        Some(c) => "Rolle: "@ + c.role + "\n"@,
        None => Seq::<char>::empty(),
    }) + scenes_line(p.0.scenes) + (match p.0.note {
        Some(n) => "Anmerkung: "@ + n + "\n"@,
        None => Seq::<char>::empty(),
    })
}

/// The event of a pair: the occasion's room, else the default location.
pub open spec fn event_of(p: PairView, default_location: Seq<char>) -> EventView {
    EventView {
        uid: p.0.uuid,
        date: p.0.date,
        start: p.0.start,
        stop: p.0.stop,
        location: match p.0.room {
            Some(r) => r,
            None => default_location,
        },
        description: description_of(p),
    }
}

pub open spec fn events_of(ps: Seq<PairView>, default_location: Seq<char>) -> Seq<EventView> {
    ps.map_values(|p: PairView| event_of(p, default_location))
}

fn scenes_description(scenes: &Scenes) -> (r: String)
    ensures
        r@ == scenes_line(scenes@),
{
    match scenes {
        Scenes::Normal(v) => {
            if v.len() == 0 {
                "Szenen: Alle Szenen\n".to_owned()
            } else {
                let mut line = "Szenen: ".to_owned();
                line.append(join_strings(v, ", ").as_str());
                line.append("\n");
                line
            }
        },
        Scenes::Special(l) => {
            let mut line = l.clone();
            line.append("\n");
            line
        },
    }
}

/// The event of one pair.
pub fn event_for(pair: Pairing, default_location: &str) -> (r: CalendarEvent)
    ensures
        r@ == event_of(pair_view(pair), default_location@),
{
    let (schedule_entry, scene_entry) = pair;
    let mut description = String::new();
    match scene_entry {
        Some(c) => {
            description.append("Rolle: ");
            description.append(c.role.as_str());
            description.append("\n");
        },
        None => {},
    }
    description.append(scenes_description(&schedule_entry.scenes).as_str());
    match &schedule_entry.note {
        Some(n) => {
            description.append("Anmerkung: ");
            description.append(n.as_str());
            description.append("\n");
        },
        None => {},
    }
    let location = match &schedule_entry.room {
        Some(r) => r.clone(),
        None => default_location.to_owned(),
    };
    assert(description@ =~= description_of(pair_view(pair)));
    CalendarEvent {
        uid: schedule_entry.uuid,
        date: schedule_entry.date,
        start: schedule_entry.start_stop_time.0,
        stop: schedule_entry.start_stop_time.1,
        location,
        description,
    }
}

/// The events of a person's pairs, in order.
pub fn events_for(pairs: &Vec<Pairing>, default_location: &str) -> (r: Vec<CalendarEvent>)
    ensures
        r@.map_values(|e: CalendarEvent| e@) == events_of(pairs_view(pairs@), default_location@),
{
    let mut out: Vec<CalendarEvent> = Vec::new();
    let mut i: usize = 0;
    while i < pairs.len()
        invariant
            i <= pairs@.len(),
            out@.map_values(|e: CalendarEvent| e@) =~= events_of(
                pairs_view(pairs@),
                default_location@,
            ).subrange(0, i as int),
        decreases pairs@.len() - i,
    {
        let ghost before = out@.map_values(|e: CalendarEvent| e@);
        let e = event_for(pairs[i], default_location);
        out.push(e);
        assert(pairs_view(pairs@)[i as int] == pair_view(pairs@[i as int]));
        assert(out@.map_values(|e: CalendarEvent| e@) =~= before.push(e@));
        i = i + 1;
    }
    out
}

} // verus!
