use scene_scheduler::calendar::{Date, Time};
use scene_scheduler::structures::{Scenes, ScheduleEntry};

fn entry(scenes: &[&str], room: Option<&str>, note: Option<&str>, stop: Option<Time>) -> ScheduleEntry {
    ScheduleEntry::new(
        Date { year: 2022, month: 1, day: 1 },
        (Time { hour: 10, minute: 0, second: 0 }, stop),
        Scenes::Normal(scenes.iter().map(|s| s.to_string()).collect()),
        room.map(|r| r.to_string()),
        note.map(|n| n.to_string()),
    )
}

fn noon() -> Option<Time> {
    Some(Time { hour: 12, minute: 0, second: 0 })
}

#[test]
fn identity_ignores_scene_order() {
    let a = entry(&["B", "A"], Some("R1"), None, noon());
    let b = entry(&["A", "B"], Some("R1"), None, noon());
    assert_eq!(a.uuid, b.uuid);
}

#[test]
fn identity_follows_the_note() {
    let a = entry(&["A"], None, Some("mit Kostüm"), None);
    let b = entry(&["A"], None, Some("ohne Kostüm"), None);
    let c = entry(&["A"], None, None, None);
    assert_ne!(a.uuid, b.uuid);
    assert_ne!(a.uuid, c.uuid);
}

#[test]
fn identity_is_the_digest_of_the_fields() {
    let a = entry(&["B", "A"], Some("R1"), None, noon());
    assert_eq!(a.uuid, [163, 183, 41, 203, 22, 230, 233, 3, 131, 210, 194, 184, 84, 150, 118, 193]);
    let b = entry(&[], None, None, None);
    assert_eq!(b.uuid, [135, 196, 168, 91, 208, 17, 247, 186, 119, 11, 47, 161, 139, 181, 30, 127]);
}

#[test]
fn start_stop_date_time_pairs_the_date() {
    let a = entry(&["A"], None, None, noon());
    let (start, stop) = a.start_stop_date_time();
    assert_eq!(start, (a.date, a.start_stop_time.0));
    assert_eq!(stop, Some((a.date, noon().unwrap())));
}

#[test]
fn identity_tells_absent_from_the_word_none() {
    let absent = entry(&["A"], None, None, None);
    let word_note = entry(&["A"], None, Some("None"), None);
    let word_room = entry(&["A"], Some("None"), None, None);
    assert_ne!(absent.uuid, word_note.uuid);
    assert_ne!(absent.uuid, word_room.uuid);
}

#[test]
fn identity_keeps_fields_apart() {
    assert_ne!(entry(&["AB"], None, None, None).uuid, entry(&["A", "B"], None, None, None).uuid);
    assert_ne!(
        entry(&["A"], Some("AB"), Some("C"), None).uuid,
        entry(&["A"], Some("A"), Some("BC"), None).uuid
    );
    let special = ScheduleEntry::new(
        Date { year: 2022, month: 1, day: 1 },
        (Time { hour: 10, minute: 0, second: 0 }, None),
        Scenes::Special("A".to_string()),
        None,
        None,
    );
    assert_ne!(special.uuid, entry(&["A"], None, None, None).uuid);
}

#[test]
fn identity_follows_date_time_and_room() {
    let base = entry(&["A"], Some("R1"), None, noon());
    let later_stop = entry(&["A"], Some("R1"), None, Some(Time { hour: 12, minute: 0, second: 1 }));
    let other_room = entry(&["A"], Some("R2"), None, noon());
    let other_day = ScheduleEntry::new(
        Date { year: 2022, month: 1, day: 2 },
        (Time { hour: 10, minute: 0, second: 0 }, noon()),
        Scenes::Normal(vec!["A".to_string()]),
        Some("R1".to_string()),
        None,
    );
    assert_ne!(base.uuid, later_stop.uuid);
    assert_ne!(base.uuid, other_room.uuid);
    assert_ne!(base.uuid, other_day.uuid);
}
