use scene_scheduler::calendar::{Date, Time};
use scene_scheduler::sorting::{
    filter_by_silent_play, get_person_to_scene_and_schedule_entry, get_schedule_to_scene_entry,
};
use scene_scheduler::structures::{SceneEntry, Scenes, ScheduleEntry};

fn date(year: i32, month: u32, day: u32) -> Date {
    Date { year, month, day }
}

fn time(hour: u32, minute: u32) -> Time {
    Time { hour, minute, second: 0 }
}

fn mandatory_silent_play() -> Date {
    date(2022, 6, 1)
}

fn test_data() -> (Vec<ScheduleEntry>, Vec<SceneEntry>) {
    let schedule_entries: Vec<ScheduleEntry> = vec![
        ScheduleEntry::new(
            date(2022, 5, 1),
            (time(10, 0), None),
            Scenes::Normal(vec!["Scene 3".to_string()]),
            Some("Room 1".to_string()),
            None,
        ),
        ScheduleEntry::new(
            date(2022, 7, 1),
            (time(10, 0), None),
            Scenes::Normal(vec!["Scene 4".to_string(), "Scene 5".to_string()]),
            None,
            None,
        ),
        ScheduleEntry::new(
            date(2022, 8, 1),
            (time(10, 0), None),
            Scenes::Normal(vec![]),
            None,
            None,
        ),
        ScheduleEntry::new(
            date(2022, 4, 1),
            (time(10, 0), None),
            Scenes::Normal(vec![]),
            None,
            None,
        ),
    ];
    let scene_entries = vec![
        SceneEntry {
            role: "Role 1".to_string(),
            who: "Person 1".to_string(),
            scenes: vec!["Scene 1".to_string(), "Scene 2".to_string(), "Scene 5".to_string()],
            silent_play: vec![false, true, false],
        },
        SceneEntry {
            role: "Role 2".to_string(),
            who: "Person 2".to_string(),
            scenes: vec!["Scene 3".to_string()],
            silent_play: vec![true],
        },
        SceneEntry {
            role: "Role 3".to_string(),
            who: "Person 2".to_string(),
            scenes: vec!["Scene 3".to_string(), "Scene 5".to_string()],
            silent_play: vec![true, true],
        },
        SceneEntry {
            role: "Role 4".to_string(),
            who: "Person 3".to_string(),
            scenes: vec!["Scene 4".to_string()],
            silent_play: vec![true],
        },
    ];
    (schedule_entries, scene_entries)
}

#[test]
fn test_get_schedule_to_scene_entry() {
    let (schedule_entries, scene_entries) = test_data();
    let schedule_to_scene_entries = get_schedule_to_scene_entry(&schedule_entries, &scene_entries);
    assert_eq!(schedule_to_scene_entries.len(), 7, "Should have 7 entries.",);
    for (schedule_entry, scene_entry) in schedule_to_scene_entries {
        if let Some(scene_entry) = scene_entry {
            match &schedule_entry.scenes {
                Scenes::Special(_) => {}
                Scenes::Normal(scenes) => {
                    assert!(
                        scenes.iter().any(|scene| scene_entry.scenes.contains(scene)),
                        "Some scene of schedule entry {:?} should be in scene entry {:?}",
                        schedule_entry.scenes,
                        scene_entry.scenes,
                    );
                }
            }
        }
    }
}

#[test]
fn test_get_person_to_scene_and_schedule_entry() {
    let (schedule_entries, scene_entries) = test_data();
    let schedule_to_scene_entries = get_schedule_to_scene_entry(&schedule_entries, &scene_entries);
    let person_to_scene_and_schedule_entry =
        get_person_to_scene_and_schedule_entry(&schedule_to_scene_entries);
    assert_eq!(
        person_to_scene_and_schedule_entry.len(),
        3,
        "Should have 3 entries for each person",
    );
    for (person, schedule_entries_for_person) in person_to_scene_and_schedule_entry {
        for (schedule_entry, scene_entry) in schedule_entries_for_person {
            if let Some(scene_entry) = scene_entry {
                assert_eq!(
                    person, scene_entry.who,
                    "Person {:?} should be the same as the person in the scene entry {:?}",
                    person, scene_entry
                );
                if let Scenes::Normal(ref scenes) = schedule_entry.scenes {
                    assert!(
                        scenes.iter().any(|scene| scene_entry.scenes.contains(scene)),
                        "Some scene of schedule entry {:?} should be in scene entry {:?}",
                        schedule_entry.scenes,
                        scene_entry.scenes,
                    );
                }
            }
        }
    }
}

#[test]
fn test_filter_by_silent_play() {
    let (schedule_entries, scene_entries) = test_data();
    let schedule_to_scene_entries = get_schedule_to_scene_entry(&schedule_entries, &scene_entries);
    let mandatory_silent_play = mandatory_silent_play();
    let filtered_schedule_to_scene_entries =
        filter_by_silent_play(&schedule_to_scene_entries, &mandatory_silent_play);
    assert_eq!(
        filtered_schedule_to_scene_entries.len(),
        5,
        "Should have 5 entries for each scene",
    );
}

#[test]
fn unconditional_pairs_reach_every_person() {
    let (schedule_entries, scene_entries) = test_data();
    let pairs = get_schedule_to_scene_entry(&schedule_entries, &scene_entries);
    let groups = get_person_to_scene_and_schedule_entry(&pairs);
    let persons: Vec<&str> = groups.iter().map(|g| g.0.as_str()).collect();
    assert_eq!(persons, vec!["Person 2", "Person 1", "Person 3"]);
    for (_, pairs_of_person) in &groups {
        let unconditional = pairs_of_person.iter().filter(|p| p.1.is_none()).count();
        assert_eq!(unconditional, 2);
    }
    let person_2 = &groups[0].1;
    assert_eq!(person_2.len(), 5);
}

fn cast(role: &str, who: &str, scenes: &[&str], silent: &[bool]) -> SceneEntry {
    SceneEntry {
        role: role.to_string(),
        who: who.to_string(),
        scenes: scenes.iter().map(|s| s.to_string()).collect(),
        silent_play: silent.to_vec(),
    }
}

fn occasion_on(d: Date, scenes: Scenes) -> ScheduleEntry {
    ScheduleEntry::new(d, (time(10, 0), None), scenes, None, None)
}

#[test]
fn matching_fans_out_by_shared_scene() {
    let occasions = vec![
        occasion_on(date(2022, 1, 1), Scenes::Normal(vec!["3".to_string(), "5".to_string()])),
        occasion_on(date(2022, 1, 2), Scenes::Normal(vec!["9".to_string()])),
    ];
    let entries = vec![
        cast("A", "Ann", &["3"], &[false]),
        cast("B", "Ben", &["5", "7"], &[false, false]),
        cast("C", "Cid", &["9"], &[false]),
    ];
    let pairs = get_schedule_to_scene_entry(&occasions, &entries);
    let named: Vec<(u32, &str)> =
        pairs.iter().map(|p| (p.0.date.day, p.1.unwrap().who.as_str())).collect();
    assert_eq!(named, vec![(1, "Ann"), (1, "Ben"), (2, "Cid")]);
}

#[test]
fn cutoff_drops_silent_only_pairs_before_the_cutoff() {
    let cutoff = date(2022, 6, 1);
    let occasions = vec![
        occasion_on(date(2022, 5, 31), Scenes::Normal(vec!["3".to_string()])),
        occasion_on(date(2022, 6, 1), Scenes::Normal(vec!["3".to_string()])),
        occasion_on(date(2022, 5, 1), Scenes::Special("Hauptprobe".to_string())),
    ];
    let entries = vec![cast("A", "Ann", &["3"], &[true])];
    let pairs = get_schedule_to_scene_entry(&occasions, &entries);
    assert_eq!(pairs.len(), 3);
    let kept = filter_by_silent_play(&pairs, &cutoff);
    let days: Vec<(u32, u32)> = kept.iter().map(|p| (p.0.date.month, p.0.date.day)).collect();
    assert_eq!(days, vec![(6, 1), (5, 1)]);
}

#[test]
fn cutoff_keeps_a_pair_with_a_spoken_scene() {
    let cutoff = date(2022, 6, 1);
    let occasions =
        vec![occasion_on(date(2022, 5, 1), Scenes::Normal(vec!["3".to_string(), "4".to_string()]))];
    let entries = vec![cast("A", "Ann", &["3", "4"], &[true, false])];
    let pairs = get_schedule_to_scene_entry(&occasions, &entries);
    assert_eq!(filter_by_silent_play(&pairs, &cutoff).len(), 1);
}

#[test]
fn silent_play_lookup_takes_the_first_match() {
    let entry = cast("A", "Ann", &["3", "4", "3"], &[true, false, false]);
    assert_eq!(entry.is_scene_silent_play(&"3".to_string()), Some(true));
    assert_eq!(entry.is_scene_silent_play(&"4".to_string()), Some(false));
    assert_eq!(entry.is_scene_silent_play(&"5".to_string()), None);
}
