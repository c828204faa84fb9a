//! The domain model: scene lists, occasions of the schedule with their
//! identity fingerprint, cast entries, and the error taxonomy.
use vstd::prelude::*;
use vstd::string::*;
use crate::calendar::{
    clock_text, date_text, format_clock, format_date, lemma_clock_text_injective,
    lemma_date_text_injective, time_before, Date, Time,
};
use crate::numerals::{
    field, lemma_field_split, lemma_list_field_split, lemma_opt_field_split, list_field, opt_field,
    push_field, push_list_field, push_opt_field,
};
use crate::order::{
    lemma_sorted_texts_ignore_order, lemma_text_order_total, sort_texts, sorted_texts, text_order,
};
use crate::text::views;

verus! {

pub type Person = String;

pub type Scene = String;

pub type Room = String;

pub type Note = String;

pub type Role = String;

/// What the scenes cell of a schedule row designates.
#[derive(Debug)]
pub enum Scenes {
    /// A list of scene names; the empty list stands for all scenes.
    Normal(Vec<Scene>),
    /// A label such as a full run-through, which covers every scene.
    Special(String),
}

pub enum ScenesView {
    Normal(Seq<Seq<char>>),
    Special(Seq<char>),
}

impl View for Scenes {
    type V = ScenesView;

    open spec fn view(&self) -> ScenesView {
        match self {
            Scenes::Normal(v) => ScenesView::Normal(views(v@)),
            Scenes::Special(s) => ScenesView::Special(s@),
        }
    }
}

/// An occasion that concerns every person: a label, or no scene named.
pub open spec fn is_unconditional(s: ScenesView) -> bool {
    match s {
        ScenesView::Normal(v) => v.len() == 0,
        ScenesView::Special(_) => true,
    }
}

pub open spec fn opt_view(o: Option<String>) -> Option<Seq<char>> {
    match o {
        Some(t) => Some(t@),
        None => None,
    }
}

/// The stop time of an occasion, if any, as it enters the fingerprint.
pub open spec fn stop_field(stop: Option<Time>) -> Seq<char> {
    opt_field(
        match stop {
            Some(t) => Some(clock_text(t)),
            None => None,
        },
    )
}

/// The scenes of an occasion as they enter the fingerprint: a tag for the
/// kind, then the names in lexicographic order, or the label.
pub open spec fn scenes_field(s: ScenesView) -> Seq<char> {
    match s {
        ScenesView::Normal(v) => seq!['N'] + list_field(sorted_texts(v)),
        ScenesView::Special(l) => seq!['S'] + field(l),
    }
}

/// The text that an occasion's fingerprint is taken of: the date, the start,
/// the stop, the scenes, the room and the note, each as a self-delimiting
/// field.
pub open spec fn identity_text(
    date: Date,
    start: Time,
    stop: Option<Time>,
    scenes: ScenesView,
    room: Option<Seq<char>>,
    note: Option<Seq<char>>,
) -> Seq<char> {
    field(date_text(date)) + (field(clock_text(start)) + (stop_field(stop) + (scenes_field(scenes)
        + (opt_field(room) + opt_field(note)))))
}

/// Two scene designations that list the same names, in any order, or carry
/// the same label.
pub open spec fn same_scenes(a: ScenesView, b: ScenesView) -> bool {
    match (a, b) {
        (ScenesView::Normal(x), ScenesView::Normal(y)) => x.to_multiset() == y.to_multiset(),
        (ScenesView::Special(x), ScenesView::Special(y)) => x == y,
        _ => false,
    }
}

/// The MD5 digest of a text's UTF-8 bytes.
pub uninterp spec fn md5_of(text: Seq<char>) -> Seq<u8>;

/// Relies on `md5::compute`: the digest of the text's bytes.
#[verifier::external_body]
fn md5_digest(text: &str) -> (r: [u8; 16])
    ensures
        r@ == md5_of(text@),
{
    md5::compute(text.as_bytes()).0
}

/// An occasion as a value.
pub struct OccasionView {
    pub date: Date,
    pub start: Time,
    pub stop: Option<Time>,
    pub scenes: ScenesView,
    pub room: Option<Seq<char>>,
    pub note: Option<Seq<char>>,
    pub uuid: Seq<u8>,
}

/// The occasion with the given fields and the fingerprint they determine.
pub open spec fn occasion(
    date: Date,
    start: Time,
    stop: Option<Time>,
    scenes: ScenesView,
    room: Option<Seq<char>>,
    note: Option<Seq<char>>,
) -> OccasionView {
    OccasionView {
        date,
        start,
        stop,
        scenes,
        room,
        note,
        uuid: md5_of(identity_text(date, start, stop, scenes, room, note)),
    }
}

/// One time slot of the schedule.
#[derive(Debug)]
pub struct ScheduleEntry {
    pub date: Date,
    pub start_stop_time: (Time, Option<Time>),
    pub scenes: Scenes,
    pub room: Option<Room>,
    pub note: Option<Note>,
    pub uuid: [u8; 16],
}

impl View for ScheduleEntry {
    type V = OccasionView;

    open spec fn view(&self) -> OccasionView {
        OccasionView {
            date: self.date,
            start: self.start_stop_time.0,
            stop: self.start_stop_time.1,
            scenes: self.scenes@,
            room: opt_view(self.room),
            note: opt_view(self.note),
            uuid: self.uuid@,
        }
    }
}

/// Valid times, and no stop before its start.
pub open spec fn times_wf(t: (Time, Option<Time>)) -> bool {
    t.0.wf() && (t.1 matches Some(s) ==> s.wf() && !time_before(s, t.0))
}

fn push_stop_field(out: &mut String, stop: &Option<Time>)
    requires
        stop matches Some(t) ==> t.wf(),
    ensures
        final(out)@ == old(out)@ + stop_field(*stop),
{
    proof {
        reveal_strlit("+");
        reveal_strlit("-");
    }
    match stop {
        Some(t) => {
            out.append("+");
            push_field(out, format_clock(t).as_str());
        },
        None => {
            out.append("-");
        },
    }
    assert(final(out)@ =~= old(out)@ + stop_field(*stop));
}

fn push_scenes_field(out: &mut String, scenes: &Scenes)
    ensures
        final(out)@ == old(out)@ + scenes_field(scenes@),
{
    proof {
        reveal_strlit("N");
        reveal_strlit("S");
    }
    match scenes {
        Scenes::Normal(v) => {
            out.append("N");
            let sorted = sort_texts(v);
            push_list_field(out, &sorted);
        },
        Scenes::Special(l) => {
            out.append("S");
            push_field(out, l.as_str());
        },
    }
    assert(final(out)@ =~= old(out)@ + scenes_field(scenes@));
}

/// A valid occasion whose fingerprint matches its fields.
pub open spec fn occasion_wf(o: OccasionView) -> bool {
    &&& o.date.wf()
    &&& o.start.wf()
    &&& (o.stop matches Some(s) ==> s.wf() && !time_before(s, o.start))
    &&& o == occasion(o.date, o.start, o.stop, o.scenes, o.room, o.note)
}

impl ScheduleEntry {
    pub open spec fn wf(&self) -> bool {
        occasion_wf(self@)
    }

    pub fn new(
        date: Date,
        start_stop_time: (Time, Option<Time>),
        scenes: Scenes,
        room: Option<Room>,
        note: Option<Note>,
    ) -> (r: Self)
        requires
            date.wf(),
            times_wf(start_stop_time),
        ensures
            r@ == occasion(
                date,
                start_stop_time.0,
                start_stop_time.1,
                scenes@,
                opt_view(room),
                opt_view(note),
            ),
            r.wf(),
    {
        let uuid = Self::get_uuid(&scenes, &date, &start_stop_time, &room, &note);
        ScheduleEntry { date, start_stop_time, scenes, room, note, uuid }
    }

    /// The start as (date, time), and the stop if there is one.
    pub fn start_stop_date_time(&self) -> (r: ((Date, Time), Option<(Date, Time)>))
        ensures
            r.0 == (self.date, self.start_stop_time.0),
            r.1 == match self.start_stop_time.1 {
                Some(t) => Some((self.date, t)),
                None => None,
            },
    {
        let stop = match self.start_stop_time.1 {
            Some(t) => Some((self.date, t)),
            None => None,
        };
        ((self.date, self.start_stop_time.0), stop)
    }

    #[verifier::rlimit(60)]
    fn get_uuid(
        scenes: &Scenes,
        date: &Date,
        start_stop_time: &(Time, Option<Time>),
        room: &Option<String>,
        note: &Option<String>,
    ) -> (r: [u8; 16])
        requires
            date.wf(),
            times_wf(*start_stop_time),
        ensures
            r@ == md5_of(
                identity_text(
                    *date,
                    start_stop_time.0,
                    start_stop_time.1,
                    scenes@,
                    opt_view(*room),
                    opt_view(*note),
                ),
            ),
    {
        let mut text = String::new();
        let date_part = format_date(date);
        let start_part = format_clock(&start_stop_time.0);
        let ghost fd = field(date_part@);
        let ghost fc = field(start_part@);
        let ghost fs = stop_field(start_stop_time.1);
        let ghost fsc = scenes_field(scenes@);
        let ghost fr = opt_field(opt_view(*room));
        let ghost fnote = opt_field(opt_view(*note));
        push_field(&mut text, date_part.as_str());
        let ghost t1 = text@;
        push_field(&mut text, start_part.as_str());
        push_stop_field(&mut text, &start_stop_time.1);
        push_scenes_field(&mut text, scenes);
        push_opt_field(&mut text, room);
        push_opt_field(&mut text, note);
        proof {
            assert(t1 =~= fd);
            assert(text@ == fd + fc + fs + fsc + fr + fnote);
            assert(fd + fc + fs + fsc + fr + fnote =~= fd + (fc + (fs + (fsc + (fr + fnote)))));
        }
        md5_digest(text.as_str())
    }
}

/// The fingerprint of an occasion does not depend on the order in which its
/// scenes are listed.
pub proof fn lemma_identity_ignores_scene_order(
    date: Date,
    start: Time,
    stop: Option<Time>,
    a: Seq<Seq<char>>,
    b: Seq<Seq<char>>,
    room: Option<Seq<char>>,
    note: Option<Seq<char>>,
)
    requires
        a.to_multiset() == b.to_multiset(),
    ensures
        occasion(date, start, stop, ScenesView::Normal(a), room, note).uuid == occasion(
            date,
            start,
            stop,
            ScenesView::Normal(b),
            room,
            note,
        ).uuid,
{
    lemma_sorted_texts_ignore_order(a, b);
}

/// The fingerprint text determines the occasion: two occasions with the
/// same text have the same date, times, room and note, and the same scenes
/// up to their order. So a change of any of these, other than the order of
/// the scenes, changes the text.
pub proof fn lemma_identity_text_injective(a: OccasionView, b: OccasionView)
    requires
        occasion_wf(a),
        occasion_wf(b),
        identity_text(a.date, a.start, a.stop, a.scenes, a.room, a.note) == identity_text(
            b.date,
            b.start,
            b.stop,
            b.scenes,
            b.room,
            b.note,
        ),
    ensures
        a.date == b.date,
        a.start == b.start,
        a.stop == b.stop,
        same_scenes(a.scenes, b.scenes),
        a.room == b.room,
        a.note == b.note,
{
    let tail_a = opt_field(a.room) + opt_field(a.note);
    let tail_b = opt_field(b.room) + opt_field(b.note);
    let sc_a = scenes_field(a.scenes) + tail_a;
    let sc_b = scenes_field(b.scenes) + tail_b;
    let st_a = stop_field(a.stop) + sc_a;
    let st_b = stop_field(b.stop) + sc_b;
    lemma_field_split(date_text(a.date), field(clock_text(a.start)) + st_a, date_text(b.date), field(clock_text(b.start)) + st_b);
    lemma_date_text_injective(a.date, b.date);
    lemma_field_split(clock_text(a.start), st_a, clock_text(b.start), st_b);
    lemma_clock_text_injective(a.start, b.start);
    let oa = match a.stop {
        Some(t) => Some(clock_text(t)),
        None => None,
    };
    let ob = match b.stop {
        Some(t) => Some(clock_text(t)),
        None => None,
    };
    lemma_opt_field_split(oa, sc_a, ob, sc_b);
    if let (Some(x), Some(y)) = (a.stop, b.stop) {
        lemma_clock_text_injective(x, y);
    }
    assert(sc_a[0] == scenes_field(a.scenes)[0]);
    assert(sc_b[0] == scenes_field(b.scenes)[0]);
    lemma_text_order_total();
    match (a.scenes, b.scenes) {
        (ScenesView::Normal(x), ScenesView::Normal(y)) => {
            assert(sc_a.drop_first() =~= list_field(sorted_texts(x)) + tail_a);
            assert(sc_b.drop_first() =~= list_field(sorted_texts(y)) + tail_b);
            lemma_list_field_split(sorted_texts(x), tail_a, sorted_texts(y), tail_b);
            x.lemma_sort_by_ensures(text_order());
            y.lemma_sort_by_ensures(text_order());
        },
        (ScenesView::Special(x), ScenesView::Special(y)) => {
            assert(sc_a.drop_first() =~= field(x) + tail_a);
            assert(sc_b.drop_first() =~= field(y) + tail_b);
            lemma_field_split(x, tail_a, y, tail_b);
        },
        _ => {},
    }
    lemma_opt_field_split(a.room, opt_field(a.note), b.room, opt_field(b.note));
    assert(opt_field(a.note) =~= opt_field(a.note) + Seq::<char>::empty());
    assert(opt_field(b.note) =~= opt_field(b.note) + Seq::<char>::empty());
    lemma_opt_field_split(a.note, Seq::<char>::empty(), b.note, Seq::<char>::empty());
}

/// A cast entry as a value.
pub struct CastView {
    pub role: Seq<char>,
    pub who: Seq<char>,
    pub scenes: Seq<Seq<char>>,
    pub silent_play: Seq<bool>,
}

/// The silent-play flag of the first listed scene named `s`, if any.
pub open spec fn silent_status(names: Seq<Seq<char>>, flags: Seq<bool>, s: Seq<char>) -> Option<
    bool,
>
    decreases names.len(),
{
    if names.len() == 0 {
        None
    } else if names[0] == s {
        Some(flags[0])
    } else {
        silent_status(names.drop_first(), flags.drop_first(), s)
    }
}

/// The role that a person plays and the scenes that the role is in.
#[derive(Debug)]
pub struct SceneEntry {
    pub role: Role,
    pub who: Person,
    pub scenes: Vec<Scene>,
    pub silent_play: Vec<bool>,
}

impl View for SceneEntry {
    type V = CastView;

    open spec fn view(&self) -> CastView {
        CastView {
            role: self.role@,
            who: self.who@,
            scenes: views(self.scenes@),
            silent_play: self.silent_play@,
        }
    }
}

pub open spec fn cast_wf(c: CastView) -> bool {
    c.scenes.len() == c.silent_play.len()
}

impl SceneEntry {
    /// One silent-play flag for each scene.
    pub open spec fn wf(&self) -> bool {
        cast_wf(self@)
    }

    /// Whether the first scene of this entry named `scene` is played silently;
    /// `None` when the entry does not list the scene.
    pub fn is_scene_silent_play(&self, scene: &Scene) -> (r: Option<bool>)
        requires
            self.wf(),
        ensures
            r == silent_status(self@.scenes, self@.silent_play, scene@),
    {
        let mut i: usize = 0;
        let ghost names = self@.scenes;
        let ghost flags = self@.silent_play;
        assert(names.skip(0) =~= names);
        assert(flags.skip(0) =~= flags);
        while i < self.scenes.len()
            invariant
                i <= names.len(),
                names == self@.scenes,
                flags == self@.silent_play,
                names.len() == flags.len(),
                silent_status(names, flags, scene@) == silent_status(
                    names.skip(i as int),
                    flags.skip(i as int),
                    scene@,
                ),
            decreases names.len() - i,
        {
            assert(names.skip(i as int)[0] == self.scenes[i as int]@);
            if self.scenes[i] == *scene {
                return Some(self.silent_play[i]);
            }
            assert(names.skip(i as int).drop_first() =~= names.skip(i + 1));
            assert(flags.skip(i as int).drop_first() =~= flags.skip(i + 1));
            i = i + 1;
        }
        None
    }
}

/// What went wrong while reading the workbook or writing the calendars.
#[derive(Debug)]
pub enum SceneSchedulerError {
    /// A row, column or required header field is missing.
    StructuralError {
        file: String,
        sheet: String,
        row: usize,
        column: Option<usize>,
        /// The text of the cell at fault; empty where a cell is missing.
        token: String,
        message: String,
    },
    /// A cell's content does not follow its grammar.
    TokenParseError {
        file: String,
        sheet: String,
        row: usize,
        column: usize,
        token: String,
        expected: String,
    },
    /// A row leaves its date blank and no earlier row gave one.
    ReferentialError { file: String, sheet: String, row: usize, column: usize, token: String },
    /// A person's calendar could not be produced.
    EmissionError { person: String, message: String },
    /// A failure reported by the file system or the workbook reader.
    IoError(String),
}

/// The kind of an error, where it points, the text it found, and for a
/// token error the format expected.
pub enum ErrorView {
    Layout { file: Seq<char>, sheet: Seq<char>, row: int, column: Option<int>, token: Seq<char> },
    TokenParse {
        file: Seq<char>,
        sheet: Seq<char>,
        row: int,
        column: int,
        token: Seq<char>,
        expected: Seq<char>,
    },
    Referential { file: Seq<char>, sheet: Seq<char>, row: int, column: int, token: Seq<char> },
    Emission { person: Seq<char> },
    Io,
}

impl View for SceneSchedulerError {
    type V = ErrorView;

    open spec fn view(&self) -> ErrorView {
        match self {
            SceneSchedulerError::StructuralError { file, sheet, row, column, token, .. } => {
                ErrorView::Layout {
                    file: file@,
                    sheet: sheet@,
                    row: *row as int,
                    column: match column {
                        Some(c) => Some(*c as int),
                        None => None,
                    },
                    token: token@,
                }
            },
            SceneSchedulerError::TokenParseError { file, sheet, row, column, token, expected } => {
                ErrorView::TokenParse {
                    file: file@,
                    sheet: sheet@,
                    row: *row as int,
                    column: *column as int,
                    token: token@,
                    expected: expected@,
                }
            },
            SceneSchedulerError::ReferentialError { file, sheet, row, column, token } => {
                ErrorView::Referential {
                    file: file@,
                    sheet: sheet@,
                    row: *row as int,
                    column: *column as int,
                    token: token@,
                }
            },
            SceneSchedulerError::EmissionError { person, .. } => ErrorView::Emission {
                person: person@,
            },
            SceneSchedulerError::IoError(_) => ErrorView::Io,
        }
    }
}

} // verus!
