//! Reading the schedule sheet and the cast sheet into occasions and cast
//! entries.
use vstd::prelude::*;
use vstd::string::*;
use crate::calendar::{
    clock_of, date_of, parse_clock_token, parse_date_token, parsed_clock_of, parsed_date_of,
    time_before, Date, Time,
};
use crate::cell::{grid_wf, Cell, CellKind, Grid};
use crate::structures::{
    cast_wf, occasion, opt_view, times_wf, CastView, ErrorView, Note, OccasionView, Room,
    SceneEntry, SceneSchedulerError, Scenes, ScenesView, ScheduleEntry,
};
use crate::text::{
    date_token_of, find_date_token, is_ascii_digit, is_digit_char, split_at_any, split_by,
    trim_text, trimmed_of, views,
};

verus! {

/// The characters that separate scene names in a scenes cell.
pub open spec fn scene_separators() -> Seq<char> {
    seq!['/', ',']
}

/// The characters that separate a start from a stop time.
pub open spec fn time_separators() -> Seq<char> {
    seq!['-', '–']
}

/// What a scenes text designates: nothing named when blank, a list of names
/// when it starts with a digit, and otherwise a label.
pub open spec fn scenes_of(s: Seq<char>) -> ScenesView {
    let t = trimmed_of(s);
    if t.len() == 0 {
        ScenesView::Normal(Seq::<Seq<char>>::empty())
    } else if is_ascii_digit(t[0]) {
        ScenesView::Normal(split_by(s, scene_separators()).map_values(|p: Seq<char>| trimmed_of(p)))
    } else {
        ScenesView::Special(t)
    }
}

/// The date of the first date token in the text, if there is one and it
/// reads as a date.
pub open spec fn date_in(s: Seq<char>) -> Option<Date> {
    match date_token_of(s) {
        Some(t) => match parsed_date_of(trimmed_of(t)) {
            Some(d) => Some(date_of(d)),
            None => None,
        },
        None => None,
    }
}

pub open spec fn clock_in(s: Seq<char>) -> Option<Time> {
    match parsed_clock_of(trimmed_of(s)) {
        Some(t) => Some(clock_of(t)),
        None => None,
    }
}

/// A start time, or a start and a stop time separated by a dash; a stop
/// before the start is no time range.
pub open spec fn times_in(s: Seq<char>) -> Option<(Time, Option<Time>)> {
    let p = split_by(s, time_separators());
    if p.len() == 2 {
        match (clock_in(p[0]), clock_in(p[1])) {
            (Some(a), Some(b)) => if time_before(b, a) {
                None
            } else {
                Some((a, Some(b)))
            },
            _ => None,
        }
    } else if p.len() == 1 {
        match clock_in(p[0]) {
            Some(a) => Some((a, None)),
            None => None,
        }
    } else {
        None
    }
}

/// The date cell of a row: `None` when blank, else the date it holds or
/// `Some(None)` when it holds none.
pub open spec fn date_cell(c: Cell) -> Option<Option<Date>> {
    if c.kind == CellKind::Empty || trimmed_of(c.text@).len() == 0 {
        None
    } else {
        match c.stamp {
            Some(s) => Some(Some(s.0)),
            None => Some(date_in(c.text@)),
        }
    }
}

pub open spec fn time_cell(c: Cell) -> Option<(Time, Option<Time>)> {
    if c.kind == CellKind::Empty {
        None
    } else {
        match c.stamp {
            Some(s) => Some((s.1, None)),
            None => times_in(c.text@),
        }
    }
}

pub open spec fn scenes_cell(c: Cell) -> ScenesView {
    if c.kind == CellKind::Empty {
        ScenesView::Normal(Seq::<Seq<char>>::empty())
    } else {
        scenes_of(c.text@)
    }
}

/// A room or a note: absent when the cell is empty, else its trimmed text.
pub open spec fn text_cell(c: Cell) -> Option<Seq<char>> {
    if c.kind == CellKind::Empty {
        None
    } else {
        Some(trimmed_of(c.text@))
    }
}

/// What a scenes text designates.
pub fn parse_scenes(scenes: &str) -> (r: Scenes)
    ensures
        r@ == scenes_of(scenes@),
{
    let t = trim_text(scenes);
    if t.unicode_len() == 0 {
        let v: Vec<String> = Vec::new();
        assert(views(v@) =~= Seq::<Seq<char>>::empty());
        Scenes::Normal(v)
    } else if is_digit_char(t.as_str().get_char(0)) {
        let pieces = split_at_any(scenes, &['/', ',']);
        let mut names: Vec<String> = Vec::new();
        let mut i: usize = 0;
        while i < pieces.len()
            invariant
                i <= pieces@.len(),
                views(names@) =~= views(pieces@).subrange(0, i as int).map_values(
                    |p: Seq<char>| trimmed_of(p),
                ),
            decreases pieces@.len() - i,
        {
            let ghost before = views(names@);
            names.push(trim_text(pieces[i].as_str()));
            assert(views(names@) =~= before.push(trimmed_of(pieces@[i as int]@)));
            assert(views(pieces@).subrange(0, i + 1) =~= views(pieces@).subrange(0, i as int).push(
                pieces@[i as int]@,
            ));
            i = i + 1;
        }
        assert(views(pieces@).subrange(0, i as int) =~= views(pieces@));
        assert(['/', ',']@ =~= scene_separators());
        Scenes::Normal(names)
    } else {
        Scenes::Special(t)
    }
}

/// A note's text, trimmed.
pub fn parse_note(note: &str) -> (r: Note)
    ensures
        r@ == trimmed_of(note@),
{
    trim_text(note)
}

/// A room's text, trimmed.
pub fn parse_room(room: &str) -> (r: Room)
    ensures
        r@ == trimmed_of(room@),
{
    trim_text(room)
}

/// The date of the first `D.M.YY` token in the text.
pub fn parse_date(date: &str) -> (r: Option<Date>)
    ensures
        r == date_in(date@),
        r matches Some(d) ==> d.wf(),
{
    match find_date_token(date) {
        Some(token) => {
            let t = trim_text(token.as_str());
            parse_date_token(t.as_str())
        },
        None => None,
    }
}

fn parse_clock(s: &str) -> (r: Option<Time>)
    ensures
        r == clock_in(s@),
        r matches Some(t) ==> t.wf(),
{
    let t = trim_text(s);
    parse_clock_token(t.as_str())
}

/// A start time `HH:MM`, or a start and a stop `HH:MM-HH:MM`.
pub fn parse_time(time: &str) -> (r: Option<(Time, Option<Time>)>)
    ensures
        r == times_in(time@),
        r matches Some(t) ==> crate::structures::times_wf(t),
{
    let pieces = split_at_any(time, &['-', '–']);
    assert(['-', '–']@ =~= time_separators());
    assert(views(pieces@).len() == pieces@.len());
    if pieces.len() == 2 {
        assert(views(pieces@)[0] == pieces@[0]@);
        assert(views(pieces@)[1] == pieces@[1]@);
        match (parse_clock(pieces[0].as_str()), parse_clock(pieces[1].as_str())) {
            (Some(a), Some(b)) => if b.is_before(&a) {
                None
            } else {
                Some((a, Some(b)))
            },
            _ => None,
        }
    } else if pieces.len() == 1 {
        assert(views(pieces@)[0] == pieces@[0]@);
        match parse_clock(pieces[0].as_str()) {
            Some(a) => Some((a, None)),
            None => None,
        }
    } else {
        None
    }
}

fn parse_note_from_excel(note: &Cell) -> (r: Option<Note>)
    ensures
        opt_view(r) == text_cell(*note),
{
    if note.kind == CellKind::Empty {
        None
    } else {
        Some(parse_note(note.text.as_str()))
    }
}

fn parse_scenes_from_excel(scenes: &Cell) -> (r: Scenes)
    ensures
        r@ == scenes_cell(*scenes),
{
    if scenes.kind == CellKind::Empty {
        let v: Vec<String> = Vec::new();
        assert(views(v@) =~= Seq::<Seq<char>>::empty());
        Scenes::Normal(v)
    } else {
        parse_scenes(scenes.text.as_str())
    }
}

fn parse_time_from_excel(time: &Cell) -> (r: Option<(Time, Option<Time>)>)
    requires
        crate::cell::cell_wf(*time),
    ensures
        r == time_cell(*time),
        r matches Some(t) ==> crate::structures::times_wf(t),
{
    if time.kind == CellKind::Empty {
        return None;
    }
    match time.stamp {
        Some(s) => Some((s.1, None)),
        None => parse_time(time.text.as_str()),
    }
}

fn parse_date_from_excel(date: &Cell) -> (r: Option<Option<Date>>)
    requires
        crate::cell::cell_wf(*date),
    ensures
        r == date_cell(*date),
        r matches Some(Some(d)) ==> d.wf(),
{
    if date.kind == CellKind::Empty || trim_text(date.text.as_str()).unicode_len() == 0 {
        return None;
    }
    match date.stamp {
        Some(s) => Some(Some(s.0)),
        None => Some(parse_date(date.text.as_str())),
    }
}

fn parse_room_from_excel(room: &Cell) -> (r: Option<Room>)
    ensures
        opt_view(r) == text_cell(*room),
{
    if room.kind == CellKind::Empty {
        None
    } else {
        Some(parse_room(room.text.as_str()))
    }
}

pub open spec fn entries_view(v: Seq<ScheduleEntry>) -> Seq<OccasionView> {
    v.map_values(|e: ScheduleEntry| e@)
}

pub open spec fn all_wf(v: Seq<ScheduleEntry>) -> bool {
    forall|k: int| 0 <= k < v.len() ==> #[trigger] v[k].wf()
}

/// The occasion at `k` once its stop time is settled: an open stop is
/// closed by the start of the next occasion when that one has the same date
/// and does not start earlier.
pub open spec fn backfilled_at(o: Seq<OccasionView>, k: int) -> OccasionView {
    if k + 1 < o.len() && o[k].date == o[k + 1].date && o[k].stop is None && !time_before(
        o[k + 1].start,
        o[k].start,
    ) {
        occasion(o[k].date, o[k].start, Some(o[k + 1].start), o[k].scenes, o[k].room, o[k].note)
    } else {
        o[k]
    }
}

pub open spec fn backfill(o: Seq<OccasionView>) -> Seq<OccasionView> {
    Seq::new(o.len(), |k: int| backfilled_at(o, k))
}

/// Closes each open stop time with the start of the next occasion on the
/// same date, unless that one starts earlier. The last occasion of a date
/// keeps an open stop.
pub fn add_corresponding_stop_time(schedule_entries: Vec<ScheduleEntry>) -> (r: Vec<
    ScheduleEntry,
>)
    requires
        all_wf(schedule_entries@),
    ensures
        entries_view(r@) == backfill(entries_view(schedule_entries@)),
        all_wf(r@),
{
    let ghost orig = schedule_entries@;
    let ghost n = orig.len();
    let ghost target = backfill(entries_view(orig));
    let mut rest = schedule_entries;
    let mut out: Vec<ScheduleEntry> = Vec::new();
    while rest.len() > 0
        invariant
            n == orig.len(),
            out@.len() + rest@.len() == n,
            rest@ == orig.subrange(out@.len() as int, n as int),
            entries_view(out@) == target.subrange(0, out@.len() as int),
            all_wf(orig),
            all_wf(out@),
            target == backfill(entries_view(orig)),
        decreases rest@.len(),
    {
        let ghost k = out@.len() as int;
        let entry = rest.remove(0);
        assert(entry == orig[k]);
        assert(entry.wf());
        let ghost before = entries_view(out@);
        if rest.len() > 0 && rest[0].date == entry.date && entry.start_stop_time.1.is_none()
            && !rest[0].start_stop_time.0.is_before(&entry.start_stop_time.0) {
            assert(rest@[0] == orig[k + 1]);
            let next_start = rest[0].start_stop_time.0;
            assert(orig[k + 1].wf());
            let e = ScheduleEntry::new(
                entry.date,
                (entry.start_stop_time.0, Some(next_start)),
                entry.scenes,
                entry.room,
                entry.note,
            );
            out.push(e);
        } else {
            out.push(entry);
        }
        assert(entries_view(out@) =~= target.subrange(0, k + 1));
    }
    assert(entries_view(out@) =~= target);
    out
}

/// Where the reading of the schedule sheet stands after some rows: whether
/// the marker row has been passed, the last date read, and the occasions.
pub struct ScanState {
    pub started: bool,
    pub prev: Option<Date>,
    pub occs: Seq<OccasionView>,
}

/// The word in the first column of the row after which the data rows begin.
pub open spec fn data_marker() -> Seq<char> {
    "Datum"@
}

/// What a date cell of the schedule should hold.
pub open spec fn expected_date_format() -> Seq<char> {
    "Wrong date string format should be DD.MM.YY., e.g. 01.01.22."@
}

/// What a time cell of the schedule should hold.
pub open spec fn expected_time_format() -> Seq<char> {
    "Wrong time string format should be HH:MM, e.g. 12:00"@
}

/// What the cutoff cell of the schedule header should hold.
pub open spec fn expected_cutoff_format() -> Seq<char> {
    "The date should be specified."@
}

/// The text of cell `k` of a row; empty where the row is shorter.
pub open spec fn text_at(row: Seq<Cell>, k: int) -> Seq<char> {
    if k < row.len() {
        row[k].text@
    } else {
        Seq::<char>::empty()
    }
}

/// Reading row `i` of the schedule sheet.
pub open spec fn schedule_step(
    st: ScanState,
    row: Seq<Cell>,
    i: int,
    file: Seq<char>,
    sheet: Seq<char>,
) -> Result<ScanState, ErrorView> {
    if !st.started {
        Ok(
            ScanState {
                started: row.len() > 0 && trimmed_of(row[0].text@) == data_marker(),
                ..st
            },
        )
    } else if row.len() < 5 {
        Err(ErrorView::Layout { file, sheet, row: i + 1, column: None, token: Seq::<char>::empty() })
    } else {
        let date: Result<Date, ErrorView> = match date_cell(row[0]) {
            Some(Some(d)) => Ok(d),
            Some(None) => match (st.prev, date_token_of(row[0].text@)) {
                (Some(d), None) => Ok(d),
                (None, None) => Err(
                    ErrorView::Referential { file, sheet, row: i + 1, column: 1, token: row[0].text@ },
                ),
                _ => Err(
                    ErrorView::TokenParse {
                        file,
                        sheet,
                        row: i + 1,
                        column: 1,
                        token: row[0].text@,
                        expected: expected_date_format(),
                    },
                ),
            },
            None => match st.prev {
                Some(d) => Ok(d),
                None => Err(
                    ErrorView::Referential {
                        file,
                        sheet,
                        row: i + 1,
                        column: 1,
                        token: row[0].text@,
                    },
                ),
            },
        };
        match date {
            Err(e) => Err(e),
            Ok(d) => match time_cell(row[1]) {
                None => Err(
                    ErrorView::TokenParse {
                        file,
                        sheet,
                        row: i + 1,
                        column: 2,
                        token: row[1].text@,
                        expected: expected_time_format(),
                    },
                ),
                Some(t) => Ok(
                    ScanState {
                        started: true,
                        prev: Some(d),
                        occs: st.occs.push(
                            occasion(
                                d,
                                t.0,
                                t.1,
                                scenes_cell(row[2]),
                                text_cell(row[3]),
                                text_cell(row[4]),
                            ),
                        ),
                    },
                ),
            },
        }
    }
}

/// Reading the first `k` rows of the schedule sheet; the first row, which
/// holds the sheet's header, is passed over.
pub open spec fn schedule_scan(rows: Seq<Vec<Cell>>, k: int, file: Seq<char>, sheet: Seq<char>) -> Result<
    ScanState,
    ErrorView,
>
    decreases k,
{
    if k <= 1 {
        Ok(ScanState { started: false, prev: None, occs: Seq::<OccasionView>::empty() })
    } else {
        match schedule_scan(rows, k - 1, file, sheet) {
            Err(e) => Err(e),
            Ok(st) => schedule_step(st, rows[k - 1]@, k - 1, file, sheet),
        }
    }
}

proof fn lemma_scan_error_stays(
    rows: Seq<Vec<Cell>>,
    k: int,
    m: int,
    file: Seq<char>,
    sheet: Seq<char>,
)
    requires
        0 <= k <= m,
        schedule_scan(rows, k, file, sheet) is Err,
    ensures
        schedule_scan(rows, m, file, sheet) == schedule_scan(rows, k, file, sheet),
    decreases m - k,
{
    if m > k {
        lemma_scan_error_stays(rows, k, m - 1, file, sheet);
    }
}

/// The occasions of the schedule sheet, with stop times settled, or the
/// first error met.
pub open spec fn schedule_of(rows: Seq<Vec<Cell>>, file: Seq<char>, sheet: Seq<char>) -> Result<
    Seq<OccasionView>,
    ErrorView,
> {
    match schedule_scan(rows, rows.len() as int, file, sheet) {
        Ok(st) => Ok(backfill(st.occs)),
        Err(e) => Err(e),
    }
}

/// Reads the occasions of the schedule sheet. Rows up to the one whose
/// first cell reads `Datum` are passed over; a date cell that is blank, or
/// whose text holds no date token, carries the previous row's date forward.
pub fn parse_schedule_plan_content(
    excel_range: &Grid,
    file_path: &str,
    sheet_name: &str,
) -> (r: Result<Vec<ScheduleEntry>, SceneSchedulerError>)
    requires
        grid_wf(excel_range@),
    ensures
        match schedule_of(excel_range@, file_path@, sheet_name@) {
            Ok(o) => r matches Ok(v) && entries_view(v@) == o && all_wf(v@),
            Err(e) => r matches Err(x) && x@ == e,
        },
{
    let ghost rows = excel_range@;
    let ghost file = file_path@;
    let ghost sheet = sheet_name@;
    let mut start_parsing = false;
    let mut previous_date: Option<Date> = None;
    let mut schedule_entries: Vec<ScheduleEntry> = Vec::new();
    let marker = "Datum".to_owned();
    assert(entries_view(schedule_entries@) =~= Seq::<OccasionView>::empty());
    let mut i: usize = 1;
    while i < excel_range.len()
        invariant
            1 <= i,
            i <= rows.len() || (rows.len() == 0 && i == 1),
            rows == excel_range@,
            file == file_path@,
            sheet == sheet_name@,
            grid_wf(rows),
            marker@ == data_marker(),
            all_wf(schedule_entries@),
            schedule_scan(rows, i as int, file, sheet) == Ok::<ScanState, ErrorView>(
                ScanState {
                    started: start_parsing,
                    prev: previous_date,
                    occs: entries_view(schedule_entries@),
                },
            ),
            previous_date matches Some(d) ==> d.wf(),
        decreases rows.len() - i,
    {
        let row = &excel_range[i];
        assert(forall|j: int| 0 <= j < row@.len() ==> crate::cell::cell_wf(#[trigger] row@[j]));
        if !start_parsing {
            start_parsing = row.len() > 0 && trim_text(row[0].text.as_str()) == marker;
            i = i + 1;
            continue;
        }
        if row.len() < 5 {
            proof {
                lemma_scan_error_stays(rows, i + 1, rows.len() as int, file, sheet);
            }
            return Err(
                SceneSchedulerError::StructuralError {
                    file: file_path.to_owned(),
                    sheet: sheet_name.to_owned(),
                    row: i + 1,
                    column: None,
                    token: String::new(),
                    message: "Wrong Excel file format. There should be 5 columns.".to_owned(),
                },
            );
        }
        let date = match parse_date_from_excel(&row[0]) {
            Some(Some(date)) => date,
            Some(None) => {
                let no_token = find_date_token(row[0].text.as_str()).is_none();
                match previous_date {
                    Some(d) if no_token => d,
                    _ => {
                        proof {
                            lemma_scan_error_stays(rows, i + 1, rows.len() as int, file, sheet);
                        }
                        if no_token {
                            return Err(
                                SceneSchedulerError::ReferentialError {
                                    file: file_path.to_owned(),
                                    sheet: sheet_name.to_owned(),
                                    row: i + 1,
                                    column: 1,
                                    token: row[0].text.clone(),
                                },
                            );
                        }
                        return Err(
                            SceneSchedulerError::TokenParseError {
                                file: file_path.to_owned(),
                                sheet: sheet_name.to_owned(),
                                row: i + 1,
                                column: 1,
                                token: row[0].text.clone(),
                                expected: "Wrong date string format should be DD.MM.YY., e.g. 01.01.22.".to_owned(),
                            },
                        );
                    },
                }
            },
            None => match previous_date {
                Some(d) => d,
                None => {
                    proof {
                        lemma_scan_error_stays(rows, i + 1, rows.len() as int, file, sheet);
                    }
                    return Err(
                        SceneSchedulerError::ReferentialError {
                            file: file_path.to_owned(),
                            sheet: sheet_name.to_owned(),
                            row: i + 1,
                            column: 1,
                            token: row[0].text.clone(),
                        },
                    );
                },
            },
        };
        let start_stop_time = match parse_time_from_excel(&row[1]) {
            Some(t) => t,
            None => {
                proof {
                    lemma_scan_error_stays(rows, i + 1, rows.len() as int, file, sheet);
                }
                return Err(
                    SceneSchedulerError::TokenParseError {
                        file: file_path.to_owned(),
                        sheet: sheet_name.to_owned(),
                        row: i + 1,
                        column: 2,
                        token: row[1].text.clone(),
                        expected: "Wrong time string format should be HH:MM, e.g. 12:00".to_owned(),
                    },
                );
            },
        };
        previous_date = Some(date);
        let scenes = parse_scenes_from_excel(&row[2]);
        let room = parse_room_from_excel(&row[3]);
        let note = parse_note_from_excel(&row[4]);
        let ghost before = entries_view(schedule_entries@);
        let entry = ScheduleEntry::new(date, start_stop_time, scenes, room, note);
        schedule_entries.push(entry);
        assert(entries_view(schedule_entries@) =~= before.push(entry@));
        i = i + 1;
    }
    if excel_range.len() == 0 {
        assert(schedule_scan(rows, 0, file, sheet) == schedule_scan(rows, 1, file, sheet));
    } else {
        assert(i == rows.len());
    }
    Ok(add_corresponding_stop_time(schedule_entries))
}

/// The header facts of the schedule sheet: the cutoff date for silent play,
/// if given, and the default location.
pub open spec fn header_of(rows: Seq<Vec<Cell>>, file: Seq<char>, sheet: Seq<char>) -> Result<
    (Option<Date>, Seq<char>),
    ErrorView,
> {
    if rows.len() == 0 {
        Err(ErrorView::Layout { file, sheet, row: 1, column: None, token: Seq::<char>::empty() })
    } else {
        let r = rows[0]@;
        if r.len() < 2 {
            Err(ErrorView::Layout { file, sheet, row: 1, column: Some(2), token: Seq::<char>::empty() })
        } else {
            match text_cell(r[1]) {
                None => Err(ErrorView::Layout { file, sheet, row: 1, column: Some(2), token: r[1].text@ }),
                Some(room) => if r.len() < 4 {
                    Ok((None, room))
                } else {
                    match date_cell(r[3]) {
                        Some(Some(d)) => Ok((Some(d), room)),
                        Some(None) => Err(
                            ErrorView::TokenParse {
                                file,
                                sheet,
                                row: 1,
                                column: 4,
                                token: r[3].text@,
                                expected: expected_cutoff_format(),
                            },
                        ),
                        None => Ok((None, room)),
                    }
                },
            }
        }
    }
}

/// Reads the schedule sheet's header row: the default location in its
/// second cell (required) and the cutoff date for silent play in its fourth
/// (optional).
pub fn parse_mandatory_silent_play_and_place(
    excel_range: &Grid,
    file_path: &str,
    sheet_name: &str,
) -> (r: Result<(Option<Date>, Room), SceneSchedulerError>)
    requires
        grid_wf(excel_range@),
    ensures
        match header_of(excel_range@, file_path@, sheet_name@) {
            Ok(h) => r matches Ok(x) && x.0 == h.0 && x.1@ == h.1,
            Err(e) => r matches Err(x) && x@ == e,
        },
        r matches Ok(x) ==> (x.0 matches Some(d) ==> d.wf()),
{
    if excel_range.len() == 0 {
        return Err(
            SceneSchedulerError::StructuralError {
                file: file_path.to_owned(),
                sheet: sheet_name.to_owned(),
                row: 1,
                column: None,
                token: String::new(),
                message: "No first row found. Needs to contain at least the information about the location.".to_owned(),
            },
        );
    }
    let first_row = &excel_range[0];
    assert(forall|j: int| 0 <= j < first_row@.len() ==> crate::cell::cell_wf(#[trigger] first_row@[j]));
    if first_row.len() < 2 {
        return Err(
            SceneSchedulerError::StructuralError {
                file: file_path.to_owned(),
                sheet: sheet_name.to_owned(),
                row: 1,
                column: Some(2),
                token: String::new(),
                message: "Wrong Excel file format. First row should contain the information about the location.".to_owned(),
            },
        );
    }
    let room = match parse_room_from_excel(&first_row[1]) {
        Some(room) => room,
        None => {
            return Err(
                SceneSchedulerError::StructuralError {
                    file: file_path.to_owned(),
                    sheet: sheet_name.to_owned(),
                    row: 1,
                    column: Some(2),
                    token: first_row[1].text.clone(),
                    message: "The location should be specified.".to_owned(),
                },
            );
        },
    };
    if first_row.len() < 4 {
        return Ok((None, room));
    }
    let mandatory_silent_play = match parse_date_from_excel(&first_row[3]) {
        Some(Some(date)) => Some(date),
        Some(None) => {
            return Err(
                SceneSchedulerError::TokenParseError {
                    file: file_path.to_owned(),
                    sheet: sheet_name.to_owned(),
                    row: 1,
                    column: 4,
                    token: first_row[3].text.clone(),
                    expected: "The date should be specified.".to_owned(),
                },
            );
        },
        None => None,
    };
    Ok((mandatory_silent_play, room))
}

/// The mark of a scene that the role plays.
pub const SCENE_MARK: char = 'x';

/// The mark of a scene that the role plays silently.
pub const SILENT_PLAY_MARK: char = 's';

pub open spec fn kind_at(row: Seq<Cell>, k: int) -> CellKind {
    if k < row.len() {
        row[k].kind
    } else {
        CellKind::Empty
    }
}

/// The scene names of the cast sheet's header row, from its third cell up
/// to (not including) cell `j`.
pub open spec fn scene_header(row: Seq<Cell>, j: int, file: Seq<char>, sheet: Seq<char>) -> Result<
    Seq<Seq<char>>,
    ErrorView,
>
    decreases j,
{
    if j <= 2 {
        Ok(Seq::<Seq<char>>::empty())
    } else {
        match scene_header(row, j - 1, file, sheet) {
            Err(e) => Err(e),
            Ok(ns) => if row[j - 1].kind == CellKind::Text || row[j - 1].kind == CellKind::Float {
                Ok(ns.push(row[j - 1].text@))
            } else {
                Err(ErrorView::Layout { file, sheet, row: 1, column: Some(j), token: row[j - 1].text@ })
            },
        }
    }
}

/// The scenes of a cast row marked up to (not including) cell `j`, with
/// their silent-play flags.
pub open spec fn marked_scenes(row: Seq<Cell>, names: Seq<Seq<char>>, j: int) -> (
    Seq<Seq<char>>,
    Seq<bool>,
)
    decreases j,
{
    if j <= 2 {
        (Seq::<Seq<char>>::empty(), Seq::<bool>::empty())
    } else {
        let (s, f) = marked_scenes(row, names, j - 1);
        let c = row[j - 1];
        if c.kind == CellKind::Text && c.text@.contains(SCENE_MARK) {
            (s.push(names[j - 3]), f.push(false))
        } else if c.kind == CellKind::Text && c.text@.contains(SILENT_PLAY_MARK) {
            (s.push(names[j - 3]), f.push(true))
        } else {
            (s, f)
        }
    }
}

/// The last cell of a cast row that can carry a mark.
pub open spec fn mark_end(row: Seq<Cell>, names: Seq<Seq<char>>) -> int {
    if row.len() < names.len() + 2 {
        row.len() as int
    } else {
        names.len() + 2 as int
    }
}

/// The cast entry of data row `i`.
pub open spec fn cast_row(
    row: Seq<Cell>,
    names: Seq<Seq<char>>,
    i: int,
    file: Seq<char>,
    sheet: Seq<char>,
) -> Result<CastView, ErrorView> {
    if kind_at(row, 0) != CellKind::Text {
        Err(ErrorView::Layout { file, sheet, row: i + 1, column: Some(1), token: text_at(row, 0) })
    } else if kind_at(row, 1) != CellKind::Text {
        Err(ErrorView::Layout { file, sheet, row: i + 1, column: Some(2), token: text_at(row, 1) })
    } else {
        let m = marked_scenes(row, names, mark_end(row, names));
        Ok(CastView { role: row[0].text@, who: row[1].text@, scenes: m.0, silent_play: m.1 })
    }
}

/// Where the reading of the cast sheet stands after some rows.
pub enum CastScan {
    Going(Seq<CastView>),
    Ended(Seq<CastView>),
    Failed(ErrorView),
}

pub open spec fn cast_scan(
    rows: Seq<Vec<Cell>>,
    names: Seq<Seq<char>>,
    k: int,
    file: Seq<char>,
    sheet: Seq<char>,
) -> CastScan
    decreases k,
{
    if k <= 1 {
        CastScan::Going(Seq::<CastView>::empty())
    } else {
        match cast_scan(rows, names, k - 1, file, sheet) {
            CastScan::Going(cs) => {
                let row = rows[k - 1]@;
                if kind_at(row, 0) == CellKind::Empty && kind_at(row, 1) == CellKind::Empty {
                    CastScan::Ended(cs)
                } else {
                    match cast_row(row, names, k - 1, file, sheet) {
                        Ok(c) => CastScan::Going(cs.push(c)),
                        Err(e) => CastScan::Failed(e),
                    }
                }
            },
            other => other,
        }
    }
}

/// The cast entries of the cast sheet, up to the first row whose role and
/// person are both empty, or the first error met.
pub open spec fn cast_of(rows: Seq<Vec<Cell>>, file: Seq<char>, sheet: Seq<char>) -> Result<
    Seq<CastView>,
    ErrorView,
> {
    if rows.len() == 0 {
        Ok(Seq::<CastView>::empty())
    } else {
        match scene_header(rows[0]@, rows[0]@.len() as int, file, sheet) {
            Err(e) => Err(e),
            Ok(names) => match cast_scan(rows, names, rows.len() as int, file, sheet) {
                CastScan::Going(cs) => Ok(cs),
                CastScan::Ended(cs) => Ok(cs),
                CastScan::Failed(e) => Err(e),
            },
        }
    }
}

pub open spec fn cast_view(v: Seq<SceneEntry>) -> Seq<CastView> {
    v.map_values(|e: SceneEntry| e@)
}

fn contains_char(s: &str, c: char) -> (r: bool)
    ensures
        r == s@.contains(c),
{
    let n = s.unicode_len();
    let mut i: usize = 0;
    while i < n
        invariant
            n == s@.len(),
            i <= n,
            forall|k: int| 0 <= k < i ==> s@[k] != c,
        decreases n - i,
    {
        if s.get_char(i) == c {
            return true;
        }
        i = i + 1;
    }
    false
}

proof fn lemma_cast_failure_stays(
    rows: Seq<Vec<Cell>>,
    names: Seq<Seq<char>>,
    k: int,
    m: int,
    file: Seq<char>,
    sheet: Seq<char>,
)
    requires
        0 <= k <= m,
        !(cast_scan(rows, names, k, file, sheet) is Going),
    ensures
        cast_scan(rows, names, m, file, sheet) == cast_scan(rows, names, k, file, sheet),
    decreases m - k,
{
    if m > k {
        lemma_cast_failure_stays(rows, names, k, m - 1, file, sheet);
    }
}

proof fn lemma_header_failure_stays(
    row: Seq<Cell>,
    k: int,
    m: int,
    file: Seq<char>,
    sheet: Seq<char>,
)
    requires
        0 <= k <= m,
        scene_header(row, k, file, sheet) is Err,
    ensures
        scene_header(row, m, file, sheet) == scene_header(row, k, file, sheet),
    decreases m - k,
{
    if m > k {
        lemma_header_failure_stays(row, k, m - 1, file, sheet);
    }
}

/// Reads the cast sheet: scene names from the header row, then one cast
/// entry per row until a row whose role and person are both empty.
pub fn parse_scene_plan_content(
    excel_range: Grid,
    file_path: &str,
    sheet_name: &str,
) -> (r: Result<Vec<SceneEntry>, SceneSchedulerError>)
    ensures
        match cast_of(excel_range@, file_path@, sheet_name@) {
            Ok(cs) => r matches Ok(v) && cast_view(v@) == cs,
            Err(e) => r matches Err(x) && x@ == e,
        },
        r matches Ok(v) ==> forall|k: int| 0 <= k < v@.len() ==> (#[trigger] v@[k]).wf(),
{
    let ghost rows = excel_range@;
    let ghost file = file_path@;
    let ghost sheet = sheet_name@;
    let mut scene_entries: Vec<SceneEntry> = Vec::new();
    assert(cast_view(scene_entries@) =~= Seq::<CastView>::empty());
    if excel_range.len() == 0 {
        return Ok(scene_entries);
    }
    let header = &excel_range[0];
    let mut all_scenes: Vec<String> = Vec::new();
    let mut j: usize = 2;
    assert(views(all_scenes@) =~= Seq::<Seq<char>>::empty());
    while j < header.len()
        invariant
            2 <= j,
            j <= header@.len() || (header@.len() < 2 && j == 2),
            rows == excel_range@,
            rows.len() > 0,
            header@ == rows[0]@,
            file == file_path@,
            sheet == sheet_name@,
            scene_header(header@, j as int, file, sheet) == Ok::<Seq<Seq<char>>, ErrorView>(
                views(all_scenes@),
            ),
        decreases header@.len() - j,
    {
        let c = &header[j];
        if c.kind == CellKind::Text || c.kind == CellKind::Float {
            let ghost before = views(all_scenes@);
            all_scenes.push(c.text.clone());
            assert(views(all_scenes@) =~= before.push(c.text@));
        } else {
            proof {
                lemma_header_failure_stays(header@, j + 1, header@.len() as int, file, sheet);
            }
            return Err(
                SceneSchedulerError::StructuralError {
                    file: file_path.to_owned(),
                    sheet: sheet_name.to_owned(),
                    row: 1,
                    column: Some(j + 1),
                    token: c.text.clone(),
                    message: "Scene name should be a string or a float.".to_owned(),
                },
            );
        }
        j = j + 1;
    }
    let ghost names = views(all_scenes@);
    if header.len() < 2 {
        assert(scene_header(header@, header@.len() as int, file, sheet) == scene_header(header@, 2, file, sheet));
    }
    let mut i: usize = 1;
    while i < excel_range.len()
        invariant
            1 <= i <= rows.len(),
            rows == excel_range@,
            file == file_path@,
            sheet == sheet_name@,
            names == views(all_scenes@),
            scene_header(rows[0]@, rows[0]@.len() as int, file, sheet) == Ok::<Seq<Seq<char>>, ErrorView>(names),
            cast_scan(rows, names, i as int, file, sheet) == CastScan::Going(cast_view(scene_entries@)),
            forall|k: int| 0 <= k < scene_entries@.len() ==> (#[trigger] scene_entries@[k]).wf(),
        decreases rows.len() - i,
    {
        let row = &excel_range[i];
        let blank0 = row.len() < 1 || row[0].kind == CellKind::Empty;
        let blank1 = row.len() < 2 || row[1].kind == CellKind::Empty;
        if blank0 && blank1 {
            proof {
                lemma_cast_failure_stays(rows, names, i + 1, rows.len() as int, file, sheet);
            }
            return Ok(scene_entries);
        }
        if row.len() < 1 || row[0].kind != CellKind::Text {
            proof {
                lemma_cast_failure_stays(rows, names, i + 1, rows.len() as int, file, sheet);
            }
            return Err(
                SceneSchedulerError::StructuralError {
                    file: file_path.to_owned(),
                    sheet: sheet_name.to_owned(),
                    row: i + 1,
                    column: Some(1),
                    token: if row.len() < 1 {
                        String::new()
                    } else {
                        row[0].text.clone()
                    },
                    message: "Role should be a string.".to_owned(),
                },
            );
        }
        if row.len() < 2 || row[1].kind != CellKind::Text {
            proof {
                lemma_cast_failure_stays(rows, names, i + 1, rows.len() as int, file, sheet);
            }
            return Err(
                SceneSchedulerError::StructuralError {
                    file: file_path.to_owned(),
                    sheet: sheet_name.to_owned(),
                    row: i + 1,
                    column: Some(2),
                    token: if row.len() < 2 {
                        String::new()
                    } else {
                        row[1].text.clone()
                    },
                    message: "Person who plays the role should be a string.".to_owned(),
                },
            );
        }
        let role = row[0].text.clone();
        let who = row[1].text.clone();
        let end: usize = if row.len() - 2 < all_scenes.len() {
            row.len()
        } else {
            all_scenes.len() + 2
        };
        let mut scenes_for_current_role: Vec<String> = Vec::new();
        let mut silent_play: Vec<bool> = Vec::new();
        let mut k: usize = 2;
        assert(views(scenes_for_current_role@) =~= Seq::<Seq<char>>::empty());
        assert(silent_play@ =~= Seq::<bool>::empty());
        while k < end
            invariant
                2 <= k,
                k <= end || end < 2,
                end == mark_end(row@, names),
                end <= row@.len(),
                names == views(all_scenes@),
                (views(scenes_for_current_role@), silent_play@) == marked_scenes(row@, names, k as int),
                scenes_for_current_role@.len() == silent_play@.len(),
            decreases end - k,
        {
            let c = &row[k];
            let ghost s0 = views(scenes_for_current_role@);
            let ghost f0 = silent_play@;
            if c.kind == CellKind::Text && contains_char(c.text.as_str(), SCENE_MARK) {
                scenes_for_current_role.push(all_scenes[k - 2].clone());
                silent_play.push(false);
                assert(views(scenes_for_current_role@) =~= s0.push(names[k - 2]));
                assert(silent_play@ =~= f0.push(false));
            } else if c.kind == CellKind::Text && contains_char(c.text.as_str(), SILENT_PLAY_MARK) {
                scenes_for_current_role.push(all_scenes[k - 2].clone());
                silent_play.push(true);
                assert(views(scenes_for_current_role@) =~= s0.push(names[k - 2]));
                assert(silent_play@ =~= f0.push(true));
            }
            k = k + 1;
        }
        if end < 2 {
            assert(marked_scenes(row@, names, end as int) == marked_scenes(row@, names, 2));
        }
        let entry = SceneEntry { role, who, scenes: scenes_for_current_role, silent_play };
        let ghost before = cast_view(scene_entries@);
        scene_entries.push(entry);
        assert(cast_view(scene_entries@) =~= before.push(entry@));
        i = i + 1;
    }
    Ok(scene_entries)
}

} // verus!
