//! Pairing occasions with cast entries, the silent-play cutoff, and the
//! grouping of pairs by person.
use vstd::prelude::*;
use crate::calendar::{date_before, Date};
use crate::structures::{
    is_unconditional, silent_status, CastView, OccasionView, Person, SceneEntry, Scenes,
    ScenesView, ScheduleEntry,
};
use crate::text::views;

verus! {

/// An occasion with the cast entry it concerns, or with none when it
/// concerns everybody.
pub type Pairing<'a> = (&'a ScheduleEntry, Option<&'a SceneEntry>);

pub type PairView = (OccasionView, Option<CastView>);

pub type PersonToSceneAndScheduleEntry<'a> = Vec<(Person, Vec<Pairing<'a>>)>;

pub open spec fn pair_view(p: Pairing) -> PairView {
    (
        p.0@,
        match p.1 {
            Some(c) => Some(c@),
            None => None,
        },
    )
}

pub open spec fn pairs_view(v: Seq<Pairing>) -> Seq<PairView> {
    v.map_values(|p: Pairing| pair_view(p))
}

/// The scene names of an occasion's list; empty for a label.
pub open spec fn listed_scenes(s: ScenesView) -> Seq<Seq<char>> {
    match s {
        ScenesView::Normal(v) => v,
        ScenesView::Special(_) => Seq::<Seq<char>>::empty(),
    }
}

/// The cast entry is in one of the scenes named.
pub open spec fn shares_scene(names: Seq<Seq<char>>, c: CastView) -> bool {
    exists|k: int| 0 <= k < c.scenes.len() && names.contains(#[trigger] c.scenes[k])
}

/// The pairs of one occasion with those of `cast` that share a scene with it.
pub open spec fn matches_in(o: OccasionView, cast: Seq<CastView>) -> Seq<PairView>
    decreases cast.len(),
{
    if cast.len() == 0 {
        Seq::<PairView>::empty()
    } else {
        let rest = matches_in(o, cast.drop_last());
        if shares_scene(listed_scenes(o.scenes), cast.last()) {
            rest.push((o, Some(cast.last())))
        } else {
            rest
        }
    }
}

/// The pairs of one occasion: a single pair without cast entry when it
/// concerns everybody, else one pair per cast entry sharing a scene.
pub open spec fn pairs_for(o: OccasionView, cast: Seq<CastView>) -> Seq<PairView> {
    if is_unconditional(o.scenes) {
        seq![(o, None::<CastView>)]
    } else {
        matches_in(o, cast)
    }
}

/// The pairs of all occasions, occasion by occasion.
pub open spec fn match_all(occs: Seq<OccasionView>, cast: Seq<CastView>) -> Seq<PairView>
    decreases occs.len(),
{
    if occs.len() == 0 {
        Seq::<PairView>::empty()
    } else {
        match_all(occs.drop_last(), cast) + pairs_for(occs.last(), cast)
    }
}

fn shares_a_scene(scenes: &Vec<String>, entry: &SceneEntry) -> (r: bool)
    ensures
        r == shares_scene(views(scenes@), entry@),
{
    let mut i: usize = 0;
    while i < entry.scenes.len()
        invariant
            i <= entry.scenes@.len(),
            forall|k: int| 0 <= k < i ==> !views(scenes@).contains(#[trigger] views(entry.scenes@)[k]),
        decreases entry.scenes@.len() - i,
    {
        let mut j: usize = 0;
        while j < scenes.len()
            invariant
                i < entry.scenes@.len(),
                j <= scenes@.len(),
                forall|k: int| 0 <= k < j ==> views(scenes@)[k] != entry.scenes@[i as int]@,
            decreases scenes@.len() - j,
        {
            if scenes[j] == entry.scenes[i] {
                assert(views(scenes@)[j as int] == entry@.scenes[i as int]);
                assert(views(scenes@).contains(entry@.scenes[i as int]));
                return true;
            }
            j = j + 1;
        }
        i = i + 1;
    }
    false
}

/// Pairs each occasion with every cast entry that shares a scene with it;
/// an occasion with a label or with no scenes named is paired with no cast
/// entry, once.
pub fn get_schedule_to_scene_entry<'a>(
    schedule_entries: &'a Vec<ScheduleEntry>,
    scene_entries: &'a Vec<SceneEntry>,
) -> (r: Vec<Pairing<'a>>)
    ensures
        pairs_view(r@) == match_all(
            schedule_entries@.map_values(|e: ScheduleEntry| e@),
            scene_entries@.map_values(|c: SceneEntry| c@),
        ),
{
    let ghost occs = schedule_entries@.map_values(|e: ScheduleEntry| e@);
    let ghost cast = scene_entries@.map_values(|c: SceneEntry| c@);
    let mut out: Vec<Pairing<'a>> = Vec::new();
    let mut i: usize = 0;
    assert(pairs_view(out@) =~= match_all(occs.subrange(0, 0), cast));
    while i < schedule_entries.len()
        invariant
            i <= schedule_entries@.len(),
            occs == schedule_entries@.map_values(|e: ScheduleEntry| e@),
            cast == scene_entries@.map_values(|c: SceneEntry| c@),
            pairs_view(out@) == match_all(occs.subrange(0, i as int), cast),
        decreases schedule_entries@.len() - i,
    {
        let schedule_entry = &schedule_entries[i];
        let ghost o = schedule_entry@;
        let ghost base = pairs_view(out@);
        assert(occs.subrange(0, i + 1).drop_last() =~= occs.subrange(0, i as int));
        assert(occs.subrange(0, i + 1).last() == o);
        match &schedule_entry.scenes {
            Scenes::Special(_) => {
                out.push((schedule_entry, None));
                assert(pairs_view(out@) =~= base + pairs_for(o, cast));
            },
            Scenes::Normal(scenes) => {
                if scenes.len() == 0 {
                    out.push((schedule_entry, None));
                    assert(pairs_view(out@) =~= base + pairs_for(o, cast));
                } else {
                    let mut j: usize = 0;
                    assert(cast.subrange(0, 0) =~= Seq::<CastView>::empty());
                    assert(pairs_view(out@) =~= base + matches_in(o, cast.subrange(0, 0)));
                    while j < scene_entries.len()
                        invariant
                            j <= scene_entries@.len(),
                            cast == scene_entries@.map_values(|c: SceneEntry| c@),
                            o == schedule_entry@,
                            schedule_entry.scenes == Scenes::Normal(*scenes),
                            pairs_view(out@) == base + matches_in(o, cast.subrange(0, j as int)),
                        decreases scene_entries@.len() - j,
                    {
                        let scene_entry = &scene_entries[j];
                        let ghost before = pairs_view(out@);
                        assert(cast.subrange(0, j + 1).drop_last() =~= cast.subrange(0, j as int));
                        assert(cast.subrange(0, j + 1).last() == scene_entry@);
                        if shares_a_scene(scenes, scene_entry) {
                            out.push((schedule_entry, Some(scene_entry)));
                            assert(pairs_view(out@) =~= before.push((o, Some(scene_entry@))));
                        }
                        j = j + 1;
                    }
                    assert(cast.subrange(0, j as int) =~= cast);
                }
            },
        }
        i = i + 1;
    }
    assert(occs.subrange(0, i as int) =~= occs);
    out
}

/// Every cast entry in the pairs has one silent-play flag per scene.
pub open spec fn pairs_wf(ps: Seq<PairView>) -> bool {
    forall|k: int| 0 <= k < ps.len() ==> ((#[trigger] ps[k]).1 matches Some(c) ==> crate::structures::cast_wf(c))
}

/// Among the scenes named, one that the cast entry plays aloud.
pub open spec fn has_spoken_scene(names: Seq<Seq<char>>, c: CastView) -> bool {
    exists|k: int|
        0 <= k < names.len() && #[trigger] silent_status(c.scenes, c.silent_play, names[k]) == Some(
            false,
        )
}

/// A pair stays unless its occasion names scenes, its cast entry plays none
/// of them aloud, and its date is before the cutoff.
pub open spec fn kept_by_cutoff(p: PairView, cutoff: Date) -> bool {
    ||| is_unconditional(p.0.scenes)
    ||| match p.1 {
        None => true,
        Some(c) => has_spoken_scene(listed_scenes(p.0.scenes), c),
    }
    ||| !date_before(p.0.date, cutoff)
}

pub open spec fn filter_cutoff(ps: Seq<PairView>, cutoff: Date) -> Seq<PairView>
    decreases ps.len(),
{
    if ps.len() == 0 {
        Seq::<PairView>::empty()
    } else {
        let rest = filter_cutoff(ps.drop_last(), cutoff);
        if kept_by_cutoff(ps.last(), cutoff) {
            rest.push(ps.last())
        } else {
            rest
        }
    }
}

fn plays_a_scene_aloud(scenes: &Vec<String>, c: &SceneEntry) -> (r: bool)
    requires
        c.wf(),
    ensures
        r == has_spoken_scene(views(scenes@), c@),
{
    let mut i: usize = 0;
    while i < scenes.len()
        invariant
            c.wf(),
            i <= scenes@.len(),
            forall|k: int|
                0 <= k < i ==> #[trigger] silent_status(c@.scenes, c@.silent_play, views(scenes@)[k])
                    != Some(false),
        decreases scenes@.len() - i,
    {
        let status = c.is_scene_silent_play(&scenes[i]);
        assert(views(scenes@)[i as int] == scenes@[i as int]@);
        if let Some(false) = status {
            assert(views(scenes@).len() == scenes@.len());
            return true;
        }
        i = i + 1;
    }
    false
}

/// Keeps the pairs that the silent-play cutoff does not remove: a pair goes
/// only when its occasion names scenes, its cast entry plays none of them
/// aloud, and the occasion is before the cutoff date.
pub fn filter_by_silent_play<'a>(
    schedule_to_scene_entries: &Vec<Pairing<'a>>,
    mandatory_silent_play: &Date,
) -> (r: Vec<Pairing<'a>>)
    requires
        pairs_wf(pairs_view(schedule_to_scene_entries@)),
    ensures
        pairs_view(r@) == filter_cutoff(pairs_view(schedule_to_scene_entries@), *mandatory_silent_play),
{
    let ghost ps = pairs_view(schedule_to_scene_entries@);
    let ghost cutoff = *mandatory_silent_play;
    let mut out: Vec<Pairing<'a>> = Vec::new();
    let mut i: usize = 0;
    assert(pairs_view(out@) =~= filter_cutoff(ps.subrange(0, 0), cutoff));
    while i < schedule_to_scene_entries.len()
        invariant
            i <= ps.len(),
            ps == pairs_view(schedule_to_scene_entries@),
            cutoff == *mandatory_silent_play,
            pairs_wf(ps),
            pairs_view(out@) == filter_cutoff(ps.subrange(0, i as int), cutoff),
        decreases ps.len() - i,
    {
        let pair = schedule_to_scene_entries[i];
        let (schedule_entry, scene_entry) = pair;
        assert(ps.subrange(0, i + 1).drop_last() =~= ps.subrange(0, i as int));
        assert(ps.subrange(0, i + 1).last() == pair_view(pair));
        assert(ps[i as int] == pair_view(pair));
        let ghost before = pairs_view(out@);
        let keep = match &schedule_entry.scenes {
            Scenes::Special(_) => true,
            Scenes::Normal(scenes) => {
                if scenes.len() == 0 {
                    true
                } else if match scene_entry {
                    Some(c) => plays_a_scene_aloud(scenes, c),
                    None => true,
                } {
                    true
                } else {
                    !schedule_entry.date.is_before(mandatory_silent_play)
                }
            },
        };
        assert(keep == kept_by_cutoff(pair_view(pair), cutoff));
        if keep {
            out.push(pair);
            assert(pairs_view(out@) =~= before.push(pair_view(pair)));
        }
        i = i + 1;
    }
    assert(ps.subrange(0, i as int) =~= ps);
    out
}

/// The persons of the pairs' cast entries, each once, in order of first
/// appearance.
pub open spec fn persons_of(ps: Seq<PairView>) -> Seq<Seq<char>>
    decreases ps.len(),
{
    if ps.len() == 0 {
        Seq::<Seq<char>>::empty()
    } else {
        let prev = persons_of(ps.drop_last());
        match ps.last().1 {
            Some(c) => if prev.contains(c.who) {
                prev
            } else {
                prev.push(c.who)
            },
            None => prev,
        }
    }
}

/// A pair concerns a person when its cast entry is theirs or when it has
/// none.
pub open spec fn concerns(p: PairView, person: Seq<char>) -> bool {
    match p.1 {
        Some(c) => c.who == person,
        None => true,
    }
}

pub open spec fn pairs_of(ps: Seq<PairView>, person: Seq<char>) -> Seq<PairView>
    decreases ps.len(),
{
    if ps.len() == 0 {
        Seq::<PairView>::empty()
    } else {
        let rest = pairs_of(ps.drop_last(), person);
        if concerns(ps.last(), person) {
            rest.push(ps.last())
        } else {
            rest
        }
    }
}

/// For each person, the pairs that concern them.
pub open spec fn group_all(ps: Seq<PairView>) -> Seq<(Seq<char>, Seq<PairView>)> {
    persons_of(ps).map_values(|person: Seq<char>| (person, pairs_of(ps, person)))
}

pub open spec fn groups_view(g: Seq<(Person, Vec<Pairing>)>) -> Seq<(Seq<char>, Seq<PairView>)> {
    g.map_values(|e: (Person, Vec<Pairing>)| (e.0@, pairs_view(e.1@)))
}

fn contains_text(v: &Vec<String>, s: &String) -> (r: bool)
    ensures
        r == views(v@).contains(s@),
{
    let mut i: usize = 0;
    while i < v.len()
        invariant
            i <= v@.len(),
            forall|k: int| 0 <= k < i ==> views(v@)[k] != s@,
        decreases v@.len() - i,
    {
        if v[i] == *s {
            assert(views(v@)[i as int] == s@);
            return true;
        }
        i = i + 1;
    }
    false
}

fn pairs_concerning<'a>(pairs: &Vec<Pairing<'a>>, person: &String) -> (r: Vec<Pairing<'a>>)
    ensures
        pairs_view(r@) == pairs_of(pairs_view(pairs@), person@),
{
    let ghost ps = pairs_view(pairs@);
    let mut out: Vec<Pairing<'a>> = Vec::new();
    let mut i: usize = 0;
    assert(pairs_view(out@) =~= pairs_of(ps.subrange(0, 0), person@));
    while i < pairs.len()
        invariant
            i <= ps.len(),
            ps == pairs_view(pairs@),
            pairs_view(out@) == pairs_of(ps.subrange(0, i as int), person@),
        decreases ps.len() - i,
    {
        let pair = pairs[i];
        assert(ps.subrange(0, i + 1).drop_last() =~= ps.subrange(0, i as int));
        assert(ps.subrange(0, i + 1).last() == pair_view(pair));
        let ghost before = pairs_view(out@);
        let keep = match pair.1 {
            Some(c) => c.who == *person,
            None => true,
        };
        if keep {
            out.push(pair);
            assert(pairs_view(out@) =~= before.push(pair_view(pair)));
        }
        i = i + 1;
    }
    assert(ps.subrange(0, i as int) =~= ps);
    out
}

/// Groups the pairs by person: each person of a cast entry gets the pairs of
/// their cast entries and every pair that has no cast entry.
pub fn get_person_to_scene_and_schedule_entry<'a>(
    schedule_to_scene_entries: &Vec<Pairing<'a>>,
) -> (r: PersonToSceneAndScheduleEntry<'a>)
    ensures
        groups_view(r@) == group_all(pairs_view(schedule_to_scene_entries@)),
{
    let ghost ps = pairs_view(schedule_to_scene_entries@);
    let mut all_persons: Vec<Person> = Vec::new();
    let mut i: usize = 0;
    assert(views(all_persons@) =~= persons_of(ps.subrange(0, 0)));
    while i < schedule_to_scene_entries.len()
        invariant
            i <= ps.len(),
            ps == pairs_view(schedule_to_scene_entries@),
            views(all_persons@) == persons_of(ps.subrange(0, i as int)),
        decreases ps.len() - i,
    {
        let pair = schedule_to_scene_entries[i];
        assert(ps.subrange(0, i + 1).drop_last() =~= ps.subrange(0, i as int));
        assert(ps.subrange(0, i + 1).last() == pair_view(pair));
        match pair.1 {
            Some(c) => {
                if !contains_text(&all_persons, &c.who) {
                    let ghost before = views(all_persons@);
                    all_persons.push(c.who.clone());
                    assert(views(all_persons@) =~= before.push(c.who@));
                }
            },
            None => {},
        }
        i = i + 1;
    }
    assert(ps.subrange(0, i as int) =~= ps);
    let ghost persons = views(all_persons@);
    let mut groups: PersonToSceneAndScheduleEntry<'a> = Vec::new();
    let mut j: usize = 0;
    while j < all_persons.len()
        invariant
            j <= all_persons@.len(),
            ps == pairs_view(schedule_to_scene_entries@),
            persons == views(all_persons@),
            persons == persons_of(ps),
            groups_view(groups@) =~= group_all(ps).subrange(0, j as int),
        decreases all_persons@.len() - j,
    {
        let person = all_persons[j].clone();
        let mine = pairs_concerning(schedule_to_scene_entries, &person);
        let ghost before = groups_view(groups@);
        groups.push((person, mine));
        assert(groups_view(groups@) =~= before.push((persons[j as int], pairs_of(ps, persons[j as int]))));
        j = j + 1;
    }
    groups
}

proof fn lemma_contains_concat<A>(a: Seq<A>, b: Seq<A>, x: A)
    ensures
        (a + b).contains(x) <==> a.contains(x) || b.contains(x),
{
    if a.contains(x) {
        let k = choose|k: int| 0 <= k < a.len() && a[k] == x;
        assert((a + b)[k] == x);
    }
    if b.contains(x) {
        let k = choose|k: int| 0 <= k < b.len() && b[k] == x;
        assert((a + b)[a.len() + k] == x);
    }
    if (a + b).contains(x) {
        let k = choose|k: int| 0 <= k < (a + b).len() && (a + b)[k] == x;
        if k < a.len() {
            assert(a[k] == x);
        } else {
            assert(b[k - a.len()] == x);
        }
    }
}

proof fn lemma_contains_push<A>(a: Seq<A>, y: A, x: A)
    ensures
        a.push(y).contains(x) <==> a.contains(x) || x == y,
{
    lemma_contains_concat(a, seq![y], x);
    assert(a.push(y) =~= a + seq![y]);
    if x == y {
        assert(seq![y][0] == x);
    }
}

proof fn lemma_matches_in_members(o: OccasionView, cast: Seq<CastView>, p: PairView)
    ensures
        matches_in(o, cast).contains(p) <==> (p.0 == o && (p.1 matches Some(c) && cast.contains(c)
            && shares_scene(listed_scenes(o.scenes), c))),
    decreases cast.len(),
{
    if cast.len() > 0 {
        lemma_matches_in_members(o, cast.drop_last(), p);
        lemma_contains_push(matches_in(o, cast.drop_last()), (o, Some(cast.last())), p);
        if let Some(c) = p.1 {
            lemma_contains_push(cast.drop_last(), cast.last(), c);
            assert(cast.drop_last().push(cast.last()) =~= cast);
        }
    }
}

/// The pairs of the matching are exactly these: an occasion that concerns
/// everybody with no cast entry, and an occasion that names scenes with
/// each cast entry that shares one of them. A cast entry that shares no
/// scene with an occasion gets no pair for it.
pub proof fn lemma_matching_fan_out(occs: Seq<OccasionView>, cast: Seq<CastView>, p: PairView)
    ensures
        match_all(occs, cast).contains(p) <==> occs.contains(p.0) && match p.1 {
            None => is_unconditional(p.0.scenes),
            Some(c) => !is_unconditional(p.0.scenes) && cast.contains(c) && shares_scene(
                listed_scenes(p.0.scenes),
                c,
            ),
        },
    decreases occs.len(),
{
    if occs.len() > 0 {
        let o = occs.last();
        lemma_matching_fan_out(occs.drop_last(), cast, p);
        lemma_contains_concat(match_all(occs.drop_last(), cast), pairs_for(o, cast), p);
        lemma_contains_push(occs.drop_last(), o, p.0);
        assert(occs.drop_last().push(o) =~= occs);
        if is_unconditional(o.scenes) {
            lemma_contains_push(Seq::<PairView>::empty(), (o, None::<CastView>), p);
            assert(seq![(o, None::<CastView>)] =~= Seq::<PairView>::empty().push((o, None::<CastView>)));
        } else {
            lemma_matches_in_members(o, cast, p);
        }
    }
}

/// Every cast entry of the matching is one of the cast entries given.
pub proof fn lemma_matching_keeps_wf(occs: Seq<OccasionView>, cast: Seq<CastView>)
    requires
        forall|k: int| 0 <= k < cast.len() ==> crate::structures::cast_wf(#[trigger] cast[k]),
    ensures
        pairs_wf(match_all(occs, cast)),
{
    let ps = match_all(occs, cast);
    assert forall|k: int| 0 <= k < ps.len() implies ((#[trigger] ps[k]).1 matches Some(c)
        ==> crate::structures::cast_wf(c)) by {
        assert(ps.contains(ps[k]));
        lemma_matching_fan_out(occs, cast, ps[k]);
    }
}

/// A pair survives the cutoff filter exactly when it was there and the
/// cutoff rule keeps it: so a pair whose cast entry plays every named scene
/// silently goes when its date is before the cutoff and stays on or after
/// it, and a pair whose occasion carries a label always stays.
pub proof fn lemma_cutoff_filter(ps: Seq<PairView>, cutoff: Date, p: PairView)
    ensures
        filter_cutoff(ps, cutoff).contains(p) <==> ps.contains(p) && kept_by_cutoff(p, cutoff),
        p.0.scenes is Special ==> (filter_cutoff(ps, cutoff).contains(p) <==> ps.contains(p)),
        (p.1 matches Some(c) && !is_unconditional(p.0.scenes) && !has_spoken_scene(
            listed_scenes(p.0.scenes),
            c,
        )) ==> (filter_cutoff(ps, cutoff).contains(p) <==> ps.contains(p) && !date_before(
            p.0.date,
            cutoff,
        )),
    decreases ps.len(),
{
    if ps.len() > 0 {
        lemma_cutoff_filter(ps.drop_last(), cutoff, p);
        lemma_contains_push(filter_cutoff(ps.drop_last(), cutoff), ps.last(), p);
        lemma_contains_push(ps.drop_last(), ps.last(), p);
        assert(ps.drop_last().push(ps.last()) =~= ps);
    }
}

/// The pair's cast entry belongs to `x`.
pub open spec fn owned_by(p: PairView, x: Seq<char>) -> bool {
    p.1 is Some && p.1->0.who == x
}

proof fn lemma_persons_members(ps: Seq<PairView>, x: Seq<char>)
    ensures
        persons_of(ps).contains(x) <==> exists|k: int|
            0 <= k < ps.len() && owned_by(#[trigger] ps[k], x),
        persons_of(ps).no_duplicates(),
    decreases ps.len(),
{
    if ps.len() > 0 {
        let prev = ps.drop_last();
        lemma_persons_members(prev, x);
        if let Some(c) = ps.last().1 {
            lemma_contains_push(persons_of(prev), c.who, x);
            if !persons_of(prev).contains(c.who) {
                assert forall|i: int, j: int|
                    0 <= i < j < persons_of(ps).len() implies persons_of(ps)[i] != persons_of(
                    ps,
                )[j] by {
                    if j == persons_of(prev).len() {
                        assert(persons_of(prev)[i] == persons_of(ps)[i]);
                    } else {
                        assert(persons_of(prev)[i] == persons_of(ps)[i]);
                        assert(persons_of(prev)[j] == persons_of(ps)[j]);
                    }
                }
            }
        }
        if exists|k: int| 0 <= k < ps.len() && owned_by(#[trigger] ps[k], x) {
            let k = choose|k: int| 0 <= k < ps.len() && owned_by(#[trigger] ps[k], x);
            if k < prev.len() {
                assert(prev[k] == ps[k]);
            }
        }
        if exists|k: int| 0 <= k < prev.len() && owned_by(#[trigger] prev[k], x) {
            let k = choose|k: int| 0 <= k < prev.len() && owned_by(#[trigger] prev[k], x);
            assert(ps[k] == prev[k]);
        }
    }
}

proof fn lemma_pairs_of_members(ps: Seq<PairView>, person: Seq<char>, p: PairView)
    ensures
        pairs_of(ps, person).contains(p) <==> ps.contains(p) && concerns(p, person),
    decreases ps.len(),
{
    if ps.len() > 0 {
        lemma_pairs_of_members(ps.drop_last(), person, p);
        lemma_contains_push(pairs_of(ps.drop_last(), person), ps.last(), p);
        lemma_contains_push(ps.drop_last(), ps.last(), p);
        assert(ps.drop_last().push(ps.last()) =~= ps);
    }
}

/// The grouping has one group per person of a cast entry, each person once;
/// a person's group holds the pairs of their cast entries and every pair
/// without a cast entry, and nothing else.
pub proof fn lemma_grouping(ps: Seq<PairView>, person: Seq<char>, p: PairView)
    ensures
        persons_of(ps).no_duplicates(),
        persons_of(ps).contains(person) <==> exists|k: int|
            0 <= k < ps.len() && owned_by(#[trigger] ps[k], person),
        pairs_of(ps, person).contains(p) <==> ps.contains(p) && (p.1 is None || p.1->0.who
            == person),
{
    lemma_persons_members(ps, person);
    lemma_pairs_of_members(ps, person, p);
}

} // verus!
