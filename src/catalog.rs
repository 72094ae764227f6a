use vstd::prelude::*;
use crate::json::same_chars;
use crate::text::{chars_of, string_of};

verus! {

/// An event of the game calendar, with its activity window as RFC 3339 text.
#[derive(Clone, Debug, PartialEq, Eq)]
pub struct CalendarEvent {
    pub active_since: String,
    pub active_until: String,
    pub event_type: String,
}

/// Difficulty of a track per instrument, 0 to 6 where known.
#[derive(Clone, Debug, PartialEq, Eq)]
pub struct SparkTrackIntensities {
    pub plastic_bass: Option<u32>,
    pub plastic_drums: Option<u32>,
    pub plastic_guitar: Option<u32>,
    pub vocals: Option<u32>,
    pub guitar: Option<u32>,
    pub drums: Option<u32>,
    pub bass: Option<u32>,
}

/// A track of the song catalogue.
#[derive(Clone, Debug, PartialEq, Eq)]
pub struct SparkTrack {
    pub uuid: String,
    pub slug: String,
    pub title: String,
    pub artist: String,
    pub album: Option<String>,
    pub release_year: usize,
    pub tempo: usize,
    pub midi_url: String,
    pub duration: usize,
    pub instrument_vocals: String,
    pub instrument_bass: String,
    pub instrument_drums: String,
    pub instrument_guitar: String,
    pub art_url: String,
    pub internal_id: String,
    pub lipsync_url: Option<String>,
    pub jamcode: Option<String>,
    pub genres: Option<Vec<String>>,
    pub mode: String,
    pub key: String,
    pub intensities: SparkTrackIntensities,
    pub quickplay: String,
    pub tags: Option<Vec<String>>,
}

/// `p` occurs in `s` at position `i`.
pub open spec fn has_prefix_at(s: Seq<char>, i: int, p: Seq<char>) -> bool {
    0 <= i && i + p.len() <= s.len() && s.subrange(i, i + p.len()) == p
}

/// The start of `s` up to the first `PilgrimSong.` in it, or all of `s`.
pub open spec fn until_marker(s: Seq<char>) -> Seq<char>
    decreases s.len(),
{
    if s.len() == 0 || has_prefix_at(s, 0, "PilgrimSong."@) {
        Seq::empty()
    } else {
        seq![s[0]] + until_marker(s.drop_first())
    }
}

/// The song id that an event type names: what follows its leading
/// `PilgrimSong.`, up to the next `PilgrimSong.` or the end.
pub open spec fn pilgrim_id_of(event_type: Seq<char>) -> Option<Seq<char>> {
    let p = "PilgrimSong."@;
    if has_prefix_at(event_type, 0, p) {
        Some(until_marker(event_type.subrange(p.len() as int, event_type.len() as int)))
    } else {
        None
    }
}

/// An event type that starts with `PilgrimSong` also starts with `PilgrimSong.`:
/// the form the calendar gives featured-song events.
pub open spec fn well_named(event_type: Seq<char>) -> bool {
    has_prefix_at(event_type, 0, "PilgrimSong"@) ==> has_prefix_at(event_type, 0, "PilgrimSong."@)
}

/// The song ids of the featured-song events among `events`, in order.
pub open spec fn pilgrim_ids_of(events: Seq<Seq<char>>) -> Seq<Seq<char>>
    decreases events.len(),
{
    if events.len() == 0 {
        Seq::empty()
    } else {
        let rest = pilgrim_ids_of(events.drop_last());
        match pilgrim_id_of(events.last()) {
            Some(id) => rest.push(id),
            None => rest,
        }
    }
}

pub open spec fn event_types(events: Seq<CalendarEvent>) -> Seq<Seq<char>> {
    events.map_values(|e: CalendarEvent| e.event_type@)
}

pub open spec fn strings_view(v: Seq<String>) -> Seq<Seq<char>> {
    v.map_values(|s: String| s@)
}

fn prefix_at(t: &Vec<char>, i: usize, p: &Vec<char>) -> (r: bool)
    ensures
        r == has_prefix_at(t@, i as int, p@),
{
    if i > t.len() || p.len() > t.len() - i {
        return false;
    }
    let n = t.len();
    let mut k: usize = 0;
    while k < p.len()
        invariant
            n == t@.len(),
            i as int + p@.len() <= n,
            i <= t@.len(),
            k <= p@.len(),
            forall|m: int| 0 <= m < k ==> t@[i + m] == p@[m],
        decreases p@.len() - k,
    {
        if t[i + k] != p[k] {
            assert(t@.subrange(i as int, i + p@.len())[k as int] != p@[k as int]);
            return false;
        }
        k = k + 1;
    }
    assert(t@.subrange(i as int, i + p@.len()) =~= p@);
    true
}

/// The song id named by one event type, if it names one.
pub fn pilgrim_song_id(event_type: &str) -> (r: Option<String>)
    ensures
        match r {
            Some(id) => pilgrim_id_of(event_type@) == Some(id@),
            None => pilgrim_id_of(event_type@) is None,
        },
{
    let t = chars_of(event_type);
    let p = chars_of("PilgrimSong.");
    if !prefix_at(&t, 0, &p) {
        return None;
    }
    let ghost rest = t@.subrange(p@.len() as int, t@.len() as int);
    let mut out: Vec<char> = Vec::new();
    let mut i: usize = p.len();
    assert(t@.subrange(i as int, t@.len() as int) =~= rest);
    while i < t.len() && !prefix_at(&t, i, &p)
        invariant
            p@.len() <= i <= t@.len(),
            p@ == "PilgrimSong."@,
            until_marker(rest) == out@ + until_marker(t@.subrange(i as int, t@.len() as int)),
        decreases t@.len() - i,
    {
        let ghost s = t@.subrange(i as int, t@.len() as int);
        assert(s.subrange(0, p@.len() as int) =~= t@.subrange(i as int, i + p@.len()) || i + p@.len()
            > t@.len());
        assert(!has_prefix_at(s, 0, p@));
        assert(s.drop_first() =~= t@.subrange(i + 1, t@.len() as int));
        let ghost before = out@;
        out.push(t[i]);
        assert(before + (seq![t@[i as int]] + until_marker(s.drop_first())) =~= out@ + until_marker(
            s.drop_first(),
        ));
        i = i + 1;
    }
    proof {
        let s = t@.subrange(i as int, t@.len() as int);
        if i < t@.len() {
            assert(s.subrange(0, p@.len() as int) =~= t@.subrange(i as int, i + p@.len()));
        }
        assert(until_marker(s) == Seq::<char>::empty());
        assert(out@ + Seq::<char>::empty() =~= out@);
    }
    Some(string_of(&out))
}

/// The song ids of the featured-song events, in calendar order.
pub fn pilgrim_song_ids(events: &Vec<CalendarEvent>) -> (r: Vec<String>)
    requires
        forall|i: int| 0 <= i < events@.len() ==> well_named(#[trigger] events@[i].event_type@),
    ensures
        strings_view(r@) == pilgrim_ids_of(event_types(events@)),
{
    let mut r: Vec<String> = Vec::new();
    let mut i: usize = 0;
    while i < events.len()
        invariant
            i <= events@.len(),
            strings_view(r@) == pilgrim_ids_of(event_types(events@.subrange(0, i as int))),
        decreases events@.len() - i,
    {
        let ghost before = r@;
        assert(event_types(events@.subrange(0, i + 1)).drop_last() =~= event_types(
            events@.subrange(0, i as int),
        ));
        match pilgrim_song_id(events[i].event_type.as_str()) {
            Some(id) => {
                r.push(id);
                assert(strings_view(r@) =~= strings_view(before).push(r@.last()@));
            },
            None => {},
        }
        i = i + 1;
    }
    assert(events@.subrange(0, events@.len() as int) =~= events@);
    r
}

/// Whether a key of the catalogue names a track: not starting with `_`, and
/// not `lastModified`.
pub fn is_track_key(key: &str) -> (r: bool)
    requires
        key@.len() > 0,
    ensures
        r == (key@[0] != '_' && key@ != "lastModified"@),
{
    let k = chars_of(key);
    if k[0] == '_' {
        return false;
    }
    !same_chars(&k, &chars_of("lastModified"))
}

} // verus!
