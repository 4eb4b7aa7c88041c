//! The tag editor.

use crate::text;
use crate::text::{same, starts_with, to_c, CText};
use vstd::prelude::*;

verus! {

/// The texts of a tag that the editor has a place for.
pub struct TagFields {
    pub title: String,
    pub artist: String,
    pub album: String,
    pub album_artist: String,
    pub genre: String,
    pub year: String,
    pub track_number: String,
    pub disc_number: String,
    pub bpm: String,
    pub comment: String,
    pub composer: String,
    pub original_artist: String,
    pub copyright: String,
    pub url: String,
    pub encoded_by: String,
    pub lyric: String,
    /// Where the artwork comes from; empty for none.
    pub artwork_path: String,
}

/// How many texts the editor has a place for.
pub const FIELD_COUNT: usize = 16;

/// The place of a frame among the texts, if it has one.
pub open spec fn place_of(frame: Seq<char>) -> Option<int> {
    if frame == "TIT2"@ {
        Some(0)
    } else if frame == "TPE1"@ {
        Some(1)
    } else if frame == "TALB"@ {
        Some(2)
    } else if frame == "TPE2"@ {
        Some(3)
    } else if frame == "TCON"@ {
        Some(4)
    } else if frame == "TDRC"@ {
        Some(5)
    } else if frame == "TRCK"@ {
        Some(6)
    } else if frame == "TPOS"@ {
        Some(7)
    } else if frame == "TBPM"@ {
        Some(8)
    } else if frame == "COMM"@ {
        Some(9)
    } else if frame == "TCOM"@ {
        Some(10)
    } else if frame == "TOPE"@ {
        Some(11)
    } else if frame == "TCOP"@ {
        Some(12)
    } else if frame == "WXXX"@ {
        Some(13)
    } else if frame == "TENC"@ {
        Some(14)
    } else if frame == "USLT"@ {
        Some(15)
    } else {
        None
    }
}

/// The place of a frame among the texts, if it has one.
pub fn find_place(frame: &str) -> (r: Option<usize>)
    ensures
        match r {
            Some(i) => i < FIELD_COUNT && place_of(frame@) == Some(i as int),
            None => place_of(frame@) is None,
        },
{
    if same(frame, "TIT2") {
        Some(0)
    } else if same(frame, "TPE1") {
        Some(1)
    } else if same(frame, "TALB") {
        Some(2)
    } else if same(frame, "TPE2") {
        Some(3)
    } else if same(frame, "TCON") {
        Some(4)
    } else if same(frame, "TDRC") {
        Some(5)
    } else if same(frame, "TRCK") {
        Some(6)
    } else if same(frame, "TPOS") {
        Some(7)
    } else if same(frame, "TBPM") {
        Some(8)
    } else if same(frame, "COMM") {
        Some(9)
    } else if same(frame, "TCOM") {
        Some(10)
    } else if same(frame, "TOPE") {
        Some(11)
    } else if same(frame, "TCOP") {
        Some(12)
    } else if same(frame, "WXXX") {
        Some(13)
    } else if same(frame, "TENC") {
        Some(14)
    } else if same(frame, "USLT") {
        Some(15)
    } else {
        None
    }
}

impl TagFields {
    /// The texts in their places.
    pub open spec fn texts(&self) -> Seq<Seq<char>> {
        seq![
            self.title@,
            self.artist@,
            self.album@,
            self.album_artist@,
            self.genre@,
            self.year@,
            self.track_number@,
            self.disc_number@,
            self.bpm@,
            self.comment@,
            self.composer@,
            self.original_artist@,
            self.copyright@,
            self.url@,
            self.encoded_by@,
            self.lyric@,
        ]
    }

    /// A tag without texts.
    pub fn new() -> (r: TagFields)
        ensures
            r.texts() == Seq::new(FIELD_COUNT as nat, |i: int| Seq::<char>::empty()),
            r.artwork_path@ == Seq::<char>::empty(),
    {
        let r = TagFields {
            title: String::new(),
            artist: String::new(),
            album: String::new(),
            album_artist: String::new(),
            genre: String::new(),
            year: String::new(),
            track_number: String::new(),
            disc_number: String::new(),
            bpm: String::new(),
            comment: String::new(),
            composer: String::new(),
            original_artist: String::new(),
            copyright: String::new(),
            url: String::new(),
            encoded_by: String::new(),
            lyric: String::new(),
            artwork_path: String::new(),
        };
        assert(r.title@ =~= Seq::<char>::empty());
        assert(r.artist@ =~= Seq::<char>::empty());
        assert(r.album@ =~= Seq::<char>::empty());
        assert(r.album_artist@ =~= Seq::<char>::empty());
        assert(r.genre@ =~= Seq::<char>::empty());
        assert(r.year@ =~= Seq::<char>::empty());
        assert(r.track_number@ =~= Seq::<char>::empty());
        assert(r.disc_number@ =~= Seq::<char>::empty());
        assert(r.bpm@ =~= Seq::<char>::empty());
        assert(r.comment@ =~= Seq::<char>::empty());
        assert(r.composer@ =~= Seq::<char>::empty());
        assert(r.original_artist@ =~= Seq::<char>::empty());
        assert(r.copyright@ =~= Seq::<char>::empty());
        assert(r.url@ =~= Seq::<char>::empty());
        assert(r.encoded_by@ =~= Seq::<char>::empty());
        assert(r.lyric@ =~= Seq::<char>::empty());
        assert(r.artwork_path@ =~= Seq::<char>::empty());
        assert(r.texts() =~= Seq::new(FIELD_COUNT as nat, |i: int| Seq::<char>::empty()));
        r
    }

    fn get(&self, place: usize) -> (r: &String)
        requires
            place < FIELD_COUNT,
        ensures
            r@ == self.texts()[place as int],
    {
        if place == 0 {
            &self.title
        } else if place == 1 {
            &self.artist
        } else if place == 2 {
            &self.album
        } else if place == 3 {
            &self.album_artist
        } else if place == 4 {
            &self.genre
        } else if place == 5 {
            &self.year
        } else if place == 6 {
            &self.track_number
        } else if place == 7 {
            &self.disc_number
        } else if place == 8 {
            &self.bpm
        } else if place == 9 {
            &self.comment
        } else if place == 10 {
            &self.composer
        } else if place == 11 {
            &self.original_artist
        } else if place == 12 {
            &self.copyright
        } else if place == 13 {
            &self.url
        } else if place == 14 {
            &self.encoded_by
        } else {
            &self.lyric
        }
    }

    fn set(&mut self, place: usize, value: String)
        requires
            place < FIELD_COUNT,
        ensures
            final(self).texts() == old(self).texts().update(place as int, value@),
            final(self).artwork_path == old(self).artwork_path,
    {
        if place == 0 {
            self.title = value;
        } else if place == 1 {
            self.artist = value;
        } else if place == 2 {
            self.album = value;
        } else if place == 3 {
            self.album_artist = value;
        } else if place == 4 {
            self.genre = value;
        } else if place == 5 {
            self.year = value;
        } else if place == 6 {
            self.track_number = value;
        } else if place == 7 {
            self.disc_number = value;
        } else if place == 8 {
            self.bpm = value;
        } else if place == 9 {
            self.comment = value;
        } else if place == 10 {
            self.composer = value;
        } else if place == 11 {
            self.original_artist = value;
        } else if place == 12 {
            self.copyright = value;
        } else if place == 13 {
            self.url = value;
        } else if place == 14 {
            self.encoded_by = value;
        } else {
            self.lyric = value;
        }
        assert(self.texts() =~= old(self).texts().update(place as int, value@));
    }
}

/// A frame that the editor has no place for.
pub struct ExtraFrame {
    pub id: String,
    pub value: String,
}

/// A tag that is being edited.
pub struct SparkampTagCtx {
    pub path: String,
    pub fields: TagFields,
    /// The frames without a place, as the file has them.
    pub extra_frames: Vec<ExtraFrame>,
    pub artwork: Option<Vec<u8>>,
    /// The frames without a place that were set since.
    pub pending_extra: Vec<(String, String)>,
}

/// What a tag that is being edited holds.
#[verifier::ext_equal]
pub struct TagView {
    pub path: Seq<char>,
    pub artwork: Option<Seq<u8>>,
    pub artwork_path: Seq<char>,
    pub texts: Seq<Seq<char>>,
    pub extra: Seq<(Seq<char>, Seq<char>)>,
    pub pending: Seq<(Seq<char>, Seq<char>)>,
}

impl View for SparkampTagCtx {
    type V = TagView;

    open spec fn view(&self) -> TagView {
        TagView {
            path: self.path@,
            artwork: match self.artwork {
                Some(bytes) => Some(bytes@),
                None => None,
            },
            artwork_path: self.fields.artwork_path@,
            texts: self.fields.texts(),
            extra: self.extra_frames@.map_values(|f: ExtraFrame| (f.id@, f.value@)),
            pending: self.pending_extra@.map_values(|p: (String, String)| (p.0@, p.1@)),
        }
    }
}

/// What a list says of a key last.
pub open spec fn last_said(list: Seq<(Seq<char>, Seq<char>)>, key: Seq<char>) -> Option<Seq<char>>
    decreases list.len(),
{
    if list.len() == 0 {
        None
    } else if list.last().0 == key {
        Some(list.last().1)
    } else {
        last_said(list.drop_last(), key)
    }
}

/// A list without a key.
pub open spec fn without(list: Seq<(Seq<char>, Seq<char>)>, key: Seq<char>) -> Seq<
    (Seq<char>, Seq<char>),
>
    decreases list.len(),
{
    if list.len() == 0 {
        Seq::empty()
    } else {
        let head = without(list.drop_last(), key);
        if list.last().0 == key {
            head
        } else {
            head.push(list.last())
        }
    }
}

/// What a frame of a tag says: what was set since wins over what the file has.
pub open spec fn frame_text(t: TagView, frame: Seq<char>) -> Seq<char> {
    match place_of(frame) {
        Some(i) => t.texts[i],
        None => match last_said(t.pending, frame) {
            Some(v) => v,
            None => match text::lookup(t.extra, frame) {
                Some(v) => v,
                None => Seq::empty(),
            },
        },
    }
}

/// Whether a frame can be set: one with a place, or any other text frame.
pub open spec fn settable(frame: Seq<char>) -> bool {
    place_of(frame) is Some || "T"@.is_prefix_of(frame)
}

/// A tag with a frame set. A frame that cannot be set changes nothing.
pub open spec fn frame_set(t: TagView, frame: Seq<char>, value: Seq<char>) -> TagView {
    match place_of(frame) {
        Some(i) => TagView { texts: t.texts.update(i, value), ..t },
        None => if settable(frame) {
            TagView { pending: without(t.pending, frame).push((frame, value)), ..t }
        } else {
            t
        },
    }
}

proof fn lemma_without(list: Seq<(Seq<char>, Seq<char>)>, key: Seq<char>, other: Seq<char>)
    ensures
        last_said(without(list, key), key) is None,
        other != key ==> last_said(without(list, key), other) == last_said(list, other),
        forall|k: int|
            0 <= k < without(list, key).len() ==> (#[trigger] without(list, key)[k]).0 != key,
    decreases list.len(),
{
    if list.len() > 0 {
        let head = list.drop_last();
        lemma_without(head, key, other);
        if list.last().0 != key {
            assert(without(list, key).drop_last() =~= without(head, key));
        }
    }
}

/// Two frames with a place have the same place only where they are the same.
proof fn lemma_places_differ(a: Seq<char>, b: Seq<char>)
    requires
        place_of(a) is Some,
        place_of(a) == place_of(b),
    ensures
        a == b,
{
}

/// A frame that was set says what it was set to, until it is set again; every
/// other frame says what it said.
pub proof fn law_a_frame_says_what_it_was_set_to(
    t: TagView,
    frame: Seq<char>,
    value: Seq<char>,
    other: Seq<char>,
)
    requires
        t.texts.len() == FIELD_COUNT,
    ensures
        settable(frame) ==> frame_text(frame_set(t, frame, value), frame) == value,
        other != frame ==> frame_text(frame_set(t, frame, value), other) == frame_text(t, other),
{
    let after = frame_set(t, frame, value);
    if place_of(frame) is None && settable(frame) {
        lemma_without(t.pending, frame, other);
        assert(after.pending.drop_last() =~= without(t.pending, frame));
    }
    if other != frame && place_of(other) is Some && place_of(other) == place_of(frame) {
        lemma_places_differ(other, frame);
    }
}

/// Setting a frame twice is setting it to the second value.
pub proof fn law_the_last_write_wins(t: TagView, frame: Seq<char>, a: Seq<char>, b: Seq<char>)
    requires
        t.texts.len() == FIELD_COUNT,
    ensures
        frame_set(frame_set(t, frame, a), frame, b) == frame_set(t, frame, b),
{
    let once = frame_set(t, frame, a);
    match place_of(frame) {
        Some(i) => {
            assert(once.texts.update(i, b) =~= t.texts.update(i, b));
        },
        None => if settable(frame) {
            let rest = without(t.pending, frame);
            lemma_without(t.pending, frame, frame);
            lemma_without_absent(rest, frame);
            assert(once.pending.drop_last() =~= rest);
        },
    }
}

proof fn lemma_without_absent(list: Seq<(Seq<char>, Seq<char>)>, key: Seq<char>)
    requires
        forall|k: int| 0 <= k < list.len() ==> (#[trigger] list[k]).0 != key,
    ensures
        without(list, key) == list,
    decreases list.len(),
{
    if list.len() > 0 {
        let head = list.drop_last();
        assert forall|k: int| 0 <= k < head.len() implies (#[trigger] head[k]).0 != key by {
            assert(head[k] == list[k]);
        }
        lemma_without_absent(head, key);
        assert(list[list.len() - 1].0 != key);
        assert(head.push(list.last()) =~= list);
    } else {
        assert(without(list, key) =~= list);
    }
}

/// Opens a tag; nothing without a readable path. The rest is what the file has.
pub fn sparkamp_tag_open(
    path: &CText,
    fields: TagFields,
    extra_frames: Vec<ExtraFrame>,
    artwork: Option<Vec<u8>>,
) -> (r: Option<SparkampTagCtx>)
    ensures
        match (r, path) {
            (Some(tag), CText::Text(p)) => {
                &&& tag.path@ == p@
                &&& tag.fields == fields
                &&& tag.extra_frames == extra_frames
                &&& tag.artwork == artwork
                &&& tag.pending_extra@.len() == 0
            },
            (None, CText::Text(_)) => false,
            (Some(_), _) => false,
            (None, _) => true,
        },
{
    match path {
        CText::Text(p) => Some(
            SparkampTagCtx {
                path: p.clone(),
                fields,
                extra_frames,
                artwork,
                pending_extra: Vec::new(),
            },
        ),
        _ => None,
    }
}

fn pending_value(tag: &SparkampTagCtx, frame: &str) -> (r: Option<String>)
    ensures
        last_said(tag@.pending, frame@) == (match r {
            Some(v) => Some(v@),
            None => None,
        }),
{
    let ghost list = tag@.pending;
    let mut i: usize = tag.pending_extra.len();
    assert(list.subrange(0, i as int) =~= list);
    while i > 0
        invariant
            i <= tag.pending_extra@.len(),
            list == tag@.pending,
            last_said(list, frame@) == last_said(list.subrange(0, i as int), frame@),
        decreases i,
    {
        let ghost head = list.subrange(0, i as int);
        assert(head.drop_last() =~= list.subrange(0, i - 1));
        i -= 1;
        assert(head.last() == (tag.pending_extra@[i as int].0@, tag.pending_extra@[i as int].1@));
        if same(tag.pending_extra[i].0.as_str(), frame) {
            return Some(tag.pending_extra[i].1.clone());
        }
    }
    None
}

fn extra_value(tag: &SparkampTagCtx, frame: &str) -> (r: Option<String>)
    ensures
        text::lookup(tag@.extra, frame@) == (match r {
            Some(v) => Some(v@),
            None => None,
        }),
{
    let ghost list = tag@.extra;
    let n: usize = tag.extra_frames.len();
    let mut i: usize = 0;
    assert(list.subrange(0, n as int) =~= list);
    while i < n
        invariant
            i <= n,
            n == tag.extra_frames@.len(),
            list == tag@.extra,
            text::lookup(list, frame@) == text::lookup(list.subrange(i as int, n as int), frame@),
        decreases n - i,
    {
        let ghost rest = list.subrange(i as int, n as int);
        assert(rest[0] == (tag.extra_frames@[i as int].id@, tag.extra_frames@[i as int].value@));
        assert(rest.subrange(1, rest.len() as int) =~= list.subrange(i + 1, n as int));
        if same(tag.extra_frames[i].id.as_str(), frame) {
            return Some(tag.extra_frames[i].value.clone());
        }
        i += 1;
    }
    None
}

/// What a frame says, empty where it says nothing.
pub fn sparkamp_tag_get(tag: Option<&SparkampTagCtx>, frame_id: Option<&str>) -> (r: String)
    ensures
        r@ == (match (tag, frame_id) {
            (Some(t), Some(f)) => text::c_text(frame_text(t@, f@)),
            _ => Seq::empty(),
        }),
{
    let none = String::new();
    assert(none@ =~= Seq::empty());
    let t = match tag {
        Some(t) => t,
        None => return none,
    };
    let frame = match frame_id {
        Some(f) => f,
        None => return none,
    };
    match find_place(frame) {
        Some(i) => to_c(t.fields.get(i).as_str()),
        None => match pending_value(t, frame) {
            Some(v) => to_c(v.as_str()),
            None => match extra_value(t, frame) {
                Some(v) => to_c(v.as_str()),
                None => {
                    assert(text::c_text(none@) =~= Seq::empty());
                    none
                },
            },
        },
    }
}

fn drop_pending(tag: &mut SparkampTagCtx, frame: &str)
    ensures
        final(tag)@ == (TagView { pending: without(old(tag)@.pending, frame@), ..old(tag)@ }),
        final(tag).path == old(tag).path,
        final(tag).fields == old(tag).fields,
        final(tag).extra_frames == old(tag).extra_frames,
        final(tag).artwork == old(tag).artwork,
{
    let ghost list = tag@.pending;
    let mut kept: Vec<(String, String)> = Vec::new();
    let n: usize = tag.pending_extra.len();
    let mut i: usize = 0;
    let ghost held = kept@.map_values(|p: (String, String)| (p.0@, p.1@));
    assert(held =~= Seq::empty());
    assert(list.subrange(0, 0) =~= Seq::empty());
    while i < n
        invariant
            i <= n,
            n == tag.pending_extra@.len(),
            *tag == *old(tag),
            list == tag@.pending,
            held == kept@.map_values(|p: (String, String)| (p.0@, p.1@)),
            held == without(list.subrange(0, i as int), frame@),
        decreases n - i,
    {
        let ghost head = list.subrange(0, i + 1);
        assert(head.drop_last() =~= list.subrange(0, i as int));
        assert(head.last() == (tag.pending_extra@[i as int].0@, tag.pending_extra@[i as int].1@));
        if !same(tag.pending_extra[i].0.as_str(), frame) {
            kept.push((tag.pending_extra[i].0.clone(), tag.pending_extra[i].1.clone()));
            proof {
                let more = kept@.map_values(|p: (String, String)| (p.0@, p.1@));
                assert(more =~= held.push(head.last()));
                held = more;
            }
        }
        i += 1;
    }
    assert(list.subrange(0, n as int) =~= list);
    tag.pending_extra = kept;
}

/// Sets a frame. One that cannot be set, and anything missing, changes nothing.
pub fn sparkamp_tag_set(
    tag: Option<&mut SparkampTagCtx>,
    frame_id: Option<&str>,
    value: Option<&str>,
)
    ensures
        tag matches Some(t) ==> {
            &&& final(t)@ == (match (frame_id, value) {
                (Some(f), Some(v)) => frame_set(t@, f@, v@),
                _ => t@,
            })
            &&& final(t).path == t.path
            &&& final(t).artwork == t.artwork
            &&& final(t).fields.artwork_path == t.fields.artwork_path
        },
{
    let t = match tag {
        Some(t) => t,
        None => return,
    };
    let frame = match frame_id {
        Some(f) => f,
        None => return,
    };
    let value = match value {
        Some(v) => v,
        None => return,
    };
    match find_place(frame) {
        Some(i) => t.fields.set(i, value.to_owned()),
        None => if starts_with(frame, "T") {
            let ghost before = t@;
            drop_pending(t, frame);
            t.pending_extra.push((frame.to_owned(), value.to_owned()));
            assert(t@.pending =~= without(before.pending, frame@).push((frame@, value@)));
        },
    }
}

/// How many frames without a place the file has, cut to the width that crosses.
pub fn sparkamp_tag_frame_count(tag: Option<&SparkampTagCtx>) -> (r: i32)
    ensures
        r == (match tag {
            Some(t) => t.extra_frames@.len() as i32,
            None => 0,
        }),
{
    match tag {
        Some(t) => {
            #[verifier::truncate]
            (t.extra_frames.len() as i32)
        },
        None => 0,
    }
}

/// A frame of the file without a place.
pub open spec fn extra_at(tag: Option<&SparkampTagCtx>, index: i32) -> Option<ExtraFrame> {
    match tag {
        Some(t) if 0 <= index < t.extra_frames@.len() => Some(t.extra_frames@[index as int]),
        _ => None,
    }
}

/// The name of a frame without a place, empty out of range.
pub fn sparkamp_tag_frame_id(tag: Option<&SparkampTagCtx>, index: i32) -> (r: String)
    ensures
        r@ == (match extra_at(tag, index) {
            Some(f) => text::c_text(f.id@),
            None => Seq::empty(),
        }),
{
    if let Some(t) = tag {
        if index >= 0 && (index as usize) < t.extra_frames.len() {
            return to_c(t.extra_frames[index as usize].id.as_str());
        }
    }
    let none = String::new();
    assert(none@ =~= Seq::empty());
    none
}

/// What a frame without a place says, empty out of range.
pub fn sparkamp_tag_frame_value(tag: Option<&SparkampTagCtx>, index: i32) -> (r: String)
    ensures
        r@ == (match extra_at(tag, index) {
            Some(f) => text::c_text(f.value@),
            None => Seq::empty(),
        }),
{
    if let Some(t) = tag {
        if index >= 0 && (index as usize) < t.extra_frames.len() {
            return to_c(t.extra_frames[index as usize].value.as_str());
        }
    }
    let none = String::new();
    assert(none@ =~= Seq::empty());
    none
}

/// What happened while a tag was saved.
#[derive(Debug, Clone, Copy, PartialEq, Eq, Structural)]
pub enum SaveEvent {
    /// It was asked for; whether the file is read-only, where that could be told.
    Asked(Option<bool>),
    /// The texts were written, or not.
    FieldsWritten(bool),
    /// So many of the frames set since were written, and the last one was, or
    /// was not.
    ExtraWritten(usize, bool),
}

/// What saving a tag does next.
#[derive(Debug, Clone, Copy, PartialEq, Eq, Structural)]
pub enum SaveStep {
    /// The texts are to be written.
    WriteFields,
    /// This one of the frames set since is to be written.
    WriteExtra(usize),
    /// It is over: 0 where all was written, minus one where the file cannot be,
    /// minus two where writing failed.
    Done(i32),
}

/// What saving a tag does next: a file that cannot be written is not touched, the
/// texts come first, then the frames set since in their order, and the first
/// failure ends it.
pub open spec fn save_step(pending: nat, e: SaveEvent) -> SaveStep {
    match e {
        SaveEvent::Asked(read_only) => if read_only == Some(false) {
            SaveStep::WriteFields
        } else {
            SaveStep::Done(-1i32)
        },
        SaveEvent::FieldsWritten(ok) => if !ok {
            SaveStep::Done(-2i32)
        } else if pending > 0 {
            SaveStep::WriteExtra(0)
        } else {
            SaveStep::Done(0)
        },
        SaveEvent::ExtraWritten(n, ok) => if !ok {
            SaveStep::Done(-2i32)
        } else if n < pending {
            SaveStep::WriteExtra(n)
        } else {
            SaveStep::Done(0)
        },
    }
}

/// What saving a tag does next; minus two without one.
pub fn sparkamp_tag_save(tag: Option<&SparkampTagCtx>, event: SaveEvent) -> (r: SaveStep)
    ensures
        r == (match tag {
            Some(t) => save_step(t.pending_extra@.len(), event),
            None => SaveStep::Done(-2i32),
        }),
{
    let t = match tag {
        Some(t) => t,
        None => return SaveStep::Done(-2i32),
    };
    match event {
        SaveEvent::Asked(read_only) => match read_only {
            Some(false) => SaveStep::WriteFields,
            _ => SaveStep::Done(-1i32),
        },
        SaveEvent::FieldsWritten(ok) => if !ok {
            SaveStep::Done(-2i32)
        } else if t.pending_extra.len() > 0 {
            SaveStep::WriteExtra(0)
        } else {
            SaveStep::Done(0)
        },
        SaveEvent::ExtraWritten(n, ok) => if !ok {
            SaveStep::Done(-2i32)
        } else if n < t.pending_extra.len() {
            SaveStep::WriteExtra(n)
        } else {
            SaveStep::Done(0)
        },
    }
}

/// A save that says that all was written wrote the texts and every frame that was
/// set since: it ends well only after the last of them, and asks for each in
/// turn.
pub proof fn law_a_good_save_wrote_everything(pending: nat, e: SaveEvent)
    requires
        save_step(pending, e) == SaveStep::Done(0),
    ensures
        match e {
            SaveEvent::Asked(_) => false,
            SaveEvent::FieldsWritten(ok) => ok && pending == 0,
            SaveEvent::ExtraWritten(n, ok) => ok && n >= pending,
        },
{
}

/// Says where the artwork of the next save comes from; a missing or unreadable
/// path is none.
pub fn sparkamp_tag_set_artwork(tag: Option<&mut SparkampTagCtx>, path: &CText)
    ensures
        tag matches Some(t) ==> {
            &&& final(t).fields.artwork_path@ == text::c_given(*path)
            &&& *final(t) == (SparkampTagCtx {
                fields: TagFields { artwork_path: final(t).fields.artwork_path, ..t.fields },
                ..*t
            })
        },
{
    if let Some(t) = tag {
        t.fields.artwork_path = text::c_or_empty(path);
    }
}

/// The next save removes the artwork.
pub fn sparkamp_tag_clear_artwork(tag: Option<&mut SparkampTagCtx>)
    ensures
        tag matches Some(t) ==> {
            &&& final(t).fields.artwork_path@ == Seq::<char>::empty()
            &&& *final(t) == (SparkampTagCtx {
                fields: TagFields { artwork_path: final(t).fields.artwork_path, ..t.fields },
                ..*t
            })
        },
{
    if let Some(t) = tag {
        t.fields.artwork_path = String::new();
        assert(t.fields.artwork_path@ =~= Seq::<char>::empty());
    }
}

/// The artwork that the file has.
pub fn sparkamp_tag_get_artwork_data(tag: Option<&SparkampTagCtx>) -> (r: Option<Vec<u8>>)
    ensures
        match tag {
            Some(t) => match t.artwork {
                Some(bytes) => r matches Some(copy) && copy@ == bytes@,
                None => r is None,
            },
            None => r is None,
        },
{
    match tag {
        Some(t) => match &t.artwork {
            Some(bytes) => {
                let copy = bytes.clone();
                assert(copy@ =~= bytes@);
                Some(copy)
            },
            None => None,
        },
        None => None,
    }
}

/// Each of the sixteen frames that have a field of their own is read and set in that field:
/// title, artist, album, album artist, genre, year, track, disc, beats, comment, composer,
/// original artist, copyright, address, encoder and lyric.
pub proof fn law_each_frame_has_its_own_field(f: TagFields, t: TagView)
    requires
        t.texts == f.texts(),
    ensures
        frame_text(t, "TIT2"@) == f.title@,
        frame_text(t, "TPE1"@) == f.artist@,
        frame_text(t, "TALB"@) == f.album@,
        frame_text(t, "TPE2"@) == f.album_artist@,
        frame_text(t, "TCON"@) == f.genre@,
        frame_text(t, "TDRC"@) == f.year@,
        frame_text(t, "TRCK"@) == f.track_number@,
        frame_text(t, "TPOS"@) == f.disc_number@,
        frame_text(t, "TBPM"@) == f.bpm@,
        frame_text(t, "COMM"@) == f.comment@,
        frame_text(t, "TCOM"@) == f.composer@,
        frame_text(t, "TOPE"@) == f.original_artist@,
        frame_text(t, "TCOP"@) == f.copyright@,
        frame_text(t, "WXXX"@) == f.url@,
        frame_text(t, "TENC"@) == f.encoded_by@,
        frame_text(t, "USLT"@) == f.lyric@,
{
    reveal_strlit("TIT2");
    reveal_strlit("TPE1");
    reveal_strlit("TALB");
    reveal_strlit("TPE2");
    reveal_strlit("TCON");
    reveal_strlit("TDRC");
    reveal_strlit("TRCK");
    reveal_strlit("TPOS");
    reveal_strlit("TBPM");
    reveal_strlit("COMM");
    reveal_strlit("TCOM");
    reveal_strlit("TOPE");
    reveal_strlit("TCOP");
    reveal_strlit("WXXX");
    reveal_strlit("TENC");
    reveal_strlit("USLT");
    assert("TIT2"@[1] == 'I');
    assert("TPE1"@[1] == 'P' && "TPE1"@[2] == 'E' && "TPE1"@[3] == '1');
    assert("TALB"@[1] == 'A');
    assert("TPE2"@[1] == 'P' && "TPE2"@[2] == 'E' && "TPE2"@[3] == '2');
    assert("TCON"@[1] == 'C' && "TCON"@[2] == 'O' && "TCON"@[3] == 'N');
    assert("TDRC"@[1] == 'D');
    assert("TRCK"@[1] == 'R');
    assert("TPOS"@[1] == 'P' && "TPOS"@[2] == 'O');
    assert("TBPM"@[1] == 'B');
    assert("COMM"@[0] == 'C');
    assert("TCOM"@[0] == 'T' && "TCOM"@[1] == 'C' && "TCOM"@[2] == 'O' && "TCOM"@[3] == 'M');
    assert("TOPE"@[1] == 'O');
    assert("TCOP"@[1] == 'C' && "TCOP"@[2] == 'O' && "TCOP"@[3] == 'P');
    assert("WXXX"@[0] == 'W');
    assert("TENC"@[1] == 'E');
    assert("USLT"@[0] == 'U');
    assert("TIT2"@[0] == 'T' && "TPE1"@[0] == 'T' && "TALB"@[0] == 'T' && "TPE2"@[0] == 'T');
}

/// A frame without a field of its own says what was last written to it, and what the file
/// said until then; one that neither speaks of is empty.
pub proof fn law_a_frame_says_the_latest(t: TagView, frame: Seq<char>)
    requires
        place_of(frame) is None,
    ensures
        last_said(t.pending, frame) matches Some(v) ==> frame_text(t, frame) == v,
        last_said(t.pending, frame) is None ==> match text::lookup(t.extra, frame) {
            Some(v) => frame_text(t, frame) == v,
            None => frame_text(t, frame).len() == 0,
        },
{
}

/// What is said last of a key is the value of the last entry that has it.
pub proof fn law_the_last_entry_of_a_key_is_heard(
    list: Seq<(Seq<char>, Seq<char>)>,
    key: Seq<char>,
    value: Seq<char>,
    other: Seq<char>,
)
    requires
        other != key,
    ensures
        last_said(list.push((key, value)), key) == Some(value),
        last_said(list.push((key, value)), other) == last_said(list, other),
        last_said(Seq::empty(), key) is None,
{
    assert(list.push((key, value)).drop_last() =~= list);
}

/// Taking a key out of a list leaves the other entries, in their order.
pub proof fn law_taking_a_key_out_leaves_the_others(
    list: Seq<(Seq<char>, Seq<char>)>,
    key: Seq<char>,
    e: (Seq<char>, Seq<char>),
)
    ensures
        e.0 != key ==> without(list.push(e), key) == without(list, key).push(e),
        e.0 == key ==> without(list.push(e), key) == without(list, key),
        without(Seq::empty(), key).len() == 0,
{
    assert(list.push(e).drop_last() =~= list);
}

/// A text frame can be set, whether it has a field of its own or not; of the others only
/// those that have one, and setting any other changes nothing.
pub proof fn law_what_can_be_set(t: TagView, frame: Seq<char>, value: Seq<char>)
    ensures
        frame.len() > 0 && frame[0] == 'T' ==> settable(frame),
        frame.len() == 0 ==> !settable(frame),
        frame.len() > 0 && frame[0] != 'T' && place_of(frame) is None ==> !settable(frame) && frame_set(
            t,
            frame,
            value,
        ) == t,
{
    reveal_strlit("T");
    lemma_named_frames_are_four_long(frame);
    if frame.len() > 0 {
        assert(frame.subrange(0, 1)[0] == frame[0]);
        if frame[0] == 'T' {
            assert(frame.subrange(0, 1) =~= "T"@);
        }
    }
}

proof fn lemma_named_frames_are_four_long(frame: Seq<char>)
    ensures
        place_of(frame) is Some ==> frame.len() == 4,
{
    reveal_strlit("TIT2");
    reveal_strlit("TPE1");
    reveal_strlit("TALB");
    reveal_strlit("TPE2");
    reveal_strlit("TCON");
    reveal_strlit("TDRC");
    reveal_strlit("TRCK");
    reveal_strlit("TPOS");
    reveal_strlit("TBPM");
    reveal_strlit("COMM");
    reveal_strlit("TCOM");
    reveal_strlit("TOPE");
    reveal_strlit("TCOP");
    reveal_strlit("WXXX");
    reveal_strlit("TENC");
    reveal_strlit("USLT");
}

/// A save writes the fields first and then each pending frame in its turn; a file that is
/// read-only, or of which that is not known, is refused with one number and a write that
/// fails with another, and nothing is written after that.
pub proof fn law_a_save_writes_in_turn(pending: nat, n: nat)
    requires
        n <= usize::MAX,
    ensures
        save_step(pending, SaveEvent::Asked(Some(false))) == SaveStep::WriteFields,
        save_step(pending, SaveEvent::Asked(Some(true))) == SaveStep::Done(-1i32),
        save_step(pending, SaveEvent::Asked(None)) == SaveStep::Done(-1i32),
        save_step(pending, SaveEvent::FieldsWritten(false)) == SaveStep::Done(-2i32),
        pending > 0 ==> save_step(pending, SaveEvent::FieldsWritten(true)) == SaveStep::WriteExtra(0),
        pending == 0 ==> save_step(pending, SaveEvent::FieldsWritten(true)) == SaveStep::Done(0),
        save_step(pending, SaveEvent::ExtraWritten(n as usize, false)) == SaveStep::Done(-2i32),
        n < pending ==> save_step(pending, SaveEvent::ExtraWritten(n as usize, true))
            == SaveStep::WriteExtra(n as usize),
        n >= pending ==> save_step(pending, SaveEvent::ExtraWritten(n as usize, true))
            == SaveStep::Done(0),
{
}

/// A further frame is found by its place, and there is none before the first, behind the
/// last or without a tag.
pub proof fn law_a_further_frame_is_found_by_its_place(tag: &SparkampTagCtx, index: i32)
    ensures
        0 <= index < tag.extra_frames@.len() ==> extra_at(Some(tag), index) == Some(
            tag.extra_frames@[index as int],
        ),
        index < 0 ==> extra_at(Some(tag), index) is None,
        index >= tag.extra_frames@.len() ==> extra_at(Some(tag), index) is None,
        extra_at(None, index) is None,
{
}

} // verus!
