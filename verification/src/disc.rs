//! Audio-disc pseudo-URIs, `cdda://<track>?device=<drive>`.

use crate::text;
use crate::text::{find, starts_with, to_decimal};
use vstd::prelude::*;

verus! {

/// What a disc pseudo-URI begins with.
pub open spec fn cdda_scheme() -> Seq<char> {
    "cdda://"@
}

/// What stands between the track and the drive.
pub open spec fn device_mark() -> Seq<char> {
    "?device="@
}

/// Whether `uri` names a track of an audio disc.
pub open spec fn is_cdda(uri: Seq<char>) -> bool {
    cdda_scheme().is_prefix_of(uri)
}

/// What follows the scheme.
pub open spec fn after_scheme(uri: Seq<char>) -> Seq<char> {
    uri.subrange(7, uri.len() as int)
}

/// The track part of a disc pseudo-URI: all up to the first drive mark.
pub open spec fn cdda_track(uri: Seq<char>) -> Seq<char> {
    let rest = after_scheme(uri);
    if text::nowhere(rest, device_mark()) {
        rest
    } else {
        rest.subrange(0, choose|i: int| text::first_at(rest, device_mark(), i))
    }
}

/// The drive of a disc pseudo-URI: all past the first drive mark.
pub open spec fn cdda_device(uri: Seq<char>) -> Option<Seq<char>> {
    let rest = after_scheme(uri);
    if text::nowhere(rest, device_mark()) {
        None
    } else {
        Some(rest.subrange((choose|i: int| text::first_at(rest, device_mark(), i)) + 8, rest.len() as int))
    }
}

/// A text has one first place at most.
pub proof fn lemma_first_at_unique(hay: Seq<char>, needle: Seq<char>, i: int, j: int)
    requires
        text::first_at(hay, needle, i),
        text::first_at(hay, needle, j),
    ensures
        i == j,
{
}

/// Splits a disc pseudo-URI into its track and its drive. `None` for any other
/// text.
pub fn parse_cdda_uri(uri: &str) -> (r: Option<(String, Option<String>)>)
    ensures
        match r {
            Some((track, device)) => {
                &&& is_cdda(uri@)
                &&& track@ == cdda_track(uri@)
                &&& match device {
                    Some(d) => cdda_device(uri@) == Some(d@),
                    None => cdda_device(uri@) is None,
                }
            },
            None => !is_cdda(uri@),
        },
{
    if !starts_with(uri, "cdda://") {
        return None;
    }
    proof {
        reveal_strlit("cdda://");
        reveal_strlit("?device=");
    }
    let n: usize = uri.unicode_len();
    let rest = uri.substring_char(7, n);
    let m: usize = rest.unicode_len();
    match find(rest, "?device=") {
        None => Some((rest.to_owned(), None)),
        Some(i) => {
            proof {
                let c = choose|k: int| text::first_at(rest@, device_mark(), k);
                lemma_first_at_unique(rest@, device_mark(), c, i as int);
                assert(rest@.subrange(i as int, i + 8) == device_mark());
                assert(!text::nowhere(rest@, device_mark()));
            }
            let track = rest.substring_char(0, i).to_owned();
            let device = rest.substring_char(i + 8, m).to_owned();
            Some((track, Some(device)))
        },
    }
}

/// Whether `path` names a track of an audio disc rather than a file.
pub fn is_disc_uri(path: &str) -> (r: bool)
    ensures
        r == is_cdda(path@),
{
    starts_with(path, "cdda://")
}

/// One track of a disc's table of contents.
#[derive(Debug, Clone, Copy, PartialEq, Eq, Structural)]
pub struct TocTrack {
    pub number: u8,
    pub start_frame: u32,
    pub is_audio: bool,
}

/// A disc's table of contents. A second is seventy-five frames.
pub struct DiscToc {
    pub tracks: Vec<TocTrack>,
    pub leadout_frame: u32,
}

/// What kind of disc is in a drive, as far as that matters to writing one.
#[derive(Debug, Clone, Copy, PartialEq, Eq, Structural)]
pub enum MediaKind {
    /// None, or one of another kind.
    Unknown,
    /// It can be written once.
    CdR,
    /// It can be erased and written again.
    CdRw,
}

/// What is in a drive.
#[derive(Debug, Clone, Copy, PartialEq, Eq, Structural)]
pub struct MediaInfo {
    pub present: bool,
    pub is_audio_cd: bool,
    pub is_blank: bool,
    pub rewritable: bool,
    pub kind: MediaKind,
    /// How much can still be written.
    pub free_bytes: u64,
    /// How much it holds in all.
    pub capacity_bytes: u64,
}

impl MediaInfo {
    /// An empty drive.
    pub fn none() -> (r: MediaInfo)
        ensures
            r == (MediaInfo {
                present: false,
                is_audio_cd: false,
                is_blank: false,
                rewritable: false,
                kind: MediaKind::Unknown,
                free_bytes: 0,
                capacity_bytes: 0,
            }),
    {
        MediaInfo {
            present: false,
            is_audio_cd: false,
            is_blank: false,
            rewritable: false,
            kind: MediaKind::Unknown,
            free_bytes: 0,
            capacity_bytes: 0,
        }
    }
}

/// A drive, and what is in it.
pub struct OpticalDrive {
    pub id: String,
    pub label: String,
    pub supports_writing: bool,
    pub media: MediaInfo,
    pub toc: Option<DiscToc>,
    pub mount_path: Option<String>,
}

/// A track of a disc as a playlist takes it.
pub struct DiscTrackEntry {
    pub path: String,
    pub title: String,
    pub duration_secs: u32,
}

/// What an entry holds.
pub struct EntryView {
    pub path: Seq<char>,
    pub title: Seq<char>,
    pub duration_secs: int,
}

impl View for DiscTrackEntry {
    type V = EntryView;

    open spec fn view(&self) -> EntryView {
        EntryView {
            path: self.path@,
            title: self.title@,
            duration_secs: self.duration_secs as int,
        }
    }
}

/// Where a track ends: where the next one starts, or the disc's end.
pub open spec fn track_end(tracks: Seq<TocTrack>, leadout: u32, i: int) -> u32 {
    if i + 1 < tracks.len() {
        tracks[i + 1].start_frame
    } else {
        leadout
    }
}

/// How many whole seconds a track lasts.
pub open spec fn track_secs(tracks: Seq<TocTrack>, leadout: u32, i: int) -> int {
    let end = track_end(tracks, leadout, i);
    if tracks[i].start_frame < end {
        (end - tracks[i].start_frame) / 75
    } else {
        0
    }
}

/// The pseudo-URI of a track in a drive.
pub open spec fn track_uri(number: nat, device: Seq<char>) -> Seq<char> {
    cdda_scheme() + text::decimal(number) + device_mark() + device
}

/// The entry of one track.
pub open spec fn entry_of(tracks: Seq<TocTrack>, leadout: u32, device: Seq<char>, i: int) -> EntryView {
    EntryView {
        path: track_uri(tracks[i].number as nat, device),
        title: "Track "@ + text::decimal(tracks[i].number as nat),
        duration_secs: track_secs(tracks, leadout, i),
    }
}

/// The entries of the audio tracks among the first `n`.
pub open spec fn entries_to(
    tracks: Seq<TocTrack>,
    leadout: u32,
    device: Seq<char>,
    n: int,
) -> Seq<EntryView>
    decreases n,
{
    if n <= 0 {
        Seq::empty()
    } else {
        let head = entries_to(tracks, leadout, device, n - 1);
        if tracks[n - 1].is_audio {
            head.push(entry_of(tracks, leadout, device, n - 1))
        } else {
            head
        }
    }
}

/// What a list of entries holds.
pub open spec fn entry_views(list: Seq<DiscTrackEntry>) -> Seq<EntryView> {
    list.map_values(|e: DiscTrackEntry| e@)
}

/// The entries of a drive: one for each audio track of an audio disc, none
/// without one.
pub open spec fn drive_entries(drive: &OpticalDrive) -> Seq<EntryView> {
    match drive.toc {
        Some(toc) if drive.media.is_audio_cd => entries_to(
            toc.tracks@,
            toc.leadout_frame,
            drive.id@,
            toc.tracks@.len() as int,
        ),
        _ => Seq::empty(),
    }
}

/// The entries of a drive.
pub fn track_entries(drive: &OpticalDrive) -> (r: Vec<DiscTrackEntry>)
    ensures
        entry_views(r@) == drive_entries(drive),
{
    let mut out: Vec<DiscTrackEntry> = Vec::new();
    assert(entry_views(out@) =~= Seq::empty());
    if !drive.media.is_audio_cd {
        return out;
    }
    let toc = match &drive.toc {
        Some(toc) => toc,
        None => return out,
    };
    let n: usize = toc.tracks.len();
    let mut i: usize = 0;
    while i < n
        invariant
            i <= n,
            n == toc.tracks@.len(),
            entry_views(out@) == entries_to(
                toc.tracks@,
                toc.leadout_frame,
                drive.id@,
                i as int,
            ),
        decreases n - i,
    {
        let t: TocTrack = toc.tracks[i];
        if t.is_audio {
            let end: u32 = if i + 1 < n {
                toc.tracks[i + 1].start_frame
            } else {
                toc.leadout_frame
            };
            let duration_secs: u32 = if t.start_frame < end {
                (end - t.start_frame) / 75
            } else {
                0
            };
            let number = to_decimal(t.number as u64);
            let mut path = "cdda://".to_owned();
            path.append(number.as_str());
            path.append("?device=");
            path.append(drive.id.as_str());
            let mut title = "Track ".to_owned();
            title.append(number.as_str());
            let ghost before = out@;
            let e = DiscTrackEntry { path, title, duration_secs };
            assert(e@ == entry_of(toc.tracks@, toc.leadout_frame, drive.id@, i as int));
            out.push(e);
            assert(entry_views(out@) =~= entry_views(before).push(e@));
        }
        i += 1;
    }
    out
}

/// The pseudo-URI of a track reads back as that track in that drive.
pub proof fn law_track_uri_reads_back(number: nat, device: Seq<char>)
    ensures
        is_cdda(track_uri(number, device)),
        cdda_track(track_uri(number, device)) == text::decimal(number),
        cdda_device(track_uri(number, device)) == Some(device),
{
    reveal_strlit("cdda://");
    reveal_strlit("?device=");
    let uri = track_uri(number, device);
    let digits = text::decimal(number);
    let n = digits.len() as int;
    let rest = after_scheme(uri);
    text::lemma_decimal_is_digits(number);
    assert(uri.subrange(0, 7) =~= cdda_scheme());
    assert(rest =~= digits + device_mark() + device);
    assert(rest.subrange(n, n + 8) =~= device_mark());
    assert forall|j: int| 0 <= j < n implies #[trigger] rest.subrange(j, j + device_mark().len())
        != device_mark() by {
        assert(rest[j] == digits[j]);
        assert(rest.subrange(j, j + 8)[0] == rest[j]);
        assert(device_mark()[0] == '?');
    }
    assert(text::first_at(rest, device_mark(), n));
    let c = choose|i: int| text::first_at(rest, device_mark(), i);
    lemma_first_at_unique(rest, device_mark(), c, n);
    assert(rest.subrange(0, n) =~= digits);
    assert(rest.subrange(n + 8, rest.len() as int) =~= device);
}

/// Every entry of a drive's disc names the drive that it was made for, and a
/// track that the disc has.
pub proof fn law_entries_name_their_drive(
    tracks: Seq<TocTrack>,
    leadout: u32,
    device: Seq<char>,
    n: int,
    k: int,
)
    requires
        0 <= n <= tracks.len(),
        0 <= k < entries_to(tracks, leadout, device, n).len(),
    ensures
        is_cdda(entries_to(tracks, leadout, device, n)[k].path),
        cdda_device(entries_to(tracks, leadout, device, n)[k].path) == Some(device),
        exists|i: int|
            0 <= i < n && (#[trigger] tracks[i]).is_audio && cdda_track(
                entries_to(tracks, leadout, device, n)[k].path,
            ) == text::decimal(tracks[i].number as nat),
    decreases n,
{
    let head = entries_to(tracks, leadout, device, n - 1);
    if k < head.len() {
        law_entries_name_their_drive(tracks, leadout, device, n - 1, k);
    } else {
        law_track_uri_reads_back(tracks[n - 1].number as nat, device);
        assert(tracks[n - 1].is_audio);
    }
}

/// The sum of a number's decimal digits.
pub open spec fn digit_sum(n: nat) -> nat
    decreases n,
{
    if n < 10 {
        n
    } else {
        n % 10 + digit_sum(n / 10)
    }
}

/// The sum of the digits of where the first `n` tracks start, in seconds.
pub open spec fn start_digits(tracks: Seq<TocTrack>, n: int) -> nat
    decreases n,
{
    if n <= 0 {
        0
    } else {
        start_digits(tracks, n - 1) + digit_sum((tracks[n - 1].start_frame / 75) as nat)
    }
}

/// How many seconds lie between the first track and the disc's end.
pub open spec fn disc_secs(tracks: Seq<TocTrack>, leadout: u32) -> int {
    if tracks.len() == 0 {
        0
    } else if tracks[0].start_frame / 75 <= leadout / 75 {
        leadout / 75 - tracks[0].start_frame / 75
    } else {
        0
    }
}

/// The number by which disc databases know a disc: a check byte over the starts,
/// the length in seconds, and how many tracks there are.
pub open spec fn disc_number(tracks: Seq<TocTrack>, leadout: u32) -> int {
    (start_digits(tracks, tracks.len() as int) % 255) * 0x100_0000 + (disc_secs(tracks, leadout)
        % 0x1_0000) * 0x100 + tracks.len() as int % 0x100
}

/// A small hexadecimal digit.
pub open spec fn small_hex(n: nat) -> char {
    if n < 10 {
        (0x30 + n) as char
    } else {
        (0x57 + n) as char
    }
}

/// The last `width` hexadecimal digits of a number.
pub open spec fn hex_text(n: nat, width: nat) -> Seq<char>
    decreases width,
{
    if width == 0 {
        Seq::empty()
    } else {
        hex_text(n / 16, (width - 1) as nat).push(small_hex(n % 16))
    }
}

fn sum_of_digits(n: u32) -> (r: u32)
    ensures
        r == digit_sum(n as nat),
        r <= n,
    decreases n,
{
    if n < 10 {
        n
    } else {
        n % 10 + sum_of_digits(n / 10)
    }
}

fn to_hex(n: u32, width: u8) -> (r: String)
    ensures
        r@ == hex_text(n as nat, width as nat),
    decreases width,
{
    if width == 0 {
        let none = String::new();
        assert(none@ =~= Seq::empty());
        none
    } else {
        let mut s = to_hex(n / 16, width - 1);
        let d: u8 = (n % 16) as u8;
        if d < 10 {
            s.push((0x30 + d) as char);
        } else {
            s.push((0x57 + d) as char);
        }
        s
    }
}

/// The number by which disc databases know a disc, in eight hexadecimal digits.
pub fn freedb_discid(toc: &DiscToc) -> (r: String)
    ensures
        r@ == hex_text(disc_number(toc.tracks@, toc.leadout_frame) as nat, 8),
        r@.len() == 8,
{
    let n: usize = toc.tracks.len();
    let mut check: u32 = 0;
    let mut i: usize = 0;
    while i < n
        invariant
            i <= n,
            n == toc.tracks@.len(),
            check < 255,
            check == start_digits(toc.tracks@, i as int) % 255,
        decreases n - i,
    {
        let digits: u32 = sum_of_digits(toc.tracks[i].start_frame / 75);
        check = (check + digits) % 255;
        i += 1;
    }
    let secs: u32 = if n == 0 {
        0
    } else {
        let first: u32 = toc.tracks[0].start_frame / 75;
        let last: u32 = toc.leadout_frame / 75;
        if first <= last {
            last - first
        } else {
            0
        }
    };
    let count: u32 = (n % 0x100) as u32;
    let number: u32 = check * 0x100_0000 + (secs % 0x1_0000) * 0x100 + count;
    proof {
        reveal_with_fuel(hex_text, 9);
    }
    to_hex(number, 8)
}

/// The digits of a text of decimal digits, added up.
pub open spec fn digits_added(s: Seq<char>) -> int
    decreases s.len(),
{
    if s.len() == 0 {
        0
    } else {
        digits_added(s.drop_last()) + (s.last() as int - '0' as int)
    }
}

/// The sum of a number's digits is that of every digit that it is written with: another
/// digit behind it adds that digit and nothing else.
pub proof fn law_every_digit_is_added(n: nat, d: nat)
    requires
        d < 10,
    ensures
        digit_sum(10 * n + d) == digit_sum(n) + d,
        digit_sum(n) == digits_added(text::decimal(n)),
    decreases n,
{
    let m = 10 * n + d;
    assert(m / 10 == n);
    assert(m % 10 == d);
    if n == 0 {
        assert(digit_sum(0) == 0);
    }
    let s = text::decimal(n);
    if n < 10 {
        assert(s.drop_last() =~= Seq::<char>::empty());
        assert(digits_added(Seq::<char>::empty()) == 0);
        assert(s.last() == text::digit(n));
    } else {
        law_every_digit_is_added(n / 10, n % 10);
        assert(s.drop_last() =~= text::decimal(n / 10));
        assert(s.last() == text::digit(n % 10));
    }
}

/// The starts of all tracks count towards the check byte, each once and in whole seconds.
pub proof fn law_every_start_is_added(tracks: Seq<TocTrack>, n: int)
    requires
        0 <= n < tracks.len(),
    ensures
        start_digits(tracks, 0) == 0,
        start_digits(tracks, n + 1) - start_digits(tracks, n) == digits_added(
            text::decimal((tracks[n].start_frame / 75) as nat),
        ),
{
    law_every_digit_is_added((tracks[n].start_frame / 75) as nat, 0);
}

/// The number that a disc is known by: its lowest byte is how many tracks there are, the
/// two above it the whole seconds from the first start to the end, and the highest the
/// digits of the starts, added up and cut at 255.
pub proof fn law_a_disc_number_holds_its_three_parts(tracks: Seq<TocTrack>, leadout: u32)
    requires
        0 < tracks.len() < 256,
        tracks[0].start_frame <= leadout,
        leadout / 75 - tracks[0].start_frame / 75 < 65536,
    ensures
        ({
            let n = disc_number(tracks, leadout);
            &&& n % 256 == tracks.len()
            &&& (n / 256) % 65536 == leadout / 75 - tracks[0].start_frame / 75
            &&& n / 16777216 == start_digits(tracks, tracks.len() as int) % 255
            &&& 0 <= n < 4294967296
        }),
{
    let a = start_digits(tracks, tracks.len() as int) as int % 255;
    let b = disc_secs(tracks, leadout) % 0x1_0000;
    let c = tracks.len() as int % 0x100;
    let n = disc_number(tracks, leadout);
    assert(n == a * 0x100_0000 + b * 0x100 + c);
}

/// What a small hexadecimal digit is worth.
pub open spec fn small_hex_worth(c: char) -> int {
    if '0' <= c <= '9' {
        c as int - '0' as int
    } else {
        c as int - 'a' as int + 10
    }
}

/// The number that a text of small hexadecimal digits writes.
pub open spec fn hex_written(s: Seq<char>) -> int
    decreases s.len(),
{
    if s.len() == 0 {
        0
    } else {
        16 * hex_written(s.drop_last()) + small_hex_worth(s.last())
    }
}

/// How many numbers can be written with so many hexadecimal digits.
pub open spec fn hex_room(width: nat) -> int
    decreases width,
{
    if width == 0 {
        1
    } else {
        16 * hex_room((width - 1) as nat)
    }
}

/// A number in hexadecimal digits reads back, in as many digits as were asked for, all of
/// them figures or small letters.
pub proof fn law_hexadecimal_digits_read_back(n: nat, width: nat)
    requires
        n < hex_room(width),
    ensures
        hex_text(n, width).len() == width,
        hex_written(hex_text(n, width)) == n,
        forall|i: int|
            0 <= i < width ==> {
                let c = #[trigger] hex_text(n, width)[i];
                '0' <= c <= '9' || 'a' <= c <= 'f'
            },
    decreases width,
{
    if width > 0 {
        let rest = (width - 1) as nat;
        law_hexadecimal_digits_read_back(n / 16, rest);
        let s = hex_text(n, width);
        assert(s.drop_last() =~= hex_text(n / 16, rest));
        assert(s.last() == small_hex(n % 16));
    }
}

/// A disc's id is its number in eight hexadecimal digits, and tells discs of different
/// numbers apart.
pub proof fn law_a_disc_id_is_its_number(a: DiscToc, b: DiscToc)
    ensures
        ({
            let x = disc_number(a.tracks@, a.leadout_frame);
            let y = disc_number(b.tracks@, b.leadout_frame);
            &&& hex_text(x as nat, 8).len() == 8
            &&& hex_written(hex_text(x as nat, 8)) == x
            &&& hex_text(x as nat, 8) == hex_text(y as nat, 8) ==> x == y
        }),
{
    reveal_with_fuel(hex_room, 9);
    let x = disc_number(a.tracks@, a.leadout_frame);
    let y = disc_number(b.tracks@, b.leadout_frame);
    assert(hex_room(8) == 0x1_0000_0000);
    law_hexadecimal_digits_read_back(x as nat, 8);
    law_hexadecimal_digits_read_back(y as nat, 8);
}

/// A track lasts from its start to the start of the next, or to the disc's end for the
/// last one, in whole seconds of seventy-five frames.
pub proof fn law_a_track_lasts_to_the_next(tracks: Seq<TocTrack>, leadout: u32, i: int)
    requires
        0 <= i < tracks.len(),
    ensures
        ({
            let secs = track_secs(tracks, leadout, i);
            let start = tracks[i].start_frame;
            &&& 0 <= secs
            &&& i + 1 < tracks.len() && start <= tracks[i + 1].start_frame ==> 75 * secs
                <= tracks[i + 1].start_frame - start < 75 * (secs + 1)
            &&& i + 1 == tracks.len() && start <= leadout ==> 75 * secs <= leadout - start < 75 * (
            secs + 1)
        }),
{
}

/// How many audio tracks there are before one.
pub open spec fn audio_before(tracks: Seq<TocTrack>, i: int) -> int
    decreases i,
{
    if i <= 0 {
        0
    } else {
        audio_before(tracks, i - 1) + if tracks[i - 1].is_audio {
            1int
        } else {
            0int
        }
    }
}

/// Every audio track has its entry, in the order of the disc, and no other track has one:
/// the entry names that track, is titled by its number, and lasts as long as it does.
pub proof fn law_every_audio_track_has_its_entry(
    tracks: Seq<TocTrack>,
    leadout: u32,
    device: Seq<char>,
    n: int,
    i: int,
)
    requires
        0 <= i < n <= tracks.len(),
    ensures
        ({
            let list = entries_to(tracks, leadout, device, n);
            let e = list[audio_before(tracks, i)];
            let number = text::decimal(tracks[i].number as nat);
            &&& list.len() == audio_before(tracks, n)
            &&& 0 <= audio_before(tracks, i) <= audio_before(tracks, n)
            &&& tracks[i].is_audio ==> {
                &&& audio_before(tracks, i) < list.len()
                &&& cdda_track(e.path) == number
                &&& cdda_device(e.path) == Some(device)
                &&& e.title.subrange(6, e.title.len() as int) == number
                &&& e.title.subrange(0, 6) == seq!['T', 'r', 'a', 'c', 'k', ' ']
                &&& e.duration_secs == track_secs(tracks, leadout, i)
            }
        }),
    decreases n,
{
    reveal_strlit("Track ");
    lemma_entry_count(tracks, leadout, device, n);
    lemma_entry_count(tracks, leadout, device, n - 1);
    if i == n - 1 {
        law_track_uri_reads_back(tracks[i].number as nat, device);
        let number = text::decimal(tracks[i].number as nat);
        let title = "Track "@ + number;
        assert(title.subrange(6, title.len() as int) =~= number);
        assert(title.subrange(0, 6) =~= seq!['T', 'r', 'a', 'c', 'k', ' ']);
    } else {
        law_every_audio_track_has_its_entry(tracks, leadout, device, n - 1, i);
        if tracks[i].is_audio {
            let k = audio_before(tracks, i);
            assert(entries_to(tracks, leadout, device, n)[k] == entries_to(
                tracks,
                leadout,
                device,
                n - 1,
            )[k]);
        }
    }
}

proof fn lemma_entry_count(tracks: Seq<TocTrack>, leadout: u32, device: Seq<char>, n: int)
    requires
        0 <= n <= tracks.len(),
    ensures
        entries_to(tracks, leadout, device, n).len() == audio_before(tracks, n),
        audio_before(tracks, n) >= 0,
    decreases n,
{
    if n > 0 {
        lemma_entry_count(tracks, leadout, device, n - 1);
    }
}

/// A drive without an audio disc, or whose contents were not read, has no entries.
pub proof fn law_only_an_audio_disc_has_entries(drive: &OpticalDrive)
    requires
        !drive.media.is_audio_cd || drive.toc is None,
    ensures
        drive_entries(drive).len() == 0,
{
}

/// A disc's pseudo-URI is one that begins with the scheme, and nothing else is.
pub proof fn law_a_disc_uri_begins_with_its_scheme(rest: Seq<char>, other: Seq<char>)
    requires
        other.len() < 7 || other.subrange(0, 7) != seq!['c', 'd', 'd', 'a', ':', '/', '/'],
    ensures
        is_cdda(seq!['c', 'd', 'd', 'a', ':', '/', '/'] + rest),
        !is_cdda(other),
{
    reveal_strlit("cdda://");
    let uri = seq!['c', 'd', 'd', 'a', ':', '/', '/'] + rest;
    assert(uri.subrange(0, 7) =~= "cdda://"@);
    assert("cdda://"@ =~= seq!['c', 'd', 'd', 'a', ':', '/', '/']);
}

/// Every entry is seen as itself, in its place.
pub proof fn law_entries_are_seen_in_their_places(list: Seq<DiscTrackEntry>, i: int)
    requires
        0 <= i < list.len(),
    ensures
        entry_views(list).len() == list.len(),
        entry_views(list)[i] == list[i]@,
{
}

} // verus!
