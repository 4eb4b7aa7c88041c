//! Optical discs: what is on them, and the jobs that read and write them.

use crate::disc;
use crate::disc::{freedb_discid, track_entries, DiscToc, DiscTrackEntry, OpticalDrive};
use crate::disc_meta;
use crate::disc_meta::{
    category_list, default_disc_meta, is_unset_email, is_valid_email, suggest_category, DiscMeta,
    XmcdEntry,
};
use crate::json;
use crate::json::write_strings;
use crate::order;
use crate::order::sort_order;
use crate::text;
use crate::text::{c_or_empty, to_lower, CText};
use vstd::prelude::*;

verus! {

/// Whether a drive's tray is open. `status` is what the drive says of itself;
/// one that does not say counts as closed.
pub fn tray_is_open(status: Option<bool>) -> (r: bool)
    ensures
        r == (status == Some(true)),
{
    match status {
        Some(open) => open,
        None => false,
    }
}

/// Whether an address will do for a submission: one that has the shape, and is
/// not the one that older settings came with.
pub fn sparkamp_gnudb_email_valid(email: &CText, retired: &str) -> (r: bool)
    ensures
        r == (match email {
            CText::Text(e) => !disc_meta::no_address(e@, retired@) && disc_meta::address_shape(e@),
            _ => false,
        }),
{
    match email {
        CText::Text(e) => !is_unset_email(e.as_str(), retired) && is_valid_email(e.as_str()),
        _ => false,
    }
}

/// The category to suggest for a genre; none given is an empty one.
pub fn sparkamp_gnudb_suggest_category(genre: &CText) -> (r: String)
    ensures
        disc_meta::no_category(text::c_given(*genre)) ==> r@ == "misc"@,
        forall|i: int| #[trigger]
            disc_meta::category_of(text::c_given(*genre), i) ==> r@ == disc_meta::categories()[i],
        disc_meta::categories().contains(r@),
{
    let g = c_or_empty(genre);
    suggest_category(g.as_str())
}

/// The entries of a drive's disc; none where the drive could not be read.
pub fn sparkamp_disc_track_entries(drive: Option<&OpticalDrive>) -> (r: Vec<DiscTrackEntry>)
    ensures
        disc::entry_views(r@) == (match drive {
            Some(d) => disc::drive_entries(d),
            None => Seq::empty(),
        }),
{
    match drive {
        Some(d) => track_entries(d),
        None => {
            let none: Vec<DiscTrackEntry> = Vec::new();
            assert(disc::entry_views(none@) =~= Seq::empty());
            none
        },
    }
}

/// The number by which disc databases know a disc; nothing where its table could
/// not be read.
pub fn sparkamp_disc_id(toc: Option<&DiscToc>) -> (r: Option<String>)
    ensures
        match (r, toc) {
            (Some(id), Some(t)) => id@ == disc::hex_text(
                disc::disc_number(t.tracks@, t.leadout_frame) as nat,
                8,
            ),
            (None, None) => true,
            _ => false,
        },
{
    match toc {
        Some(t) => Some(freedb_discid(t)),
        None => None,
    }
}

/// What a call to the disc database came to: one of the two is set.
pub struct GnudbResult<T> {
    pub ok: Option<T>,
    pub error: Option<String>,
}

/// What a call to the disc database came to.
pub fn gnudb_out<T>(r: Result<T, String>) -> (out: GnudbResult<T>)
    ensures
        match r {
            Ok(v) => out.ok == Some(v) && out.error is None,
            Err(why) => out.ok is None && out.error == Some(why),
        },
{
    match r {
        Ok(v) => GnudbResult { ok: Some(v), error: None },
        Err(why) => GnudbResult { ok: None, error: Some(why) },
    }
}

/// A question to the disc database: the disc's whole table of contents, its
/// number and the address.
pub struct GnudbQuery<'a> {
    pub toc: &'a DiscToc,
    pub discid: String,
    pub email: String,
}

/// The question to ask the disc database of a disc, or why none can be asked.
pub fn sparkamp_gnudb_query<'a>(toc: Option<&'a DiscToc>, email: &CText) -> (r: Result<
    GnudbQuery<'a>,
    String,
>)
    ensures
        match r {
            Ok(q) => {
                &&& toc matches Some(t) && q.toc == t && q.discid@ == disc::hex_text(
                    disc::disc_number(t.tracks@, t.leadout_frame) as nat,
                    8,
                )
                &&& email matches CText::Text(e) && q.email@ == e@
            },
            Err(why) => why@ == "bad arguments"@ && (toc is None || !(email is Text)),
        },
{
    match (toc, email) {
        (Some(t), CText::Text(e)) => Ok(
            GnudbQuery { toc: t, discid: freedb_discid(t), email: e.clone() },
        ),
        _ => Err("bad arguments".to_owned()),
    }
}

/// An entry of the disc database to be read.
pub struct GnudbRead {
    pub category: String,
    pub discid: String,
    pub email: String,
}

/// The entry to read from the disc database, or why none can be.
pub fn sparkamp_gnudb_read(category: &CText, discid: &CText, email: &CText) -> (r: Result<
    GnudbRead,
    String,
>)
    ensures
        match r {
            Ok(q) => {
                &&& category matches CText::Text(c) && q.category@ == c@
                &&& discid matches CText::Text(d) && q.discid@ == d@
                &&& email matches CText::Text(e) && q.email@ == e@
            },
            Err(why) => why@ == "bad arguments"@ && (!(category is Text) || !(discid is Text) || !(
            email is Text)),
        },
{
    match (category, discid, email) {
        (CText::Text(c), CText::Text(d), CText::Text(e)) => Ok(
            GnudbRead { category: c.clone(), discid: d.clone(), email: e.clone() },
        ),
        _ => Err("bad arguments".to_owned()),
    }
}

/// What comes of a read entry: itself, why it could not be fetched, or that it
/// could not be understood. `parsed` is what was made of the fetched text.
pub fn gnudb_entry(fetched: Result<(), String>, parsed: Option<XmcdEntry>) -> (r: Result<
    XmcdEntry,
    String,
>)
    ensures
        match (fetched, parsed) {
            (Err(why), _) => r == Err::<XmcdEntry, String>(why),
            (Ok(_), Some(e)) => r == Ok::<XmcdEntry, String>(e),
            (Ok(_), None) => r matches Err(why) && why@ == "unparseable xmcd entry"@,
        },
{
    match fetched {
        Err(why) => Err(why),
        Ok(_) => match parsed {
            Some(e) => Ok(e),
            None => Err("unparseable xmcd entry".to_owned()),
        },
    }
}

/// An entry that goes to the disc database, with the table of contents of the disc
/// that it describes.
pub struct GnudbSubmission<'a> {
    pub toc: &'a DiscToc,
    pub entry: &'a XmcdEntry,
    pub category: String,
    pub discid: String,
    pub email: String,
    /// Whether the database is only to try it.
    pub test_mode: bool,
}

/// Whether an entry may be submitted, or why not: the arguments come first, then
/// the address, then what the entry lacks. `lacking` is what an entry that is not
/// fit for submission lacks.
pub fn sparkamp_gnudb_submit<'a>(
    toc: Option<&'a DiscToc>,
    entry: Option<&'a XmcdEntry>,
    category: &CText,
    email: &CText,
    test_mode: bool,
    retired: &str,
    lacking: Option<String>,
) -> (r: Result<GnudbSubmission<'a>, String>)
    ensures
        match (toc, entry, category, email) {
            (Some(t), Some(x), CText::Text(c), CText::Text(e)) => {
                if disc_meta::no_address(e@, retired@) {
                    r matches Err(why) && why@
                        == "Set your email before submitting (gnudb requires a personal address)"@
                } else {
                    match lacking {
                        Some(reason) => r matches Err(why) && why == reason,
                        None => r matches Ok(q) && q.toc == t && q.entry == x && q.test_mode
                            == test_mode && q.category@ == c@ && q.email@ == e@ && q.discid@
                            == disc::hex_text(
                            disc::disc_number(t.tracks@, t.leadout_frame) as nat,
                            8,
                        ),
                    }
                }
            },
            _ => r matches Err(why) && why@ == "bad arguments"@,
        },
{
    match (toc, entry, category, email) {
        (Some(t), Some(x), CText::Text(c), CText::Text(e)) => {
            if is_unset_email(e.as_str(), retired) {
                return Err(
                    "Set your email before submitting (gnudb requires a personal address)".to_owned(),
                );
            }
            match lacking {
                Some(reason) => Err(reason),
                None => Ok(
                    GnudbSubmission {
                        toc: t,
                        entry: x,
                        category: c.clone(),
                        discid: freedb_discid(t),
                        email: e.clone(),
                        test_mode,
                    },
                ),
            }
        },
        _ => Err("bad arguments".to_owned()),
    }
}

/// What starting a job on a slot answers: zero where it began, minus one without
/// anything to do, minus two where one already runs.
pub open spec fn start_code(running: bool, asked: bool) -> int {
    if !asked {
        -1
    } else if running {
        -2
    } else {
        0
    }
}

/// A selection of tracks to rip.
pub struct RipRun {
    pub entries: Vec<DiscTrackEntry>,
    pub dest_root: String,
    pub quality: u8,
    pub tags: XmcdEntry,
    pub total_on_disc: u8,
}

/// What a finished rip produced.
pub struct RipJobDone {
    pub ripped: Vec<String>,
    pub failures: Vec<String>,
    pub cancelled: bool,
}

/// How a rip stands.
pub struct RipJobStatus {
    pub running: bool,
    /// The track that is being ripped, from zero.
    pub track_index: usize,
    pub track_count: usize,
    pub title: String,
    /// How far the track is, in parts per billion.
    pub frac: u64,
    /// Set once the job is over, however it went.
    pub done: Option<RipJobDone>,
}

/// The one rip that may run, and whether it was asked to stop.
pub struct RipJobSlot {
    pub status: RipJobStatus,
    pub cancel: bool,
}

/// The title that a rip begins with: its first track's.
pub open spec fn first_title(job: &RipRun) -> Seq<char> {
    if job.entries@.len() > 0 {
        job.entries@[0].title@
    } else {
        Seq::empty()
    }
}

impl RipJobSlot {
    /// A job that is over does not run.
    pub open spec fn wf(&self) -> bool {
        self.status.done is Some ==> !self.status.running
    }

    /// No rip has run.
    pub fn new() -> (r: RipJobSlot)
        ensures
            r.wf(),
            !r.status.running,
            r.status.track_index == 0,
            r.status.track_count == 0,
            r.status.title@ == Seq::<char>::empty(),
            r.status.frac == 0,
            r.status.done is None,
            !r.cancel,
    {
        let title = String::new();
        assert(title@ =~= Seq::empty());
        RipJobSlot {
            status: RipJobStatus {
                running: false,
                track_index: 0,
                track_count: 0,
                title,
                frac: 0,
                done: None,
            },
            cancel: false,
        }
    }

    /// The rip is at a place of a track. A job that is over stays so.
    pub fn progress(&mut self, index: usize, count: usize, title: &str, frac: u64)
        ensures
            old(self).wf() ==> final(self).wf(),
            final(self).status.track_index == index,
            final(self).status.track_count == count,
            final(self).status.title@ == title@,
            final(self).status.frac == frac,
            final(self).status.running == old(self).status.running,
            final(self).status.done == old(self).status.done,
            final(self).cancel == old(self).cancel,
    {
        self.status.track_index = index;
        self.status.track_count = count;
        self.status.title = title.to_owned();
        self.status.frac = frac;
    }

    /// The rip is over.
    pub fn finish(&mut self, done: RipJobDone)
        ensures
            final(self).wf(),
            *final(self) == (RipJobSlot {
                status: RipJobStatus { running: false, done: Some(done), ..old(self).status },
                ..*old(self)
            }),
    {
        self.status.running = false;
        self.status.done = Some(done);
    }
}

/// Begins a rip: zero where it began, minus one without a job, minus two where
/// one already runs. Nothing changes unless it began.
pub fn sparkamp_disc_rip_job_start(slot: &mut RipJobSlot, job: Option<&RipRun>) -> (r: i32)
    ensures
        r == start_code(old(slot).status.running, job is Some),
        r != 0 ==> *final(slot) == *old(slot),
        r == 0 ==> {
            &&& final(slot).wf()
            &&& final(slot).status.running
            &&& final(slot).status.track_index == 0
            &&& final(slot).status.frac == 0
            &&& final(slot).status.done is None
            &&& !final(slot).cancel
            &&& job matches Some(j) && final(slot).status.track_count == j.entries@.len()
                && final(slot).status.title@ == first_title(j)
        },
{
    let job = match job {
        Some(job) => job,
        None => return -1,
    };
    if slot.status.running {
        return -2;
    }
    let title = if job.entries.len() > 0 {
        job.entries[0].title.clone()
    } else {
        String::new()
    };
    assert(title@ =~= first_title(job));
    slot.cancel = false;
    slot.status = RipJobStatus {
        running: true,
        track_index: 0,
        track_count: job.entries.len(),
        title,
        frac: 0,
        done: None,
    };
    0
}

/// How the rip stands.
pub fn sparkamp_disc_rip_job_poll(slot: &RipJobSlot) -> (r: &RipJobStatus)
    ensures
        *r == slot.status,
{
    &slot.status
}

/// Asks the rip to stop after the track it is at.
pub fn sparkamp_disc_rip_job_cancel(slot: &mut RipJobSlot)
    ensures
        *final(slot) == (RipJobSlot { cancel: true, ..*old(slot) }),
{
    slot.cancel = true;
}

/// The format that a rip writes.
#[derive(Debug, Clone, Copy, PartialEq, Eq, Structural)]
pub enum RipFormat {
    Flac,
    Mp3,
}

/// The name of the format that a rip writes.
pub fn sparkamp_disc_rip_format_name(format: RipFormat) -> (r: &'static str)
    ensures
        r@ == (match format {
            RipFormat::Flac => "FLAC"@,
            RipFormat::Mp3 => "MP3"@,
        }),
{
    match format {
        RipFormat::Flac => "FLAC",
        RipFormat::Mp3 => "MP3",
    }
}

/// Whether the format that a rip writes takes a quality; one that loses nothing
/// does not.
pub fn sparkamp_disc_rip_has_quality(format: RipFormat) -> (r: bool)
    ensures
        r == (format == RipFormat::Mp3),
{
    match format {
        RipFormat::Flac => false,
        RipFormat::Mp3 => true,
    }
}

/// The JSON text of the categories that the disc database knows.
pub fn sparkamp_gnudb_categories() -> (r: String)
    ensures
        r@ == json::strings_written(disc_meta::categories()),
        json::strings_read(r@) == Some(disc_meta::categories()),
{
    write_strings(&category_list())
}

/// Texts with their ASCII capitals as small letters.
pub open spec fn all_lowered(list: Seq<Seq<char>>) -> Seq<Seq<char>> {
    list.map_values(|s: Seq<char>| text::lowered(s))
}

/// Texts in alphabetical order, whether they have capitals or not.
pub fn alphabetical(list: &Vec<String>) -> (r: Vec<String>)
    ensures
        exists|o: Seq<usize>|
            #[trigger] order::is_order(o, list@.len() as int) && order::sorts(
                o,
                all_lowered(text::views(list@)),
            ) && text::views(r@) == order::arranged(text::views(list@), o),
{
    let mut keys: Vec<String> = Vec::new();
    let mut i: usize = 0;
    while i < list.len()
        invariant
            i <= list@.len(),
            keys@.len() == i,
            forall|k: int| 0 <= k < i ==> (#[trigger] keys@[k])@ == text::lowered(list@[k]@),
        decreases list@.len() - i,
    {
        keys.push(to_lower(list[i].as_str()));
        i += 1;
    }
    assert(order::key_views(keys@) =~= all_lowered(text::views(list@)));
    let o = sort_order(&keys);
    let mut out: Vec<String> = Vec::new();
    let mut k: usize = 0;
    while k < o.len()
        invariant
            k <= o@.len(),
            o@.len() == list@.len(),
            order::is_order(o@, list@.len() as int),
            out@.len() == k,
            forall|a: int| 0 <= a < k ==> (#[trigger] out@[a])@ == list@[o@[a] as int]@,
        decreases o@.len() - k,
    {
        out.push(list[o[k]].clone());
        k += 1;
    }
    assert(text::views(out@) =~= order::arranged(text::views(list@), o@));
    out
}

/// The JSON text of the genres, in alphabetical order, whether they have capitals
/// or not.
pub fn sparkamp_id3_genres(genres: &Vec<String>) -> (r: String)
    ensures
        exists|o: Seq<usize>|
            #[trigger] order::is_order(o, genres@.len() as int) && order::sorts(
                o,
                all_lowered(text::views(genres@)),
            ) && json::strings_read(r@) == Some(order::arranged(text::views(genres@), o)) && r@
                == json::strings_written(order::arranged(text::views(genres@), o)),
{
    let sorted = alphabetical(genres);
    write_strings(&sorted)
}

/// What must happen before a disc can be burnt.
#[derive(Debug, Clone, Copy, PartialEq, Eq, Structural)]
pub enum EraseDecision {
    BurnNow,
    EraseAfterConfirm,
    Refuse,
}

/// What must happen before a disc can be burnt: nothing to a blank one, erasing
/// to a rewritable one with content; any other is refused.
pub open spec fn erase_needed(drive: &OpticalDrive) -> EraseDecision {
    if !drive.media.present {
        EraseDecision::Refuse
    } else if drive.media.is_blank {
        EraseDecision::BurnNow
    } else if drive.media.rewritable {
        EraseDecision::EraseAfterConfirm
    } else {
        EraseDecision::Refuse
    }
}

/// What must happen before a disc can be burnt: 0 nothing, 1 erasing, 2 it is
/// refused, and so is a drive that could not be read.
pub fn sparkamp_disc_erase_decision(drive: Option<&OpticalDrive>) -> (r: i32)
    ensures
        r == (match drive {
            Some(d) => match erase_needed(d) {
                EraseDecision::BurnNow => 0int,
                EraseDecision::EraseAfterConfirm => 1,
                EraseDecision::Refuse => 2,
            },
            None => 2,
        }),
{
    match drive {
        Some(d) => if !d.media.present {
            2
        } else if d.media.is_blank {
            0
        } else if d.media.rewritable {
            1
        } else {
            2
        },
        None => 2,
    }
}

/// How many seconds of sound a standard disc takes.
pub const AUDIO_CD_CAPACITY_SECS: i32 = 4800;

/// How many seconds of sound the disc takes: its free frames, of which a second
/// is seventy-five, and a standard disc's where it does not say, or where the
/// drive could not be read.
pub fn sparkamp_disc_audio_capacity_secs(drive: Option<&OpticalDrive>, free_frames: Option<u32>) -> (r:
    i32)
    ensures
        r == (match (drive, free_frames) {
            (Some(_), Some(frames)) => (frames / 75) as int,
            _ => AUDIO_CD_CAPACITY_SECS as int,
        }),
        drive is None || free_frames is None ==> r == 80 * 60,
{
    match (drive, free_frames) {
        (Some(_), Some(frames)) => (frames / 75) as i32,
        _ => AUDIO_CD_CAPACITY_SECS,
    }
}

/// One file to burn, with the line shown for it.
pub struct BurnItemIn {
    pub path: String,
    pub display: String,
}

/// A whole burn as it is asked for.
pub struct BurnRunIn {
    pub drive: OpticalDrive,
    pub items: Vec<BurnItemIn>,
    pub audio: bool,
    pub use_m3u: bool,
    pub erase_first: bool,
    pub verify: bool,
    pub disc_artist: Option<String>,
    pub disc_album: Option<String>,
}

/// What kind of disc is burnt.
#[derive(Debug, Clone, Copy, PartialEq, Eq, Structural)]
pub enum BurnMode {
    Audio,
    Data { use_m3u: bool },
}

/// A burn as it is carried out.
pub struct BurnPlan {
    pub drive: OpticalDrive,
    pub items: Vec<BurnItemIn>,
    pub mode: BurnMode,
    pub erase_first: bool,
    pub verify: bool,
    pub disc_meta: Option<DiscMeta>,
}

/// What is carried out of what was asked for: a disc of sounds is titled where
/// both the artist and the album were given, a disc of data never is.
pub open spec fn planned(plan: BurnPlan, job: BurnRunIn) -> bool {
    &&& plan.drive == job.drive
    &&& plan.items == job.items
    &&& plan.mode == (if job.audio {
        BurnMode::Audio
    } else {
        BurnMode::Data { use_m3u: job.use_m3u }
    })
    &&& plan.erase_first == job.erase_first
    &&& plan.verify == job.verify
    &&& match plan.disc_meta {
        Some(meta) => job.audio && job.disc_artist == Some(meta.artist) && job.disc_album == Some(
            meta.album,
        ),
        None => !job.audio || job.disc_artist is None || job.disc_album is None,
    }
}

/// What is carried out of what was asked for.
pub fn plan_burn(job: BurnRunIn) -> (r: BurnPlan)
    ensures
        planned(r, job),
{
    let mode = if job.audio {
        BurnMode::Audio
    } else {
        BurnMode::Data { use_m3u: job.use_m3u }
    };
    let disc_meta = if job.audio {
        match (job.disc_artist, job.disc_album) {
            (Some(artist), Some(album)) => Some(DiscMeta { artist, album }),
            _ => None,
        }
    } else {
        None
    };
    BurnPlan {
        drive: job.drive,
        items: job.items,
        mode,
        erase_first: job.erase_first,
        verify: job.verify,
        disc_meta,
    }
}

/// How a burn ended, and what is said of it.
pub struct BurnJobDone {
    pub ok: bool,
    pub message: String,
}

/// How a burn stands.
pub struct BurnJobStatus {
    pub running: bool,
    /// What is being done.
    pub phase: String,
    /// How far that is, in parts per billion, where it is known.
    pub fraction: Option<u64>,
    /// Set once the job is over.
    pub done: Option<BurnJobDone>,
}

/// The one burn or erasure that may run, and whether it was asked to stop.
pub struct BurnJobSlot {
    pub status: BurnJobStatus,
    pub cancel: bool,
}

impl BurnJobSlot {
    /// A job that is over does not run.
    pub open spec fn wf(&self) -> bool {
        self.status.done is Some ==> !self.status.running
    }

    /// A job that has just begun.
    pub open spec fn begun(&self, phase: Seq<char>) -> bool {
        &&& self.status.running
        &&& self.status.phase@ == phase
        &&& self.status.fraction is None
        &&& self.status.done is None
        &&& !self.cancel
    }

    /// Nothing has been burnt.
    pub fn new() -> (r: BurnJobSlot)
        ensures
            r.wf(),
            !r.status.running,
            r.status.phase@ == Seq::<char>::empty(),
            r.status.fraction is None,
            r.status.done is None,
            !r.cancel,
    {
        let phase = String::new();
        assert(phase@ =~= Seq::empty());
        BurnJobSlot {
            status: BurnJobStatus { running: false, phase, fraction: None, done: None },
            cancel: false,
        }
    }

    fn begin(&mut self, phase: &str)
        ensures
            final(self).begun(phase@),
    {
        self.cancel = false;
        self.status = BurnJobStatus {
            running: true,
            phase: phase.to_owned(),
            fraction: None,
            done: None,
        };
    }

    /// The job is at a phase.
    pub fn progress(&mut self, label: &str, fraction: Option<u64>)
        ensures
            final(self).status.phase@ == label@,
            final(self).status.fraction == fraction,
            final(self).status.running == old(self).status.running,
            final(self).status.done == old(self).status.done,
            final(self).cancel == old(self).cancel,
    {
        self.status.phase = label.to_owned();
        self.status.fraction = fraction;
    }

    /// The job is over, with the message that it ended with.
    pub fn finish(&mut self, result: Result<String, String>)
        ensures
            final(self).wf(),
            !final(self).status.running,
            final(self).status.done matches Some(done) && match result {
                Ok(message) => done.ok && done.message == message,
                Err(message) => !done.ok && done.message == message,
            },
            final(self).status.phase == old(self).status.phase,
            final(self).status.fraction == old(self).status.fraction,
            final(self).cancel == old(self).cancel,
    {
        self.status.running = false;
        self.status.done = Some(
            match result {
                Ok(message) => BurnJobDone { ok: true, message },
                Err(message) => BurnJobDone { ok: false, message },
            },
        );
    }

    /// The erasure is over.
    pub fn finish_erase(&mut self, result: Result<(), String>)
        ensures
            final(self).wf(),
            !final(self).status.running,
            final(self).status.done matches Some(done) && match result {
                Ok(_) => done.ok && done.message@ == "Disc erased."@,
                Err(message) => !done.ok && done.message == message,
            },
            final(self).status.phase == old(self).status.phase,
            final(self).status.fraction == old(self).status.fraction,
            final(self).cancel == old(self).cancel,
    {
        let told = match result {
            Ok(_) => Ok("Disc erased.".to_owned()),
            Err(message) => Err(message),
        };
        self.finish(told);
    }

    /// The worker is gone, however it went. A job that it left running is over
    /// and failed.
    pub fn release(&mut self)
        requires
            old(self).wf(),
        ensures
            final(self).wf(),
            !final(self).status.running,
            !old(self).status.running ==> *final(self) == *old(self),
            old(self).status.running ==> {
                &&& final(self).status.done matches Some(done) && !done.ok && done.message@
                    == "the job ended unexpectedly"@
                &&& final(self).status.phase == old(self).status.phase
                &&& final(self).status.fraction == old(self).status.fraction
                &&& final(self).cancel == old(self).cancel
            },
    {
        if self.status.running {
            self.finish(Err("the job ended unexpectedly".to_owned()));
        }
    }
}

/// Begins a burn. What it carries out comes with the zero; nothing changes unless
/// it began.
pub fn sparkamp_disc_burn_job_start(slot: &mut BurnJobSlot, job: Option<BurnRunIn>) -> (r: (
    i32,
    Option<BurnPlan>,
))
    ensures
        r.0 == start_code(old(slot).status.running, job is Some),
        r.0 != 0 ==> *final(slot) == *old(slot) && r.1 is None,
        r.0 == 0 ==> {
            &&& final(slot).begun("Starting…"@)
            &&& r.1 matches Some(plan) && job matches Some(j) && planned(plan, j)
        },
{
    let job = match job {
        Some(job) => job,
        None => return (-1, None),
    };
    if slot.status.running {
        return (-2, None);
    }
    slot.begin("Starting…");
    (0, Some(plan_burn(job)))
}

/// How thoroughly a disc is erased.
#[derive(Debug, Clone, Copy, PartialEq, Eq, Structural)]
pub enum EraseDepth {
    /// Only what makes the disc look empty.
    Quick,
    /// All of it.
    Complete,
}

/// Begins the erasure of a disc, and says how thorough it is to be: complete, since
/// whoever asks for this wants the disc empty. Nothing changes unless it began.
pub fn sparkamp_disc_erase_job_start(slot: &mut BurnJobSlot, drive: Option<&OpticalDrive>) -> (r: (
    i32,
    Option<EraseDepth>,
))
    ensures
        r.0 == start_code(old(slot).status.running, drive is Some),
        r.0 != 0 ==> *final(slot) == *old(slot) && r.1 is None,
        r.0 == 0 ==> final(slot).begun("Erasing…"@) && r.1 == Some(EraseDepth::Complete),
{
    if drive.is_none() {
        return (-1, None);
    }
    if slot.status.running {
        return (-2, None);
    }
    slot.begin("Erasing…");
    (0, Some(EraseDepth::Complete))
}

/// Once a job is over the next one that is asked for begins: no job stays in the
/// way of another for good.
pub proof fn law_a_job_that_is_over_lets_the_next_begin(rip: RipJobSlot, burn: BurnJobSlot)
    requires
        rip.wf(),
        burn.wf(),
    ensures
        rip.status.done is Some ==> start_code(rip.status.running, true) == 0,
        burn.status.done is Some ==> start_code(burn.status.running, true) == 0,
{
}

/// How the burn stands.
pub fn sparkamp_disc_burn_job_poll(slot: &BurnJobSlot) -> (r: &BurnJobStatus)
    ensures
        *r == slot.status,
{
    &slot.status
}

/// Asks the burn to stop.
pub fn sparkamp_disc_burn_cancel(slot: &mut BurnJobSlot)
    ensures
        *final(slot) == (BurnJobSlot { cancel: true, ..*old(slot) }),
{
    slot.cancel = true;
}

/// What a disc of these lines is called where nobody says. `day` is today.
pub fn sparkamp_disc_default_meta(lines: Option<&Vec<String>>, day: &str) -> (r: DiscMeta)
    ensures
        r.album@ == "Sparkamp Disc "@ + day@,
        match lines {
            Some(list) if list@.len() > 0 => if exists|a: Seq<char>|
                disc_meta::named_by_all(list@, a) {
                disc_meta::named_by_all(list@, r.artist@)
            } else {
                r.artist@ == "Various Artists"@
            },
            _ => r.artist@ == "Various Artists"@,
        },
{
    match lines {
        Some(list) => default_disc_meta(list, day),
        None => default_disc_meta(&Vec::new(), day),
    }
}

/// What is kept of a disc: the user's tags, and the database's where there are
/// any.
pub struct DiscRecord {
    pub user: XmcdEntry,
    pub official: Option<XmcdEntry>,
}

/// The tags that are kept of a disc: the user's and the database's; neither for
/// a disc that is not named or of which nothing is kept.
pub fn sparkamp_disc_tags_get(discid: &CText, kept: Option<DiscRecord>) -> (r: (
    Option<XmcdEntry>,
    Option<XmcdEntry>,
))
    ensures
        match (discid, kept) {
            (CText::Text(_), Some(rec)) => r.0 == Some(rec.user) && r.1 == rec.official,
            _ => r.0 is None && r.1 is None,
        },
{
    match (discid, kept) {
        (CText::Text(_), Some(rec)) => (Some(rec.user), rec.official),
        _ => (None, None),
    }
}

/// What is to be kept of a disc; nothing without the disc's number or the user's
/// tags.
pub fn sparkamp_disc_tags_set(
    discid: &CText,
    user: Option<XmcdEntry>,
    official: Option<XmcdEntry>,
) -> (r: Option<(String, DiscRecord)>)
    ensures
        match (discid, user) {
            (CText::Text(d), Some(u)) => r matches Some((id, rec)) && id@ == d@ && rec.user == u
                && rec.official == official,
            _ => r is None,
        },
{
    match (discid, user) {
        (CText::Text(d), Some(u)) => Some((d.clone(), DiscRecord { user: u, official })),
        _ => None,
    }
}

/// How long a file lasts, in whole seconds.
pub struct DurationProbeOut {
    pub path: String,
    /// Nothing where the file could not be read.
    pub secs: Option<u32>,
}

/// Whole seconds, cut to the width that crosses.
pub open spec fn whole_secs(length: Option<u64>) -> Option<u32> {
    match length {
        Some(ns) => Some((ns / 1_000_000_000) as u32),
        None => None,
    }
}

/// How long each file lasts. `lengths` is what was found, in nanoseconds.
pub fn sparkamp_disc_probe_durations(paths: &Vec<String>, lengths: &Vec<Option<u64>>) -> (r: Vec<
    DurationProbeOut,
>)
    requires
        paths@.len() == lengths@.len(),
    ensures
        r@.len() == paths@.len(),
        forall|k: int|
            0 <= k < r@.len() ==> (#[trigger] r@[k]).path@ == paths@[k]@ && r@[k].secs == whole_secs(
                lengths@[k],
            ),
{
    let mut out: Vec<DurationProbeOut> = Vec::new();
    let mut i: usize = 0;
    while i < paths.len()
        invariant
            i <= paths@.len(),
            paths@.len() == lengths@.len(),
            out@.len() == i,
            forall|k: int|
                0 <= k < i ==> (#[trigger] out@[k]).path@ == paths@[k]@ && out@[k].secs == whole_secs(
                    lengths@[k],
                ),
        decreases paths@.len() - i,
    {
        let secs = match lengths[i] {
            Some(ns) => Some(
                #[verifier::truncate]
                ((ns / 1_000_000_000) as u32),
            ),
            None => None,
        };
        out.push(DurationProbeOut { path: paths[i].clone(), secs });
        i += 1;
    }
    out
}

/// Which drive to read the titles of a disc from, and the disc's number; nothing
/// where the drive could not be read or has no table of contents.
pub fn sparkamp_disc_read_cdtext(drive: Option<&OpticalDrive>) -> (r: Option<(String, String)>)
    ensures
        match drive {
            Some(d) => match d.toc {
                Some(t) => r matches Some((id, discid)) && id@ == d.id@ && discid@ == disc::hex_text(
                    disc::disc_number(t.tracks@, t.leadout_frame) as nat,
                    8,
                ),
                None => r is None,
            },
            None => r is None,
        },
{
    match drive {
        Some(d) => match &d.toc {
            Some(t) => Some((d.id.clone(), freedb_discid(t))),
            None => None,
        },
        None => None,
    }
}

/// Two descriptions of a disc in one: the first wins, the second fills its gaps.
/// Nothing only where neither is there.
pub fn sparkamp_disc_merge_metadata(primary: Option<XmcdEntry>, secondary: Option<XmcdEntry>) -> (r:
    Option<XmcdEntry>)
    ensures
        match (primary, secondary) {
            (Some(a), Some(b)) => r matches Some(m) && m@ == disc_meta::merged(a@, b@),
            (Some(a), None) => r == Some(a),
            (None, Some(b)) => r == Some(b),
            (None, None) => r is None,
        },
{
    match (primary, secondary) {
        (Some(a), Some(b)) => Some(a.merged_with(&b)),
        (Some(a), None) => Some(a),
        (None, Some(b)) => Some(b),
        (None, None) => None,
    }
}

/// A job begins where it is asked for and none runs; without a request it is refused with
/// one number, and while another runs with another.
pub proof fn law_a_job_begins_where_none_runs(running: bool, asked: bool)
    ensures
        asked && !running ==> start_code(running, asked) == 0,
        !asked ==> start_code(running, asked) == -1,
        asked && running ==> start_code(running, asked) == -2,
{
}

/// A blank disc is written at once, one that can be rewritten after the user agreed, and any
/// other not at all.
pub proof fn law_only_what_can_be_written_is(drive: &OpticalDrive)
    ensures
        drive.media.present && drive.media.is_blank ==> erase_needed(drive) == EraseDecision::BurnNow,
        drive.media.present && !drive.media.is_blank && drive.media.rewritable ==> erase_needed(drive)
            == EraseDecision::EraseAfterConfirm,
        drive.media.present && !drive.media.is_blank && !drive.media.rewritable ==> erase_needed(drive)
            == EraseDecision::Refuse,
        !drive.media.present ==> erase_needed(drive) == EraseDecision::Refuse,
{
}

/// A burn does what was asked: on that drive, of those files in that order, as audio or as
/// data with its list, erased first and verified where that was asked, and titled only where
/// it is audio and both artist and album were given.
pub proof fn law_a_burn_does_what_was_asked(plan: BurnPlan, job: BurnRunIn)
    requires
        planned(plan, job),
    ensures
        plan.drive == job.drive,
        plan.items == job.items,
        job.audio ==> plan.mode == BurnMode::Audio,
        !job.audio ==> plan.mode == (BurnMode::Data { use_m3u: job.use_m3u }),
        plan.erase_first == job.erase_first,
        plan.verify == job.verify,
        (job.audio && job.disc_artist is Some && job.disc_album is Some) ==> {
            &&& plan.disc_meta matches Some(m)
            &&& Some(m.artist) == job.disc_artist
            &&& Some(m.album) == job.disc_album
        },
        !job.audio || job.disc_artist is None || job.disc_album is None ==> plan.disc_meta is None,
{
}

/// A length in whole seconds leaves off the rest, and one that is not known stays so.
pub proof fn law_whole_seconds_leave_off_the_rest(length: Option<u64>)
    ensures
        length is None ==> whole_secs(length) is None,
        (length matches Some(ns) && ns < 4_294_967_296_000_000_000) ==> {
            &&& whole_secs(length) matches Some(s)
            &&& s * 1_000_000_000 <= length.unwrap() < (s + 1) * 1_000_000_000
        },
{
}

/// A rip is first shown by its first title, where there is one.
pub proof fn law_a_rip_begins_with_its_first_title(job: &RipRun)
    ensures
        job.entries@.len() > 0 ==> first_title(job) == job.entries@[0].title@,
        job.entries@.len() == 0 ==> first_title(job).len() == 0,
{
}

/// A burn that begins runs, with its phase, no fraction, no end, and nothing that asks it to
/// stop.
pub proof fn law_a_burn_begins_afresh(slot: BurnJobSlot, phase: Seq<char>)
    requires
        slot.begun(phase),
    ensures
        slot.status.running,
        slot.status.phase@ == phase,
        slot.status.fraction is None,
        slot.status.done is None,
        !slot.cancel,
        slot.wf(),
        start_code(slot.status.running, true) == -2,
{
}

/// Every text of a list is put in small letters, in its place.
pub proof fn law_every_text_of_a_list_is_lowered(list: Seq<Seq<char>>, i: int)
    requires
        0 <= i < list.len(),
    ensures
        all_lowered(list).len() == list.len(),
        all_lowered(list)[i] == text::lowered(list[i]),
{
}

} // verus!
