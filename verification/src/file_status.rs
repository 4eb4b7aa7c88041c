//! What the background pass finds out of a playlist row.
//!
//! Whether a file is still there and whether it can be written never comes from
//! the library, nor do the tags and the length of a file that it has never seen.

use crate::disc;
use crate::disc::is_disc_uri;
use crate::model;
use crate::model::Track;
use vstd::prelude::*;

verus! {

/// One row to finish.
pub struct RowCheck {
    pub path: String,
    /// False for a row whose tags the library had.
    pub needs_tags: bool,
    /// The entry, wherever it has moved to since.
    pub id: u64,
}

/// What was found out of one row.
pub struct RowFacts {
    /// The entry that this is of.
    pub id: u64,
    pub path: String,
    /// False when the file is gone.
    pub exists: bool,
    /// Always false for a file that is not there.
    pub read_only: bool,
    /// What was read of a file that the library had never seen.
    pub tags: Option<Track>,
}

/// What the file system says of a row's path.
#[derive(Debug, Clone, Copy, PartialEq, Eq, Structural)]
pub struct OnDisk {
    pub exists: bool,
    pub read_only: bool,
}

/// Whether a row's file is there: a disc track always is.
pub open spec fn is_there(path: Seq<char>, disk: OnDisk) -> bool {
    disc::is_cdda(path) || disk.exists
}

/// Whether a row's file is to be read: only where nothing else can answer for it,
/// where it is there, and where it is a file.
pub open spec fn reads_file(row: &RowCheck, disk: OnDisk) -> bool {
    row.needs_tags && disk.exists && !disc::is_cdda(row.path@)
}

/// Whether a row's file is to be read.
pub fn wants_tags(row: &RowCheck, disk: OnDisk) -> (r: bool)
    ensures
        r == reads_file(row, disk),
{
    row.needs_tags && disk.exists && !is_disc_uri(row.path.as_str())
}

/// What is found out of one row. `disk` is what the file system says of its path;
/// `read` is what was read of the file, and `length` how long it lasts, where it
/// was to be read.
pub fn check_row(row: &RowCheck, disk: OnDisk, read: Option<Track>, length: Option<u64>) -> (r: RowFacts)
    ensures
        r.id == row.id,
        r.path@ == row.path@,
        r.exists == is_there(row.path@, disk),
        r.read_only == (disc::is_cdda(row.path@) || (disk.exists && disk.read_only)),
        match r.tags {
            Some(t) => reads_file(row, disk) && (read matches Some(found) && t@ == (
            model::TrackView { duration: length, ..found@ })),
            None => !reads_file(row, disk) || read is None,
        },
{
    let is_disc = is_disc_uri(row.path.as_str());
    let tags = if wants_tags(row, disk) {
        match read {
            Some(found) => {
                let mut t = found;
                t.duration = length;
                Some(t)
            },
            None => None,
        }
    } else {
        None
    };
    RowFacts {
        id: row.id,
        path: row.path.clone(),
        exists: is_disc || disk.exists,
        read_only: is_disc || (disk.exists && disk.read_only),
        tags,
    }
}

/// A disc track is there and cannot be written, whatever the file system says of
/// its path, and nothing tries to open it.
pub proof fn law_a_disc_track_is_there(row: RowCheck, disk: OnDisk)
    requires
        disc::is_cdda(row.path@),
    ensures
        is_there(row.path@, disk),
        !reads_file(&row, disk),
{
}

/// A file is there where the file system has it, and is opened only where it is there, is a
/// file and nothing else can answer for it.
pub proof fn law_a_file_is_there_where_the_disk_has_it(row: RowCheck, disk: OnDisk)
    requires
        !disc::is_cdda(row.path@),
    ensures
        is_there(row.path@, disk) == disk.exists,
        reads_file(&row, disk) ==> disk.exists && row.needs_tags,
        disk.exists && row.needs_tags ==> reads_file(&row, disk),
{
}

} // verus!
