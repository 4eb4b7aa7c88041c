//! What is shown of the track that plays.

use crate::engine::backend::AudioBackend;
use crate::ffi::SparkampCtx;
use crate::media_library;
use crate::media_library::owned_text;
use crate::text;
use crate::text::to_c;
use vstd::prelude::*;

verus! {

/// What is known of a track, as a panel shows it.
pub struct NowPlayingInfo {
    /// Labels and values, none of them empty.
    pub tags: Vec<(String, String)>,
    pub tech_line: String,
    /// Labels and values, none of them empty.
    pub technical: Vec<(String, String)>,
    pub artwork_path: Option<String>,
    /// Nothing for a track that the library does not have.
    pub play_count: Option<i64>,
    pub last_played: Option<String>,
    pub last_scanned: Option<String>,
    pub added_at: Option<String>,
    pub artist_wiki_url: Option<String>,
    pub album_wiki_url: Option<String>,
}

/// What was known of the track that played when it was asked for.
pub struct SparkampNowPlaying {
    pub info: NowPlayingInfo,
}

/// The path of the current track, of which the rest is to be found out.
pub fn now_playing_path<B: AudioBackend>(ctx: Option<&SparkampCtx<B>>) -> (r: Option<String>)
    ensures
        match ctx {
            Some(c) => match c.playlist@.current_row() {
                Some(row) => r matches Some(p) && p@ == row.path,
                None => r is None,
            },
            None => r is None,
        },
{
    match ctx {
        Some(c) => match c.playlist.current() {
            Some(t) => Some(t.path.clone()),
            None => None,
        },
        None => None,
    }
}

/// What is known of the current track; nothing without one. `info` is what was
/// found out of it.
pub fn sparkamp_now_playing_open<B: AudioBackend>(
    ctx: Option<&SparkampCtx<B>>,
    info: NowPlayingInfo,
) -> (r: Option<SparkampNowPlaying>)
    ensures
        match r {
            Some(np) => ctx matches Some(c) && c.playlist@.current_row() is Some && np.info == info,
            None => ctx matches Some(c) ==> c.playlist@.current_row() is None,
        },
{
    match now_playing_path(ctx) {
        Some(_) => Some(SparkampNowPlaying { info }),
        None => None,
    }
}

/// One row of a list; empty texts out of range.
pub open spec fn row_shown(rows: Seq<(String, String)>, i: i32) -> (Seq<char>, Seq<char>) {
    if 0 <= i < rows.len() {
        (text::c_text(rows[i as int].0@), text::c_text(rows[i as int].1@))
    } else {
        (Seq::empty(), Seq::empty())
    }
}

fn label_at(rows: &Vec<(String, String)>, i: i32) -> (r: String)
    ensures
        r@ == row_shown(rows@, i).0,
{
    if i >= 0 && (i as usize) < rows.len() {
        to_c(rows[i as usize].0.as_str())
    } else {
        empty()
    }
}

fn value_at(rows: &Vec<(String, String)>, i: i32) -> (r: String)
    ensures
        r@ == row_shown(rows@, i).1,
{
    if i >= 0 && (i as usize) < rows.len() {
        to_c(rows[i as usize].1.as_str())
    } else {
        empty()
    }
}

fn empty() -> (r: String)
    ensures
        r@ == Seq::<char>::empty(),
{
    let none = String::new();
    assert(none@ =~= Seq::<char>::empty());
    none
}

fn count_of(rows: &Vec<(String, String)>) -> (r: i32)
    ensures
        r == rows@.len() as i32,
{
    #[verifier::truncate]
    (rows.len() as i32)
}

fn text_or_empty(s: &Option<String>) -> (r: String)
    ensures
        r@ == text::c_text(media_library::text_of(*s)),
{
    let t = owned_text(s);
    to_c(t.as_str())
}

/// How many tag rows there are, cut to the width that crosses.
pub fn sparkamp_now_playing_tag_count(np: Option<&SparkampNowPlaying>) -> (r: i32)
    ensures
        r == (match np {
            Some(n) => n.info.tags@.len() as i32,
            None => 0,
        }),
{
    match np {
        Some(n) => count_of(&n.info.tags),
        None => 0,
    }
}

/// The label of a tag row, empty out of range.
pub fn sparkamp_now_playing_tag_label(np: Option<&SparkampNowPlaying>, i: i32) -> (r: String)
    ensures
        r@ == (match np {
            Some(n) => row_shown(n.info.tags@, i).0,
            None => Seq::empty(),
        }),
{
    match np {
        Some(n) => label_at(&n.info.tags, i),
        None => empty(),
    }
}

/// The value of a tag row, empty out of range.
pub fn sparkamp_now_playing_tag_value(np: Option<&SparkampNowPlaying>, i: i32) -> (r: String)
    ensures
        r@ == (match np {
            Some(n) => row_shown(n.info.tags@, i).1,
            None => Seq::empty(),
        }),
{
    match np {
        Some(n) => value_at(&n.info.tags, i),
        None => empty(),
    }
}

/// How many technical rows there are, cut to the width that crosses.
pub fn sparkamp_now_playing_technical_count(np: Option<&SparkampNowPlaying>) -> (r: i32)
    ensures
        r == (match np {
            Some(n) => n.info.technical@.len() as i32,
            None => 0,
        }),
{
    match np {
        Some(n) => count_of(&n.info.technical),
        None => 0,
    }
}

/// The label of a technical row, empty out of range.
pub fn sparkamp_now_playing_technical_label(np: Option<&SparkampNowPlaying>, i: i32) -> (r: String)
    ensures
        r@ == (match np {
            Some(n) => row_shown(n.info.technical@, i).0,
            None => Seq::empty(),
        }),
{
    match np {
        Some(n) => label_at(&n.info.technical, i),
        None => empty(),
    }
}

/// The value of a technical row, empty out of range.
pub fn sparkamp_now_playing_technical_value(np: Option<&SparkampNowPlaying>, i: i32) -> (r: String)
    ensures
        r@ == (match np {
            Some(n) => row_shown(n.info.technical@, i).1,
            None => Seq::empty(),
        }),
{
    match np {
        Some(n) => value_at(&n.info.technical, i),
        None => empty(),
    }
}

/// The technical facts in one line.
pub fn sparkamp_now_playing_tech_line(np: Option<&SparkampNowPlaying>) -> (r: String)
    ensures
        r@ == (match np {
            Some(n) => text::c_text(n.info.tech_line@),
            None => Seq::empty(),
        }),
{
    match np {
        Some(n) => to_c(n.info.tech_line.as_str()),
        None => empty(),
    }
}

/// One where the track has a play count.
pub fn sparkamp_now_playing_has_play_count(np: Option<&SparkampNowPlaying>) -> (r: i32)
    ensures
        r == (match np {
            Some(n) if n.info.play_count is Some => 1int,
            _ => 0,
        }),
{
    match np {
        Some(n) => if n.info.play_count.is_some() {
            1
        } else {
            0
        },
        None => 0,
    }
}

/// How often the track was played, zero where that is not known.
pub fn sparkamp_now_playing_play_count(np: Option<&SparkampNowPlaying>) -> (r: i64)
    ensures
        r == (match np {
            Some(n) => match n.info.play_count {
                Some(count) => count,
                None => 0,
            },
            None => 0,
        }),
{
    match np {
        Some(n) => match n.info.play_count {
            Some(count) => count,
            None => 0,
        },
        None => 0,
    }
}

/// Where the artwork lies, empty where that is not known.
pub fn sparkamp_now_playing_artwork_path(np: Option<&SparkampNowPlaying>) -> (r: String)
    ensures
        r@ == (match np {
            Some(n) => text::c_text(media_library::text_of(n.info.artwork_path)),
            None => Seq::empty(),
        }),
{
    match np {
        Some(n) => text_or_empty(&n.info.artwork_path),
        None => empty(),
    }
}

/// When the track was last played, empty where that is not known.
pub fn sparkamp_now_playing_last_played(np: Option<&SparkampNowPlaying>) -> (r: String)
    ensures
        r@ == (match np {
            Some(n) => text::c_text(media_library::text_of(n.info.last_played)),
            None => Seq::empty(),
        }),
{
    match np {
        Some(n) => text_or_empty(&n.info.last_played),
        None => empty(),
    }
}

/// When the file was last read, empty where that is not known.
pub fn sparkamp_now_playing_last_scanned(np: Option<&SparkampNowPlaying>) -> (r: String)
    ensures
        r@ == (match np {
            Some(n) => text::c_text(media_library::text_of(n.info.last_scanned)),
            None => Seq::empty(),
        }),
{
    match np {
        Some(n) => text_or_empty(&n.info.last_scanned),
        None => empty(),
    }
}

/// When the file came into the library, empty where that is not known.
pub fn sparkamp_now_playing_added_at(np: Option<&SparkampNowPlaying>) -> (r: String)
    ensures
        r@ == (match np {
            Some(n) => text::c_text(media_library::text_of(n.info.added_at)),
            None => Seq::empty(),
        }),
{
    match np {
        Some(n) => text_or_empty(&n.info.added_at),
        None => empty(),
    }
}

/// Where the artist can be read about, empty where that is not known.
pub fn sparkamp_now_playing_artist_wiki_url(np: Option<&SparkampNowPlaying>) -> (r: String)
    ensures
        r@ == (match np {
            Some(n) => text::c_text(media_library::text_of(n.info.artist_wiki_url)),
            None => Seq::empty(),
        }),
{
    match np {
        Some(n) => text_or_empty(&n.info.artist_wiki_url),
        None => empty(),
    }
}

/// Where the album can be read about, empty where that is not known.
pub fn sparkamp_now_playing_album_wiki_url(np: Option<&SparkampNowPlaying>) -> (r: String)
    ensures
        r@ == (match np {
            Some(n) => text::c_text(media_library::text_of(n.info.album_wiki_url)),
            None => Seq::empty(),
        }),
{
    match np {
        Some(n) => text_or_empty(&n.info.album_wiki_url),
        None => empty(),
    }
}

/// A row that is there is shown with its own label and its own value, and any other is
/// shown empty.
pub proof fn law_a_row_is_shown_with_its_own_value(
    rows: Seq<(String, String)>,
    i: i32,
    label: Seq<char>,
    value: Seq<char>,
)
    requires
        0 <= i < rows.len() ==> label == rows[i as int].0@ && value == rows[i as int].1@,
        !label.contains('\0'),
        !value.contains('\0'),
    ensures
        0 <= i < rows.len() ==> row_shown(rows, i) == (label, value),
        i < 0 || i >= rows.len() ==> row_shown(rows, i).0.len() == 0 && row_shown(rows, i).1.len() == 0,
{
}

} // verus!
