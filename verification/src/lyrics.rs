//! What the lyrics view shows.

use crate::text;
use crate::text::percent_encode;
use vstd::prelude::*;

verus! {

/// What the lyrics view shows of a track.
pub struct LyricsView {
    pub title: String,
    pub body: Option<String>,
    pub search_url: String,
}

/// Who a track is by: the artist, or the album's where there is none.
pub open spec fn credited(artist: Seq<char>, album_artist: Seq<char>) -> Seq<char> {
    if artist.len() > 0 {
        artist
    } else {
        album_artist
    }
}

/// The heading: who and what.
pub open spec fn heading(who: Seq<char>, title: Seq<char>) -> Seq<char> {
    if who.len() > 0 {
        who + " - "@ + title
    } else {
        title
    }
}

/// The words to search for.
pub open spec fn search_words(who: Seq<char>, title: Seq<char>) -> Seq<char> {
    if who.len() > 0 {
        who + " "@ + title + " lyrics"@
    } else {
        title + " lyrics"@
    }
}

/// Where the lyrics can be searched for.
pub open spec fn search_address(who: Seq<char>, title: Seq<char>) -> Seq<char> {
    "https://duckduckgo.com/?q="@ + text::percent_encoded(
        vstd::utf8::encode_utf8(search_words(who, title)),
        false,
    )
}

/// What the lyrics view shows of a track. `lyric` is what the file holds; an
/// empty one is none.
pub fn lyrics_view(lyric: Option<&str>, artist: &str, title: &str, album_artist: &str) -> (r: LyricsView)
    ensures
        r.title@ == heading(credited(artist@, album_artist@), title@),
        r.search_url@ == search_address(credited(artist@, album_artist@), title@),
        match lyric {
            Some(l) if l@.len() > 0 => r.body matches Some(b) && b@ == l@,
            _ => r.body is None,
        },
{
    let who = if artist.unicode_len() > 0 {
        artist
    } else {
        album_artist
    };
    let known = who.unicode_len() > 0;
    let mut shown = String::new();
    let mut words = String::new();
    if known {
        shown = who.to_owned();
        shown.append(" - ");
        words = who.to_owned();
        words.append(" ");
    }
    shown.append(title);
    words.append(title);
    words.append(" lyrics");
    assert(shown@ =~= heading(who@, title@));
    assert(words@ =~= search_words(who@, title@));
    let mut url = "https://duckduckgo.com/?q=".to_owned();
    let encoded = percent_encode(words.as_str(), false);
    url.append(encoded.as_str());
    let body = match lyric {
        Some(l) => if l.unicode_len() > 0 {
            Some(l.to_owned())
        } else {
            None
        },
        None => None,
    };
    LyricsView { title: shown, body, search_url: url }
}

/// Lyrics are shown under the artist and the title, and searched for by both; the album
/// artist stands in where there is no artist, and without either the title stands alone.
pub proof fn law_lyrics_are_headed_by_artist_and_title(
    artist: Seq<char>,
    album_artist: Seq<char>,
    title: Seq<char>,
)
    ensures
        artist.len() > 0 ==> credited(artist, album_artist) == artist,
        artist.len() == 0 ==> credited(artist, album_artist) == album_artist,
        artist.len() > 0 ==> {
            &&& heading(artist, title) == artist + seq![' ', '-', ' '] + title
            &&& search_words(artist, title) == artist + seq![' '] + title + seq![
                ' ',
                'l',
                'y',
                'r',
                'i',
                'c',
                's',
            ]
        },
        artist.len() == 0 ==> {
            &&& heading(artist, title) == title
            &&& search_words(artist, title) == title + seq![' ', 'l', 'y', 'r', 'i', 'c', 's']
        },
{
    reveal_strlit(" - ");
    reveal_strlit(" ");
    reveal_strlit(" lyrics");
    assert(" - "@ =~= seq![' ', '-', ' ']);
    assert(" "@ =~= seq![' ']);
    assert(" lyrics"@ =~= seq![' ', 'l', 'y', 'r', 'i', 'c', 's']);
}

/// The search address is one prefix and then the words searched for, encoded with slashes
/// too.
pub proof fn law_the_search_address_ends_in_its_words(who: Seq<char>, title: Seq<char>)
    ensures
        ({
            let url = search_address(who, title);
            &&& url.subrange(0, 26) == "https://duckduckgo.com/?q="@
            &&& url.subrange(26, url.len() as int) == text::percent_encoded(
                vstd::utf8::encode_utf8(search_words(who, title)),
                false,
            )
        }),
{
    reveal_strlit("https://duckduckgo.com/?q=");
    let url = search_address(who, title);
    assert(url.subrange(0, 26) =~= "https://duckduckgo.com/?q="@);
    assert(url.subrange(26, url.len() as int) =~= text::percent_encoded(
        vstd::utf8::encode_utf8(search_words(who, title)),
        false,
    ));
}

} // verus!
