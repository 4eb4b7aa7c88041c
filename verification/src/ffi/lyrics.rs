//! The lyrics view.

use crate::json;
use crate::json::write_object;
use crate::lyrics;
use crate::lyrics::lyrics_view;
use crate::media_library::owned_text;
use crate::text;
use crate::text::{c_or_empty, CText};
use vstd::prelude::*;

verus! {

/// The JSON text of a lyrics view.
pub open spec fn view_written(
    title: Seq<char>,
    body: Option<Seq<char>>,
    search_url: Seq<char>,
) -> Seq<char> {
    json::object_written(
        seq![
            ("title"@, title),
            (
                "body"@,
                match body {
                    Some(b) => b,
                    None => Seq::empty(),
                },
            ),
            ("search_url"@, search_url),
        ],
        ("has_body"@, body is Some),
    )
}

/// The lyric a view has, if any.
pub open spec fn lyric_shown(lyric: Option<&str>) -> Option<Seq<char>> {
    match lyric {
        Some(l) if l@.len() > 0 => Some(l@),
        _ => None,
    }
}

/// The JSON text of what the lyrics view shows of a track; nothing without a
/// path. `lyric` is what the file at the path holds.
pub fn sparkamp_lyrics_view(
    path: &CText,
    artist: &CText,
    title: &CText,
    album_artist: &CText,
    lyric: Option<&str>,
) -> (r: Option<String>)
    ensures
        match r {
            Some(out) => !(path is Null) && out@ == view_written(
                lyrics::heading(
                    lyrics::credited(text::c_given(*artist), text::c_given(*album_artist)),
                    text::c_given(*title),
                ),
                lyric_shown(lyric),
                lyrics::search_address(
                    lyrics::credited(text::c_given(*artist), text::c_given(*album_artist)),
                    text::c_given(*title),
                ),
            ),
            None => path is Null,
        },
{
    if let CText::Null = path {
        return None;
    }
    let artist = c_or_empty(artist);
    let title = c_or_empty(title);
    let album_artist = c_or_empty(album_artist);
    let view = lyrics_view(lyric, artist.as_str(), title.as_str(), album_artist.as_str());
    let body = owned_text(&view.body);
    let has_body = view.body.is_some();
    let out = write_object(
        ("title", view.title.as_str()),
        ("body", body.as_str()),
        ("search_url", view.search_url.as_str()),
        ("has_body", has_body),
    );
    proof {
        let who = lyrics::credited(artist@, album_artist@);
        let shown = lyric_shown(lyric);
        assert(has_body == (shown is Some));
        assert(body@ == (match shown {
            Some(b) => b,
            None => Seq::empty(),
        }));
        let texts = seq![
            ("title"@, view.title@),
            ("body"@, body@),
            ("search_url"@, view.search_url@),
        ];
        assert(out@ == json::object_written(texts, ("has_body"@, has_body)));
        assert(texts =~= seq![
            ("title"@, lyrics::heading(who, title@)),
            (
                "body"@,
                match shown {
                    Some(b) => b,
                    None => Seq::empty(),
                },
            ),
            ("search_url"@, lyrics::search_address(who, title@)),
        ]);
    }
    Some(out)
}

/// The view of a track names its heading, its lyric and the address of a search, and says
/// whether it has a lyric.
pub proof fn law_a_view_names_what_it_holds(
    title: Seq<char>,
    body: Seq<char>,
    search_url: Seq<char>,
)
    ensures
        view_written(title, Some(body), search_url) == json::object_written(
            seq![
                (seq!['t', 'i', 't', 'l', 'e'], title),
                (seq!['b', 'o', 'd', 'y'], body),
                (seq!['s', 'e', 'a', 'r', 'c', 'h', '_', 'u', 'r', 'l'], search_url),
            ],
            (seq!['h', 'a', 's', '_', 'b', 'o', 'd', 'y'], true),
        ),
        view_written(title, None, search_url) == json::object_written(
            seq![
                (seq!['t', 'i', 't', 'l', 'e'], title),
                (seq!['b', 'o', 'd', 'y'], Seq::empty()),
                (seq!['s', 'e', 'a', 'r', 'c', 'h', '_', 'u', 'r', 'l'], search_url),
            ],
            (seq!['h', 'a', 's', '_', 'b', 'o', 'd', 'y'], false),
        ),
{
    reveal_strlit("title");
    reveal_strlit("body");
    reveal_strlit("search_url");
    reveal_strlit("has_body");
    assert("title"@ =~= seq!['t', 'i', 't', 'l', 'e']);
    assert("body"@ =~= seq!['b', 'o', 'd', 'y']);
    assert("search_url"@ =~= seq!['s', 'e', 'a', 'r', 'c', 'h', '_', 'u', 'r', 'l']);
    assert("has_body"@ =~= seq!['h', 'a', 's', '_', 'b', 'o', 'd', 'y']);
    assert(seq![("title"@, title), ("body"@, body), ("search_url"@, search_url)] =~= seq![
        (seq!['t', 'i', 't', 'l', 'e'], title),
        (seq!['b', 'o', 'd', 'y'], body),
        (seq!['s', 'e', 'a', 'r', 'c', 'h', '_', 'u', 'r', 'l'], search_url),
    ]);
    let none: Seq<char> = Seq::empty();
    assert(seq![("title"@, title), ("body"@, none), ("search_url"@, search_url)] =~= seq![
        (seq!['t', 'i', 't', 'l', 'e'], title),
        (seq!['b', 'o', 'd', 'y'], none),
        (seq!['s', 'e', 'a', 'r', 'c', 'h', '_', 'u', 'r', 'l'], search_url),
    ]);
    let empty: Option<Seq<char>> = None;
    let full: Option<Seq<char>> = Some(body);
    assert(seq![
        ("title"@, title),
        (
            "body"@,
            match empty {
                Some(b) => b,
                None => Seq::empty(),
            },
        ),
        ("search_url"@, search_url),
    ] =~= seq![("title"@, title), ("body"@, none), ("search_url"@, search_url)]);
    assert(seq![
        ("title"@, title),
        (
            "body"@,
            match full {
                Some(b) => b,
                None => Seq::empty(),
            },
        ),
        ("search_url"@, search_url),
    ] =~= seq![("title"@, title), ("body"@, body), ("search_url"@, search_url)]);
}

/// A lyric is shown as it is, unless it is empty or there is none.
pub proof fn law_a_lyric_is_shown_as_it_is(lyric: &str)
    ensures
        lyric_shown(None) is None,
        lyric@.len() == 0 ==> lyric_shown(Some(lyric)) is None,
        lyric@.len() > 0 ==> lyric_shown(Some(lyric)) == Some(lyric@),
{
}

} // verus!
