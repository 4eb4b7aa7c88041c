//! What discs are called: entries of disc databases, and the categories and
//! addresses those databases ask for.

use crate::text;
use crate::text::{find, same, to_lower, trim};
use vstd::prelude::*;

verus! {

/// A disc as a database or the disc itself describes it. An empty text says
/// nothing.
pub struct XmcdEntry {
    pub discid: String,
    pub artist: String,
    pub album: String,
    pub year: String,
    pub genre: String,
    pub track_titles: Vec<String>,
    pub revision: u32,
}

/// What an entry holds.
pub struct XmcdView {
    pub discid: Seq<char>,
    pub artist: Seq<char>,
    pub album: Seq<char>,
    pub year: Seq<char>,
    pub genre: Seq<char>,
    pub track_titles: Seq<Seq<char>>,
    pub revision: u32,
}

impl View for XmcdEntry {
    type V = XmcdView;

    open spec fn view(&self) -> XmcdView {
        XmcdView {
            discid: self.discid@,
            artist: self.artist@,
            album: self.album@,
            year: self.year@,
            genre: self.genre@,
            track_titles: text::views(self.track_titles@),
            revision: self.revision,
        }
    }
}

/// The first of two texts that says something.
pub open spec fn first_said(a: Seq<char>, b: Seq<char>) -> Seq<char> {
    if a.len() > 0 {
        a
    } else {
        b
    }
}

/// One title of a list, empty past its end.
pub open spec fn title_at(titles: Seq<Seq<char>>, i: int) -> Seq<char> {
    if 0 <= i < titles.len() {
        titles[i]
    } else {
        Seq::empty()
    }
}

/// Two lists of titles, the second filling the gaps of the first.
pub open spec fn titles_merged(a: Seq<Seq<char>>, b: Seq<Seq<char>>) -> Seq<Seq<char>> {
    Seq::new(
        if a.len() >= b.len() {
            a.len()
        } else {
            b.len()
        },
        |i: int| first_said(title_at(a, i), title_at(b, i)),
    )
}

/// Two descriptions of a disc, the second filling the gaps of the first.
pub open spec fn merged(a: XmcdView, b: XmcdView) -> XmcdView {
    XmcdView {
        discid: first_said(a.discid, b.discid),
        artist: first_said(a.artist, b.artist),
        album: first_said(a.album, b.album),
        year: first_said(a.year, b.year),
        genre: first_said(a.genre, b.genre),
        track_titles: titles_merged(a.track_titles, b.track_titles),
        revision: a.revision,
    }
}

fn said(a: &String, b: &String) -> (r: String)
    ensures
        r@ == first_said(a@, b@),
{
    if a.as_str().unicode_len() > 0 {
        a.clone()
    } else {
        b.clone()
    }
}

fn title_or_none(titles: &Vec<String>, i: usize) -> (r: String)
    ensures
        r@ == title_at(text::views(titles@), i as int),
{
    if i < titles.len() {
        titles[i].clone()
    } else {
        let none = String::new();
        assert(none@ =~= Seq::empty());
        none
    }
}

impl XmcdEntry {
    /// This description, with the gaps filled from another.
    pub fn merged_with(&self, other: &XmcdEntry) -> (r: XmcdEntry)
        ensures
            r@ == merged(self@, other@),
    {
        let n: usize = if self.track_titles.len() >= other.track_titles.len() {
            self.track_titles.len()
        } else {
            other.track_titles.len()
        };
        let mut titles: Vec<String> = Vec::new();
        let ghost want = titles_merged(self@.track_titles, other@.track_titles);
        let mut i: usize = 0;
        while i < n
            invariant
                i <= n,
                n == want.len(),
                want == titles_merged(self@.track_titles, other@.track_titles),
                titles@.len() == i,
                forall|k: int| 0 <= k < i ==> (#[trigger] titles@[k])@ == want[k],
            decreases n - i,
        {
            let a = title_or_none(&self.track_titles, i);
            let b = title_or_none(&other.track_titles, i);
            titles.push(said(&a, &b));
            i += 1;
        }
        assert(text::views(titles@) =~= want);
        XmcdEntry {
            discid: said(&self.discid, &other.discid),
            artist: said(&self.artist, &other.artist),
            album: said(&self.album, &other.album),
            year: said(&self.year, &other.year),
            genre: said(&self.genre, &other.genre),
            track_titles: titles,
            revision: self.revision,
        }
    }
}

/// What the first description says stands, whatever the second says; where the
/// first says nothing, the second is heard.
pub proof fn law_the_first_source_wins(a: XmcdView, b: XmcdView, i: int)
    ensures
        a.artist.len() > 0 ==> merged(a, b).artist == a.artist,
        a.artist.len() == 0 ==> merged(a, b).artist == b.artist,
        a.album.len() > 0 ==> merged(a, b).album == a.album,
        a.album.len() == 0 ==> merged(a, b).album == b.album,
        0 <= i < a.track_titles.len() && a.track_titles[i].len() > 0
            ==> merged(a, b).track_titles[i] == a.track_titles[i],
        0 <= i < b.track_titles.len() && title_at(a.track_titles, i).len() == 0
            ==> merged(a, b).track_titles[i] == b.track_titles[i],
{
}

/// A description merged with itself is unchanged, and merging twice with the
/// same source is merging once.
pub proof fn law_merging_is_idempotent(a: XmcdView, b: XmcdView)
    ensures
        merged(a, a) == a,
        merged(merged(a, b), b) == merged(a, b),
{
    assert(merged(a, a).track_titles =~= a.track_titles);
    let once = merged(a, b);
    assert(merged(once, b).track_titles =~= once.track_titles);
}

/// The artist and the album of a whole disc.
pub struct DiscMeta {
    pub artist: String,
    pub album: String,
}

/// The artist in an "Artist - Title" line, if it has one.
pub open spec fn artist_in(display: Seq<char>, artist: Option<Seq<char>>) -> bool {
    match artist {
        Some(a) => exists|i: int|
            #[trigger] text::first_at(display, " - "@, i) && a == display.subrange(0, i),
        None => text::nowhere(display, " - "@),
    }
}

fn line_artist(display: &str) -> (r: Option<String>)
    ensures
        artist_in(
            display@,
            match r {
                Some(a) => Some(a@),
                None => None,
            },
        ),
{
    match find(display, " - ") {
        Some(i) => Some(display.substring_char(0, i).to_owned()),
        None => None,
    }
}

/// An artist that every line names.
pub open spec fn named_by_all(lines: Seq<String>, artist: Seq<char>) -> bool {
    forall|i: int| 0 <= i < lines.len() ==> artist_in((#[trigger] lines[i])@, Some(artist))
}

/// A line has one artist at most.
proof fn lemma_artist_unique(display: Seq<char>, a: Option<Seq<char>>, b: Option<Seq<char>>)
    requires
        artist_in(display, a),
        artist_in(display, b),
    ensures
        a == b,
{
    if a is Some && b is Some {
        let i = choose|i: int|
            #[trigger] text::first_at(display, " - "@, i) && a->0 == display.subrange(0, i);
        let j = choose|j: int|
            #[trigger] text::first_at(display, " - "@, j) && b->0 == display.subrange(0, j);
        assert(text::first_at(display, " - "@, i) && text::first_at(display, " - "@, j));
        assert(i == j);
    }
}

/// What a disc of these lines is called where nobody says: its artist is the one
/// that every line names, or "Various Artists"; its album has the day in it.
pub fn default_disc_meta(lines: &Vec<String>, day: &str) -> (r: DiscMeta)
    ensures
        r.album@ == "Sparkamp Disc "@ + day@,
        lines@.len() == 0 ==> r.artist@ == "Various Artists"@,
        lines@.len() > 0 ==> if exists|a: Seq<char>| named_by_all(lines@, a) {
            named_by_all(lines@, r.artist@)
        } else {
            r.artist@ == "Various Artists"@
        },
{
    let mut album = "Sparkamp Disc ".to_owned();
    album.append(day);
    if lines.len() == 0 {
        return DiscMeta { artist: "Various Artists".to_owned(), album };
    }
    let first = match line_artist(lines[0].as_str()) {
        Some(a) => a,
        None => {
            proof {
                if exists|a: Seq<char>| named_by_all(lines@, a) {
                    let a = choose|a: Seq<char>| named_by_all(lines@, a);
                    assert(artist_in(lines@[0]@, Some(a)));
                    lemma_artist_unique(lines@[0]@, Some(a), None);
                }
            }
            return DiscMeta { artist: "Various Artists".to_owned(), album };
        },
    };
    let mut i: usize = 0;
    while i < lines.len()
        invariant
            i <= lines@.len(),
            0 < lines@.len(),
            artist_in(lines@[0]@, Some(first@)),
            album@ == "Sparkamp Disc "@ + day@,
            forall|k: int| 0 <= k < i ==> artist_in((#[trigger] lines@[k])@, Some(first@)),
        decreases lines@.len() - i,
    {
        let other = line_artist(lines[i].as_str());
        let agrees = match &other {
            Some(a) => same(a.as_str(), first.as_str()),
            None => false,
        };
        if !agrees {
            proof {
                let found = match other {
                    Some(a) => Some(a@),
                    None => None,
                };
                if exists|a: Seq<char>| named_by_all(lines@, a) {
                    let a = choose|a: Seq<char>| named_by_all(lines@, a);
                    assert(artist_in(lines@[0]@, Some(a)));
                    lemma_artist_unique(lines@[0]@, Some(a), Some(first@));
                    assert(artist_in(lines@[i as int]@, Some(a)));
                    lemma_artist_unique(lines@[i as int]@, Some(a), found);
                }
            }
            return DiscMeta { artist: "Various Artists".to_owned(), album };
        }
        i += 1;
    }
    DiscMeta { artist: first, album }
}

/// The categories that disc databases know, in their order.
pub open spec fn categories() -> Seq<Seq<char>> {
    seq![
        "blues"@,
        "classical"@,
        "country"@,
        "data"@,
        "folk"@,
        "jazz"@,
        "misc"@,
        "newage"@,
        "reggae"@,
        "rock"@,
        "soundtrack"@,
    ]
}

/// The categories that disc databases know, in their order.
pub fn category_list() -> (r: Vec<String>)
    ensures
        text::views(r@) == categories(),
{
    let mut r: Vec<String> = Vec::new();
    r.push("blues".to_owned());
    r.push("classical".to_owned());
    r.push("country".to_owned());
    r.push("data".to_owned());
    r.push("folk".to_owned());
    r.push("jazz".to_owned());
    r.push("misc".to_owned());
    r.push("newage".to_owned());
    r.push("reggae".to_owned());
    r.push("rock".to_owned());
    r.push("soundtrack".to_owned());
    assert(text::views(r@) =~= categories());
    r
}

/// The first category whose name a genre holds, in capitals or not.
pub open spec fn category_of(genre: Seq<char>, i: int) -> bool {
    &&& 0 <= i < categories().len()
    &&& !text::nowhere(text::lowered(genre), categories()[i])
    &&& forall|k: int|
        0 <= k < i ==> text::nowhere(text::lowered(genre), #[trigger] categories()[k])
}

/// A genre names no category.
pub open spec fn no_category(genre: Seq<char>) -> bool {
    forall|k: int|
        0 <= k < categories().len() ==> text::nowhere(
            text::lowered(genre),
            #[trigger] categories()[k],
        )
}

/// The category to suggest for a genre: the first whose name it holds, and
/// "misc" where it holds none.
pub fn suggest_category(genre: &str) -> (r: String)
    ensures
        no_category(genre@) ==> r@ == "misc"@,
        forall|i: int| #[trigger] category_of(genre@, i) ==> r@ == categories()[i],
        categories().contains(r@),
{
    let known = category_list();
    let low = to_lower(genre);
    let mut i: usize = 0;
    while i < known.len()
        invariant
            i <= known@.len(),
            text::views(known@) == categories(),
            low@ == text::lowered(genre@),
            forall|k: int|
                0 <= k < i ==> text::nowhere(text::lowered(genre@), #[trigger] categories()[k]),
        decreases known@.len() - i,
    {
        assert(known@[i as int]@ == text::views(known@)[i as int]);
        if let Some(at) = find(low.as_str(), known[i].as_str()) {
            proof {
                let name = categories()[i as int];
                assert(low@.subrange(at as int, at + name.len()) == name);
                assert forall|j: int| #[trigger] category_of(genre@, j) implies j == i by {
                    if j < i {
                        assert(text::nowhere(text::lowered(genre@), categories()[j]));
                    } else if j > i {
                        assert(text::nowhere(text::lowered(genre@), categories()[i as int]));
                    }
                }
            }
            return known[i].clone();
        }
        i += 1;
    }
    proof {
        assert forall|j: int| #[trigger] category_of(genre@, j) implies false by {
            assert(text::nowhere(text::lowered(genre@), categories()[j]));
        }
        assert(categories()[6] == "misc"@);
    }
    "misc".to_owned()
}

/// Whether an address stands for none: blank, or the one that older settings
/// came with.
pub open spec fn no_address(email: Seq<char>, retired: Seq<char>) -> bool {
    text::trimmed(email).len() == 0 || text::trimmed(email) == retired
}

/// Whether an address stands for none.
pub fn is_unset_email(email: &str, retired: &str) -> (r: bool)
    ensures
        r == no_address(email@, retired@),
{
    let bare = trim(email);
    bare.as_str().unicode_len() == 0 || same(bare.as_str(), retired)
}

/// Whether an address has the shape of one: something, an at sign, something, a
/// dot, and something.
pub open spec fn address_shape(s: Seq<char>) -> bool {
    exists|i: int, j: int|
        0 < i && i + 1 < j && j + 1 < s.len() && #[trigger] s[i] == '@' && #[trigger] s[j] == '.'
}

/// Whether an address has the shape of one.
pub fn is_valid_email(s: &str) -> (r: bool)
    ensures
        r == address_shape(s@),
{
    let n: usize = s.unicode_len();
    if n < 5 {
        return false;
    }
    let mut i: usize = 1;
    while i < n && s.get_char(i) != '@'
        invariant
            1 <= i <= n,
            n == s@.len(),
            forall|k: int| 1 <= k < i ==> (#[trigger] s@[k]) != '@',
        decreases n - i,
    {
        i += 1;
    }
    if i >= n {
        return false;
    }
    if n - i < 4 {
        return false;
    }
    let mut j: usize = i + 2;
    while j < n - 1 && s.get_char(j) != '.'
        invariant
            i + 2 <= j <= n - 1,
            n == s@.len(),
            forall|k: int| i + 2 <= k < j ==> (#[trigger] s@[k]) != '.',
        decreases n - j,
    {
        j += 1;
    }
    if j < n - 1 {
        assert(s@[i as int] == '@' && s@[j as int] == '.');
        true
    } else {
        false
    }
}

/// Every field of a merged description is the first that says anything, and there are as
/// many titles as the longer list has.
pub proof fn law_every_field_is_the_first_that_speaks(a: XmcdView, b: XmcdView)
    ensures
        merged(a, b).discid == (if a.discid.len() > 0 {
            a.discid
        } else {
            b.discid
        }),
        merged(a, b).year == (if a.year.len() > 0 {
            a.year
        } else {
            b.year
        }),
        merged(a, b).genre == (if a.genre.len() > 0 {
            a.genre
        } else {
            b.genre
        }),
        merged(a, b).track_titles.len() >= a.track_titles.len(),
        merged(a, b).track_titles.len() >= b.track_titles.len(),
        merged(a, b).track_titles.len() == a.track_titles.len() || merged(a, b).track_titles.len()
            == b.track_titles.len(),
        merged(a, b).revision == a.revision,
{
}

/// The artist of a line stands before its first dash between blanks, and a line without
/// one has none.
pub proof fn law_the_artist_stands_before_the_dash(artist: Seq<char>, title: Seq<char>, other: Seq<char>)
    requires
        text::first_at(artist + seq![' ', '-', ' '] + title, seq![' ', '-', ' '], artist.len() as int),
        artist_in(artist + seq![' ', '-', ' '] + title, Some(other)),
    ensures
        other == artist,
        !artist_in(artist + seq![' ', '-', ' '] + title, None),
{
    reveal_strlit(" - ");
    let mark = seq![' ', '-', ' '];
    assert(" - "@ =~= mark);
    let line = artist + mark + title;
    let i = choose|i: int| #[trigger] text::first_at(line, " - "@, i) && other == line.subrange(0, i);
    crate::disc::lemma_first_at_unique(line, mark, i, artist.len() as int);
    assert(line.subrange(0, artist.len() as int) =~= artist);
    assert(line.subrange(artist.len() as int, artist.len() as int + mark.len()) == mark);
}

/// The categories are these eleven, in the order of the alphabet.
pub proof fn law_there_are_eleven_categories()
    ensures
        categories().len() == 11,
        categories()[0] == seq!['b', 'l', 'u', 'e', 's'],
        categories()[1] == seq!['c', 'l', 'a', 's', 's', 'i', 'c', 'a', 'l'],
        categories()[2] == seq!['c', 'o', 'u', 'n', 't', 'r', 'y'],
        categories()[3] == seq!['d', 'a', 't', 'a'],
        categories()[4] == seq!['f', 'o', 'l', 'k'],
        categories()[5] == seq!['j', 'a', 'z', 'z'],
        categories()[6] == seq!['m', 'i', 's', 'c'],
        categories()[7] == seq!['n', 'e', 'w', 'a', 'g', 'e'],
        categories()[8] == seq!['r', 'e', 'g', 'g', 'a', 'e'],
        categories()[9] == seq!['r', 'o', 'c', 'k'],
        categories()[10] == seq!['s', 'o', 'u', 'n', 'd', 't', 'r', 'a', 'c', 'k'],
{
    reveal_strlit("blues");
    reveal_strlit("classical");
    reveal_strlit("country");
    reveal_strlit("data");
    reveal_strlit("folk");
    reveal_strlit("jazz");
    reveal_strlit("misc");
    reveal_strlit("newage");
    reveal_strlit("reggae");
    reveal_strlit("rock");
    reveal_strlit("soundtrack");
    assert(categories()[0] =~= seq!['b', 'l', 'u', 'e', 's']);
    assert(categories()[1] =~= seq!['c', 'l', 'a', 's', 's', 'i', 'c', 'a', 'l']);
    assert(categories()[2] =~= seq!['c', 'o', 'u', 'n', 't', 'r', 'y']);
    assert(categories()[3] =~= seq!['d', 'a', 't', 'a']);
    assert(categories()[4] =~= seq!['f', 'o', 'l', 'k']);
    assert(categories()[5] =~= seq!['j', 'a', 'z', 'z']);
    assert(categories()[6] =~= seq!['m', 'i', 's', 'c']);
    assert(categories()[7] =~= seq!['n', 'e', 'w', 'a', 'g', 'e']);
    assert(categories()[8] =~= seq!['r', 'e', 'g', 'g', 'a', 'e']);
    assert(categories()[9] =~= seq!['r', 'o', 'c', 'k']);
    assert(categories()[10] =~= seq!['s', 'o', 'u', 'n', 'd', 't', 'r', 'a', 'c', 'k']);
}

/// The category of a genre is one whose name the genre holds, in capitals or not, and no
/// earlier one's; where the genre holds none of them it has no category.
pub proof fn law_a_category_is_named_in_its_genre(genre: Seq<char>, i: int, k: int)
    requires
        0 <= k < categories().len(),
    ensures
        category_of(genre, i) ==> {
            &&& 0 <= i < categories().len()
            &&& text::held_in(text::lowered(genre), categories()[i])
            &&& k < i ==> !text::held_in(text::lowered(genre), categories()[k])
        },
        no_category(genre) ==> !text::held_in(text::lowered(genre), categories()[k]),
        category_of(genre, i) ==> !no_category(genre),
{
    text::law_a_text_is_found_where_it_stands(text::lowered(genre), categories()[k], 0);
    if category_of(genre, i) {
        text::law_a_text_is_found_where_it_stands(text::lowered(genre), categories()[i], 0);
    }
}

/// An address is unset where it is blank or the retired one, with blanks round it or not.
pub proof fn law_a_blank_address_is_unset(lead: Seq<char>, email: Seq<char>, tail: Seq<char>, retired: Seq<char>)
    requires
        forall|i: int| 0 <= i < lead.len() ==> text::is_space(#[trigger] lead[i]),
        forall|i: int| 0 <= i < tail.len() ==> text::is_space(#[trigger] tail[i]),
        email.len() > 0,
        !text::is_space(email[0]),
        !text::is_space(email.last()),
    ensures
        no_address(lead, retired),
        no_address(lead + email + tail, email),
        email != retired ==> !no_address(lead + email + tail, retired),
{
    text::law_trimming_leaves_what_is_between(lead, email, tail);
}

/// An address has a name, an at sign, a host, a dot and an ending; without any of these it
/// is none.
pub proof fn law_an_address_has_its_five_parts(
    name: Seq<char>,
    host: Seq<char>,
    ending: Seq<char>,
    other: Seq<char>,
)
    requires
        name.len() > 0,
        host.len() > 0,
        ending.len() > 0,
        !other.contains('@') || !other.contains('.') || other.len() < 5,
    ensures
        address_shape(name + seq!['@'] + host + seq!['.'] + ending),
        !address_shape(other),
{
    let s = name + seq!['@'] + host + seq!['.'] + ending;
    let i = name.len() as int;
    let j = i + 1 + host.len() as int;
    assert(s[i] == '@');
    assert(s[j] == '.');
    assert forall|i: int, j: int|
        !(0 < i && i + 1 < j && j + 1 < other.len() && #[trigger] other[i] == '@'
            && #[trigger] other[j] == '.') by {
        if 0 < i && i + 1 < j && j + 1 < other.len() && other[i] == '@' && other[j] == '.' {
            assert(other.contains('@'));
            assert(other.contains('.'));
        }
    }
}

/// A genre belongs to the first category that it names in any letters, and to none where it
/// names none.
pub proof fn law_a_genre_belongs_to_the_first_it_names(genre: Seq<char>, i: int)
    requires
        0 <= i < categories().len(),
    ensures
        text::held_in(text::lowered(genre), categories()[i]) && (forall|k: int|
            0 <= k < i ==> !text::held_in(text::lowered(genre), #[trigger] categories()[k]))
            ==> category_of(genre, i),
        (forall|k: int|
            0 <= k < categories().len() ==> !text::held_in(
                text::lowered(genre),
                #[trigger] categories()[k],
            )) ==> no_category(genre),
{
    let low = text::lowered(genre);
    assert forall|k: int| 0 <= k < categories().len() && !text::held_in(
        low,
        #[trigger] categories()[k],
    ) implies text::nowhere(low, categories()[k]) by {
        text::law_a_text_is_found_where_it_stands(low, categories()[k], 0);
    }
    text::law_a_text_is_found_where_it_stands(low, categories()[i], 0);
}

} // verus!
