//! JSON text of plain values.

use crate::text;
use crate::text::CText;
use vstd::prelude::*;

verus! {

/// The list of texts that a JSON text holds: what `serde_json::from_str` reads
/// of it, if it is an array of strings.
pub uninterp spec fn strings_read(json: Seq<char>) -> Option<Seq<Seq<char>>>;

/// The JSON text of a list of texts: what `serde_json::to_string` writes of it.
pub uninterp spec fn strings_written(list: Seq<Seq<char>>) -> Seq<char>;

/// `serde_json::from_str` into a list of texts: the same JSON text always gives
/// the same list, or none where it is anything but an array of strings. Which
/// texts are arrays of strings is not stated.
#[verifier::external_body]
fn serde_read_strings(json: &str) -> (r: Option<Vec<String>>)
    ensures
        match r {
            Some(list) => strings_read(json@) == Some(text::views(list@)),
            None => strings_read(json@) is None,
        },
{
    serde_json::from_str::<Vec<String>>(json).ok()
}

/// `serde_json::to_string` of a list of texts: it never fails on one, the same
/// list always gives the same JSON text, and reading that text gives the list
/// back.
#[verifier::external_body]
fn serde_write_strings(list: &Vec<String>) -> (r: Option<String>)
    ensures
        r is Some,
        r->0@ == strings_written(text::views(list@)),
        strings_read(r->0@) == Some(text::views(list@)),
{
    serde_json::to_string(list).ok()
}

/// The list of texts that a JSON text holds; `None` where it holds none.
pub fn read_strings(json: &str) -> (r: Option<Vec<String>>)
    ensures
        match r {
            Some(list) => strings_read(json@) == Some(text::views(list@)),
            None => strings_read(json@) is None,
        },
{
    serde_read_strings(json)
}

/// The JSON text of a list of texts. Reading it gives the list back.
pub fn write_strings(list: &Vec<String>) -> (r: String)
    ensures
        r@ == strings_written(text::views(list@)),
        strings_read(r@) == Some(text::views(list@)),
{
    match serde_write_strings(list) {
        Some(json) => json,
        None => {
            assert(false);
            String::new()
        },
    }
}

/// The list of texts that an argument holds as JSON, empty where it holds none.
pub open spec fn strings_given(json: CText) -> Seq<Seq<char>> {
    match json {
        CText::Text(j) => match strings_read(j@) {
            Some(list) => list,
            None => Seq::empty(),
        },
        _ => Seq::empty(),
    }
}

/// The list of texts that an argument holds as JSON, empty where it holds none.
pub fn given_strings(json: &CText) -> (r: Vec<String>)
    ensures
        text::views(r@) == strings_given(*json),
{
    let none: Vec<String> = Vec::new();
    assert(text::views(none@) =~= Seq::empty());
    match json {
        CText::Text(j) => match read_strings(j.as_str()) {
            Some(list) => list,
            None => none,
        },
        _ => none,
    }
}

/// The JSON text of an object of three texts and a flag, by their names: what
/// `serde_json` writes of it.
pub uninterp spec fn object_written(
    texts: Seq<(Seq<char>, Seq<char>)>,
    flag: (Seq<char>, bool),
) -> Seq<char>;

/// `serde_json::Value::to_string` of an object that holds three texts and a flag
/// under the given names: the same names and values always give the same JSON
/// text. How the object is written out is not stated.
#[verifier::external_body]
fn serde_write_object(a: (&str, &str), b: (&str, &str), c: (&str, &str), flag: (&str, bool)) -> (r:
    String)
    ensures
        r@ == object_written(
            seq![(a.0@, a.1@), (b.0@, b.1@), (c.0@, c.1@)],
            (flag.0@, flag.1),
        ),
{
    let mut object = serde_json::Map::new();
    object.insert(a.0.to_owned(), serde_json::Value::from(a.1));
    object.insert(b.0.to_owned(), serde_json::Value::from(b.1));
    object.insert(c.0.to_owned(), serde_json::Value::from(c.1));
    object.insert(flag.0.to_owned(), serde_json::Value::from(flag.1));
    serde_json::Value::Object(object).to_string()
}

/// The JSON text of an object of three texts and a flag, by their names.
pub fn write_object(a: (&str, &str), b: (&str, &str), c: (&str, &str), flag: (&str, bool)) -> (r: String)
    ensures
        r@ == object_written(
            seq![(a.0@, a.1@), (b.0@, b.1@), (c.0@, c.1@)],
            (flag.0@, flag.1),
        ),
{
    serde_write_object(a, b, c, flag)
}

/// A list given as JSON is the list that the text says; what is no text or says no list gives
/// an empty one.
pub proof fn law_a_list_is_given_as_it_is_written(given: CText)
    ensures
        given matches CText::Text(j) ==> strings_read(j@) is Some ==> Some(strings_given(given))
            == strings_read(j@),
        given matches CText::Text(j) ==> strings_read(j@) is None ==> strings_given(given).len()
            == 0,
        !(given is Text) ==> strings_given(given).len() == 0,
{
}

} // verus!
