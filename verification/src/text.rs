//! Small text operations with exact contracts over `Seq<char>`.

use vstd::prelude::*;

verus! {

/// Whether `s` begins with `prefix`.
pub fn starts_with(s: &str, prefix: &str) -> (r: bool)
    ensures
        r == prefix@.is_prefix_of(s@),
{
    let n: usize = prefix.unicode_len();
    let m: usize = s.unicode_len();
    if n > m {
        return false;
    }
    let mut i: usize = 0;
    while i < n
        invariant
            i <= n,
            n == prefix@.len(),
            m == s@.len(),
            n <= m,
            forall|k: int| 0 <= k < i ==> prefix@[k] == s@[k],
        decreases n - i,
    {
        if prefix.get_char(i) != s.get_char(i) {
            assert(prefix@[i as int] != s@.subrange(0, n as int)[i as int]);
            return false;
        }
        i += 1;
    }
    assert(prefix@ =~= s@.subrange(0, n as int));
    true
}

/// Where `needle` first occurs in `hay`, as an index of characters.
pub open spec fn first_at(hay: Seq<char>, needle: Seq<char>, i: int) -> bool {
    &&& 0 <= i <= hay.len() - needle.len()
    &&& hay.subrange(i, i + needle.len()) == needle
    &&& forall|j: int| 0 <= j < i ==> #[trigger] hay.subrange(j, j + needle.len()) != needle
}

/// `hay` holds `needle` nowhere.
pub open spec fn nowhere(hay: Seq<char>, needle: Seq<char>) -> bool {
    forall|j: int| 0 <= j <= hay.len() - needle.len() ==> #[trigger] hay.subrange(j, j + needle.len()) != needle
}

/// The first place `needle` occurs in `hay`, or `None`.
pub fn find(hay: &str, needle: &str) -> (r: Option<usize>)
    ensures
        match r {
            Some(i) => first_at(hay@, needle@, i as int),
            None => nowhere(hay@, needle@),
        },
{
    let n: usize = needle.unicode_len();
    let m: usize = hay.unicode_len();
    if n > m {
        return None;
    }
    let mut i: usize = 0;
    loop
        invariant
            n == needle@.len(),
            m == hay@.len(),
            n <= m,
            i <= m - n,
            forall|j: int| 0 <= j < i ==> #[trigger] hay@.subrange(j, j + n) != needle@,
        decreases m - n - i,
    {
        let window = hay.substring_char(i, i + n);
        if same(window, needle) {
            return Some(i);
        }
        if i == m - n {
            return None;
        }
        i += 1;
    }
}

/// Whether two texts hold the same characters.
pub fn same(a: &str, b: &str) -> (r: bool)
    ensures
        r == (a@ == b@),
{
    let n: usize = a.unicode_len();
    if n != b.unicode_len() {
        return false;
    }
    let mut i: usize = 0;
    while i < n
        invariant
            i <= n,
            n == a@.len(),
            n == b@.len(),
            forall|k: int| 0 <= k < i ==> a@[k] == b@[k],
        decreases n - i,
    {
        if a.get_char(i) != b.get_char(i) {
            return false;
        }
        i += 1;
    }
    assert(a@ =~= b@);
    true
}

/// Whether `a` comes before `b` or is the same, by the order of characters.
pub open spec fn text_before(a: Seq<char>, b: Seq<char>) -> bool
    decreases a.len(),
{
    if a.len() == 0 {
        true
    } else if b.len() == 0 {
        false
    } else if a[0] != b[0] {
        (a[0] as int) < (b[0] as int)
    } else {
        text_before(a.subrange(1, a.len() as int), b.subrange(1, b.len() as int))
    }
}

pub proof fn lemma_text_before_total(a: Seq<char>, b: Seq<char>)
    ensures
        text_before(a, b) || text_before(b, a),
    decreases a.len(),
{
    if a.len() > 0 && b.len() > 0 && a[0] == b[0] {
        lemma_text_before_total(a.subrange(1, a.len() as int), b.subrange(1, b.len() as int));
    }
}

pub proof fn lemma_text_before_transitive(a: Seq<char>, b: Seq<char>, c: Seq<char>)
    requires
        text_before(a, b),
        text_before(b, c),
    ensures
        text_before(a, c),
    decreases a.len(),
{
    if a.len() > 0 && b.len() > 0 && c.len() > 0 && a[0] == b[0] && b[0] == c[0] {
        lemma_text_before_transitive(
            a.subrange(1, a.len() as int),
            b.subrange(1, b.len() as int),
            c.subrange(1, c.len() as int),
        );
    }
}

/// Whether `a` comes before `b` or is the same, by the order of characters.
pub fn before_text(a: &str, b: &str) -> (r: bool)
    ensures
        r == text_before(a@, b@),
{
    let n: usize = a.unicode_len();
    let m: usize = b.unicode_len();
    let mut i: usize = 0;
    assert(a@.subrange(0, n as int) =~= a@);
    assert(b@.subrange(0, m as int) =~= b@);
    loop
        invariant
            n == a@.len(),
            m == b@.len(),
            i <= n,
            i <= m,
            text_before(a@, b@) == text_before(
                a@.subrange(i as int, n as int),
                b@.subrange(i as int, m as int),
            ),
        decreases n - i,
    {
        if i == n {
            return true;
        }
        if i == m {
            return false;
        }
        let x: char = a.get_char(i);
        let y: char = b.get_char(i);
        let ghost ra = a@.subrange(i as int, n as int);
        let ghost rb = b@.subrange(i as int, m as int);
        assert(ra[0] == x && rb[0] == y);
        if x != y {
            return (x as u32) < (y as u32);
        }
        assert(ra.subrange(1, ra.len() as int) =~= a@.subrange(i + 1, n as int));
        assert(rb.subrange(1, rb.len() as int) =~= b@.subrange(i + 1, m as int));
        i += 1;
    }
}

/// Whether a character is white space, as Unicode has it.
pub open spec fn is_space(c: char) -> bool {
    let n = c as int;
    ||| 0x9 <= n <= 0xd
    ||| n == 0x20
    ||| n == 0x85
    ||| n == 0xa0
    ||| n == 0x1680
    ||| 0x2000 <= n <= 0x200a
    ||| n == 0x2028
    ||| n == 0x2029
    ||| n == 0x202f
    ||| n == 0x205f
    ||| n == 0x3000
}

/// A text without the white space it starts with.
pub open spec fn trimmed_start(s: Seq<char>) -> Seq<char>
    decreases s.len(),
{
    if s.len() > 0 && is_space(s[0]) {
        trimmed_start(s.subrange(1, s.len() as int))
    } else {
        s
    }
}

/// A text without the white space it ends with.
pub open spec fn trimmed_end(s: Seq<char>) -> Seq<char>
    decreases s.len(),
{
    if s.len() > 0 && is_space(s.last()) {
        trimmed_end(s.drop_last())
    } else {
        s
    }
}

/// A text without the white space round it.
pub open spec fn trimmed(s: Seq<char>) -> Seq<char> {
    trimmed_end(trimmed_start(s))
}

fn space(c: char) -> (r: bool)
    ensures
        r == is_space(c),
{
    let n: u32 = c as u32;
    (0x9 <= n && n <= 0xd) || n == 0x20 || n == 0x85 || n == 0xa0 || n == 0x1680 || (0x2000 <= n && n
        <= 0x200a) || n == 0x2028 || n == 0x2029 || n == 0x202f || n == 0x205f || n == 0x3000
}

/// A text without the white space round it.
pub fn trim(s: &str) -> (r: String)
    ensures
        r@ == trimmed(s@),
{
    let n: usize = s.unicode_len();
    let mut i: usize = 0;
    assert(s@.subrange(0, n as int) =~= s@);
    while i < n && space(s.get_char(i))
        invariant
            i <= n,
            n == s@.len(),
            trimmed_start(s@) == trimmed_start(s@.subrange(i as int, n as int)),
        decreases n - i,
    {
        let ghost rest = s@.subrange(i as int, n as int);
        assert(rest[0] == s@[i as int]);
        assert(rest.subrange(1, rest.len() as int) =~= s@.subrange(i + 1, n as int));
        i += 1;
    }
    let ghost from = s@.subrange(i as int, n as int);
    assert(trimmed_start(s@) == from) by {
        if i < n {
            assert(from[0] == s@[i as int]);
        }
    }
    let mut j: usize = n;
    while j > i && space(s.get_char(j - 1))
        invariant
            i <= j <= n,
            n == s@.len(),
            from == s@.subrange(i as int, n as int),
            trimmed_end(from) == trimmed_end(s@.subrange(i as int, j as int)),
        decreases j,
    {
        let ghost rest = s@.subrange(i as int, j as int);
        assert(rest.last() == s@[j - 1]);
        assert(rest.drop_last() =~= s@.subrange(i as int, j - 1));
        j -= 1;
    }
    proof {
        let rest = s@.subrange(i as int, j as int);
        if j > i {
            assert(rest.last() == s@[j - 1]);
        }
    }
    s.substring_char(i, j).to_owned()
}

/// Whether a text can cross as a C string: it holds no zero character.
pub fn fits_c(s: &str) -> (r: bool)
    ensures
        r == !s@.contains('\0'),
{
    let n: usize = s.unicode_len();
    let mut i: usize = 0;
    while i < n
        invariant
            i <= n,
            n == s@.len(),
            forall|k: int| 0 <= k < i ==> #[trigger] s@[k] != '\0',
        decreases n - i,
    {
        if s.get_char(i) == '\0' {
            assert(s@[i as int] == '\0');
            return false;
        }
        i += 1;
    }
    true
}

/// What crosses of a text as a C string, where one that cannot crosses empty.
pub open spec fn c_text(s: Seq<char>) -> Seq<char> {
    if s.contains('\0') {
        Seq::empty()
    } else {
        s
    }
}

/// Whether `r` is what crosses of a text as a C string, where one that cannot
/// crosses as null.
pub open spec fn crosses(s: Seq<char>, r: Option<String>) -> bool {
    match r {
        Some(t) => t@ == s && !s.contains('\0'),
        None => s.contains('\0'),
    }
}

/// What crosses of a text as a C string, where one that cannot crosses as null.
pub fn c_or_null(s: &str) -> (r: Option<String>)
    ensures
        crosses(s@, r),
{
    if fits_c(s) {
        Some(s.to_owned())
    } else {
        None
    }
}

/// What crosses of a text as a C string, where one that cannot crosses empty.
pub fn to_c(s: &str) -> (r: String)
    ensures
        r@ == c_text(s@),
{
    if fits_c(s) {
        s.to_owned()
    } else {
        String::new()
    }
}

/// The text of an argument, empty where it is null.
pub open spec fn given(s: Option<&str>) -> Seq<char> {
    match s {
        Some(t) => t@,
        None => Seq::empty(),
    }
}

/// The text of an argument, empty where it is null.
pub fn or_empty(s: Option<&str>) -> (r: String)
    ensures
        r@ == given(s),
{
    match s {
        Some(t) => t.to_owned(),
        None => String::new(),
    }
}

/// `String::push`: the text with the character behind it, and nothing else
/// changed.
pub assume_specification [String::push] (s: &mut String, c: char)
    ensures
        final(s)@ == old(s)@.push(c),
;

/// Whether a byte stands for itself in a percent-encoded text.
pub open spec fn unreserved(b: u8) -> bool {
    ||| 0x41 <= b <= 0x5a
    ||| 0x61 <= b <= 0x7a
    ||| 0x30 <= b <= 0x39
    ||| b == 0x2d
    ||| b == 0x2e
    ||| b == 0x5f
    ||| b == 0x7e
}

/// One hexadecimal digit, in capitals.
pub open spec fn hex_digit(n: u8) -> char {
    if n < 10 {
        (0x30 + n) as char
    } else {
        (0x37 + n) as char
    }
}

/// One byte, percent-encoded.
pub open spec fn encoded_byte(b: u8, slashes: bool) -> Seq<char> {
    if unreserved(b) || (slashes && b == 0x2f) {
        seq![b as char]
    } else {
        seq!['%', hex_digit(b / 16), hex_digit(b % 16)]
    }
}

/// Bytes, percent-encoded; `slashes` says whether a slash stands for itself.
pub open spec fn percent_encoded(bytes: Seq<u8>, slashes: bool) -> Seq<char>
    decreases bytes.len(),
{
    if bytes.len() == 0 {
        Seq::empty()
    } else {
        percent_encoded(bytes.drop_last(), slashes) + encoded_byte(bytes.last(), slashes)
    }
}

fn hex(n: u8) -> (r: char)
    requires
        n < 16,
    ensures
        r == hex_digit(n),
{
    if n < 10 {
        (0x30 + n) as char
    } else {
        (0x37 + n) as char
    }
}

/// A text, percent-encoded over its UTF-8 bytes.
pub fn percent_encode(s: &str, slashes: bool) -> (r: String)
    ensures
        r@ == percent_encoded(vstd::utf8::encode_utf8(s@), slashes),
{
    let bytes = s.as_bytes();
    let mut out = String::new();
    let mut i: usize = 0;
    assert(bytes@.subrange(0, 0) =~= Seq::empty());
    while i < bytes.len()
        invariant
            i <= bytes@.len(),
            bytes@ == vstd::utf8::encode_utf8(s@),
            out@ == percent_encoded(bytes@.subrange(0, i as int), slashes),
        decreases bytes@.len() - i,
    {
        let b: u8 = bytes[i];
        let ghost head = bytes@.subrange(0, i + 1);
        let ghost before = out@;
        assert(head.drop_last() =~= bytes@.subrange(0, i as int));
        let plain = (0x41 <= b && b <= 0x5a) || (0x61 <= b && b <= 0x7a) || (0x30 <= b && b <= 0x39) || b
            == 0x2d || b == 0x2e || b == 0x5f || b == 0x7e || (slashes && b == 0x2f);
        if plain {
            out.push(b as char);
        } else {
            out.push('%');
            out.push(hex(b / 16));
            out.push(hex(b % 16));
        }
        assert(out@ =~= before + encoded_byte(b, slashes));
        i += 1;
    }
    assert(bytes@.subrange(0, i as int) =~= bytes@);
    out
}

/// One decimal digit.
pub open spec fn digit(n: nat) -> char {
    (0x30 + n) as char
}

/// A number in decimal, without leading zeros.
pub open spec fn decimal(n: nat) -> Seq<char>
    decreases n,
{
    if n < 10 {
        seq![digit(n)]
    } else {
        decimal(n / 10).push(digit(n % 10))
    }
}

/// A number in decimal, without leading zeros.
pub fn to_decimal(n: u64) -> (r: String)
    ensures
        r@ == decimal(n as nat),
    decreases n,
{
    if n < 10 {
        let mut s = String::new();
        let d: u8 = n as u8;
        s.push((0x30 + d) as char);
        assert(s@ =~= decimal(n as nat));
        s
    } else {
        let mut s = to_decimal(n / 10);
        let d: u8 = (n % 10) as u8;
        s.push((0x30 + d) as char);
        s
    }
}

/// A number in decimal has a digit, and nothing but digits.
pub proof fn lemma_decimal_is_digits(n: nat)
    ensures
        decimal(n).len() > 0,
        forall|i: int| 0 <= i < decimal(n).len() ==> '0' <= (#[trigger] decimal(n)[i]) <= '9',
    decreases n,
{
    if n >= 10 {
        lemma_decimal_is_digits(n / 10);
    }
}

/// An ASCII capital as a small letter; any other character as it is.
pub open spec fn lower(c: char) -> char {
    if 'A' <= c <= 'Z' {
        (c as u8 + 32) as char
    } else {
        c
    }
}

/// A text with its ASCII capitals as small letters.
pub open spec fn lowered(s: Seq<char>) -> Seq<char> {
    s.map_values(|c: char| lower(c))
}

/// A text with its ASCII capitals as small letters.
pub fn to_lower(s: &str) -> (r: String)
    ensures
        r@ == lowered(s@),
{
    let n: usize = s.unicode_len();
    let mut out = String::new();
    let mut i: usize = 0;
    while i < n
        invariant
            i <= n,
            n == s@.len(),
            out@ =~= lowered(s@.subrange(0, i as int)),
        decreases n - i,
    {
        let c: char = s.get_char(i);
        if 'A' <= c && c <= 'Z' {
            out.push((c as u8 + 32) as char);
        } else {
            out.push(c);
        }
        i += 1;
    }
    assert(s@.subrange(0, i as int) =~= s@);
    out
}

/// A text that a caller hands over: null, not UTF-8, or a text.
pub enum CText {
    Null,
    Invalid,
    Text(String),
}

/// The texts of a list; nulls and what is not UTF-8 are left out.
pub open spec fn readable(list: Seq<CText>) -> Seq<Seq<char>>
    decreases list.len(),
{
    if list.len() == 0 {
        Seq::empty()
    } else {
        let head = readable(list.drop_last());
        match list.last() {
            CText::Text(s) => head.push(s@),
            _ => head,
        }
    }
}

/// What a list of texts holds.
pub open spec fn views(list: Seq<String>) -> Seq<Seq<char>> {
    list.map_values(|s: String| s@)
}

/// The texts of a list; nulls and what is not UTF-8 are left out.
pub fn readable_texts(list: &Vec<CText>) -> (r: Vec<String>)
    ensures
        views(r@) == readable(list@),
{
    let mut out: Vec<String> = Vec::new();
    let mut i: usize = 0;
    assert(list@.subrange(0, 0) =~= Seq::empty());
    assert(views(out@) =~= Seq::empty());
    while i < list.len()
        invariant
            i <= list@.len(),
            views(out@) == readable(list@.subrange(0, i as int)),
        decreases list@.len() - i,
    {
        let ghost head = list@.subrange(0, i + 1);
        let ghost before = out@;
        assert(head.drop_last() =~= list@.subrange(0, i as int));
        assert(head.last() == list@[i as int]);
        match &list[i] {
            CText::Text(s) => {
                out.push(s.clone());
                assert(views(out@) =~= views(before).push(s@));
            },
            _ => {},
        }
        i += 1;
    }
    assert(list@.subrange(0, i as int) =~= list@);
    out
}

/// Whether a list holds a null.
pub open spec fn holds_null(list: Seq<CText>) -> bool {
    exists|k: int| 0 <= k < list.len() && #[trigger] list[k] is Null
}

/// The text of an argument, empty where it is null or not UTF-8.
pub open spec fn c_given(s: CText) -> Seq<char> {
    match s {
        CText::Text(t) => t@,
        _ => Seq::empty(),
    }
}

/// The text of an argument, empty where it is null or not UTF-8.
pub fn c_or_empty(s: &CText) -> (r: String)
    ensures
        r@ == c_given(*s),
{
    match s {
        CText::Text(t) => t.clone(),
        _ => {
            let none = String::new();
            assert(none@ =~= Seq::empty());
            none
        },
    }
}

/// What a list of entries says of a key: its first entry.
pub open spec fn lookup(entries: Seq<(Seq<char>, Seq<char>)>, key: Seq<char>) -> Option<Seq<char>>
    decreases entries.len(),
{
    if entries.len() == 0 {
        None
    } else if entries[0].0 == key {
        Some(entries[0].1)
    } else {
        lookup(entries.subrange(1, entries.len() as int), key)
    }
}

/// Texts by key.
pub struct TextMap {
    entries: Vec<(String, String)>,
}

impl TextMap {
    pub closed spec fn entries(&self) -> Seq<(Seq<char>, Seq<char>)> {
        self.entries@.map_values(|e: (String, String)| (e.0@, e.1@))
    }

    /// What is held for a key.
    pub open spec fn holds(&self, key: Seq<char>) -> Option<Seq<char>> {
        lookup(self.entries(), key)
    }

    pub fn new() -> (r: TextMap)
        ensures
            forall|key: Seq<char>| #[trigger] r.holds(key) is None,
    {
        TextMap { entries: Vec::new() }
    }

    /// The first place that holds a key.
    fn find(&self, key: &str) -> (r: Option<usize>)
        ensures
            match r {
                Some(i) => {
                    &&& i < self.entries@.len()
                    &&& self.entries()[i as int].0 == key@
                    &&& forall|k: int| 0 <= k < i ==> (#[trigger] self.entries()[k]).0 != key@
                },
                None => forall|k: int|
                    0 <= k < self.entries().len() ==> (#[trigger] self.entries()[k]).0 != key@,
            },
    {
        let mut i: usize = 0;
        while i < self.entries.len()
            invariant
                i <= self.entries@.len(),
                forall|k: int| 0 <= k < i ==> (#[trigger] self.entries()[k]).0 != key@,
            decreases self.entries@.len() - i,
        {
            assert(self.entries()[i as int].0 == self.entries@[i as int].0@);
            if same(self.entries[i].0.as_str(), key) {
                return Some(i);
            }
            i += 1;
        }
        None
    }

    /// What is held for a key.
    pub fn get(&self, key: &str) -> (r: Option<String>)
        ensures
            match r {
                Some(v) => self.holds(key@) == Some(v@),
                None => self.holds(key@) is None,
            },
    {
        match self.find(key) {
            Some(i) => {
                proof {
                    lemma_lookup_at(self.entries(), key@, i as int);
                }
                Some(self.entries[i].1.clone())
            },
            None => {
                proof {
                    lemma_lookup_none(self.entries(), key@);
                }
                None
            },
        }
    }

    /// Holds `value` for `key`, in place of whatever was held.
    pub fn insert(&mut self, key: String, value: String)
        ensures
            forall|k: Seq<char>| #[trigger]
                final(self).holds(k) == (if k == key@ {
                    Some(value@)
                } else {
                    old(self).holds(k)
                }),
    {
        let ghost before = self.entries();
        match self.find(key.as_str()) {
            Some(i) => {
                let ghost v = value@;
                let ghost kk = key@;
                self.entries.set(i, (key, value));
                proof {
                    let after = self.entries();
                    assert(after =~= before.update(i as int, (kk, v)));
                    assert forall|k: Seq<char>| #[trigger] self.holds(k) == (if k == kk {
                        Some(v)
                    } else {
                        lookup(before, k)
                    }) by {
                        lemma_lookup_update(before, kk, v, i as int, k);
                    }
                }
            },
            None => {
                let ghost v = value@;
                let ghost kk = key@;
                self.entries.push((key, value));
                proof {
                    let after = self.entries();
                    assert(after =~= before.push((kk, v)));
                    assert forall|k: Seq<char>| #[trigger] self.holds(k) == (if k == kk {
                        Some(v)
                    } else {
                        lookup(before, k)
                    }) by {
                        lemma_lookup_push(before, kk, v, k);
                    }
                }
            },
        }
    }
}

proof fn lemma_lookup_at(e: Seq<(Seq<char>, Seq<char>)>, key: Seq<char>, i: int)
    requires
        0 <= i < e.len(),
        e[i].0 == key,
        forall|k: int| 0 <= k < i ==> (#[trigger] e[k]).0 != key,
    ensures
        lookup(e, key) == Some(e[i].1),
    decreases i,
{
    if i > 0 {
        assert(e[0].0 != key);
        let t = e.subrange(1, e.len() as int);
        assert forall|k: int| 0 <= k < i - 1 implies (#[trigger] t[k]).0 != key by {
            assert(t[k] == e[k + 1]);
        }
        lemma_lookup_at(t, key, i - 1);
    }
}

proof fn lemma_lookup_none(e: Seq<(Seq<char>, Seq<char>)>, key: Seq<char>)
    requires
        forall|k: int| 0 <= k < e.len() ==> (#[trigger] e[k]).0 != key,
    ensures
        lookup(e, key) is None,
    decreases e.len(),
{
    if e.len() > 0 {
        assert(e[0].0 != key);
        let t = e.subrange(1, e.len() as int);
        assert forall|k: int| 0 <= k < t.len() implies (#[trigger] t[k]).0 != key by {
            assert(t[k] == e[k + 1]);
        }
        lemma_lookup_none(t, key);
    }
}

proof fn lemma_lookup_push(
    e: Seq<(Seq<char>, Seq<char>)>,
    key: Seq<char>,
    value: Seq<char>,
    k: Seq<char>,
)
    requires
        forall|i: int| 0 <= i < e.len() ==> (#[trigger] e[i]).0 != key,
    ensures
        lookup(e.push((key, value)), k) == (if k == key {
            Some(value)
        } else {
            lookup(e, k)
        }),
    decreases e.len(),
{
    let p = e.push((key, value));
    if e.len() == 0 {
        assert(p[0] == (key, value));
        assert(p.subrange(1, 1) =~= Seq::empty());
        lemma_lookup_none(p.subrange(1, 1), k);
    } else {
        assert(p[0] == e[0]);
        assert(e[0].0 != key);
        let t = e.subrange(1, e.len() as int);
        assert(p.subrange(1, p.len() as int) =~= t.push((key, value)));
        assert forall|i: int| 0 <= i < t.len() implies (#[trigger] t[i]).0 != key by {
            assert(t[i] == e[i + 1]);
        }
        lemma_lookup_push(t, key, value, k);
    }
}

proof fn lemma_lookup_update(
    e: Seq<(Seq<char>, Seq<char>)>,
    key: Seq<char>,
    value: Seq<char>,
    i: int,
    k: Seq<char>,
)
    requires
        0 <= i < e.len(),
        e[i].0 == key,
        forall|j: int| 0 <= j < i ==> (#[trigger] e[j]).0 != key,
    ensures
        lookup(e.update(i, (key, value)), k) == (if k == key {
            Some(value)
        } else {
            lookup(e, k)
        }),
    decreases i,
{
    let u = e.update(i, (key, value));
    let t = e.subrange(1, e.len() as int);
    if i == 0 {
        assert(u.subrange(1, u.len() as int) =~= t);
    } else {
        assert(u[0] == e[0]);
        assert(e[0].0 != key);
        assert(u.subrange(1, u.len() as int) =~= t.update(i - 1, (key, value)));
        assert forall|j: int| 0 <= j < i - 1 implies (#[trigger] t[j]).0 != key by {
            assert(t[j] == e[j + 1]);
        }
        assert(t[i - 1] == e[i]);
        lemma_lookup_update(t, key, value, i - 1, k);
    }
}

/// Texts are ordered as in a dictionary: a text comes before every one that goes on
/// from it, and of two that part somewhere the one with the lower character there
/// comes first, whatever follows.
pub proof fn law_the_first_difference_decides(
    head: Seq<char>,
    x: char,
    y: char,
    a: Seq<char>,
    b: Seq<char>,
)
    requires
        (x as int) < (y as int),
    ensures
        text_before(head, head + a),
        a.len() > 0 ==> !text_before(head + a, head),
        text_before(head.push(x) + a, head.push(y) + b),
        !text_before(head.push(y) + b, head.push(x) + a),
    decreases head.len(),
{
    let lower = head.push(x) + a;
    let higher = head.push(y) + b;
    if head.len() == 0 {
        assert(head + a =~= a);
        assert(lower[0] == x && higher[0] == y);
    } else {
        let rest = head.subrange(1, head.len() as int);
        law_the_first_difference_decides(rest, x, y, a, b);
        assert(lower.subrange(1, lower.len() as int) =~= rest.push(x) + a);
        assert(higher.subrange(1, higher.len() as int) =~= rest.push(y) + b);
        let longer = head + a;
        assert(longer.subrange(1, longer.len() as int) =~= rest + a);
        assert(longer[0] == head[0] && lower[0] == head[0] && higher[0] == head[0]);
    }
}

/// Two texts that each come before the other are one text.
pub proof fn law_the_order_of_texts_tells_them_apart(a: Seq<char>, b: Seq<char>)
    requires
        text_before(a, b),
        text_before(b, a),
    ensures
        a == b,
    decreases a.len(),
{
    if a.len() > 0 && b.len() > 0 {
        let x = a.subrange(1, a.len() as int);
        let y = b.subrange(1, b.len() as int);
        assert(a[0] == b[0]);
        law_the_order_of_texts_tells_them_apart(x, y);
        assert forall|i: int| 0 <= i < a.len() implies a[i] == b[i] by {
            if i > 0 {
                assert(a[i] == x[i - 1]);
                assert(b[i] == y[i - 1]);
            }
        }
        assert(x.len() == y.len());
        assert(a =~= b);
    } else {
        assert(a =~= b);
    }
}

/// The characters that count as white space: among the printable ASCII ones none but
/// the blank, and the tab, the line ends and the blanks of other scripts besides.
pub proof fn law_what_is_white_space(c: char)
    ensures
        '!' <= c <= '~' ==> !is_space(c),
        c == ' ' || c == '\t' || c == '\n' || c == '\r' ==> is_space(c),
        c == '\u{a0}' || c == '\u{2003}' || c == '\u{3000}' ==> is_space(c),
        is_space(c) ==> (c as int) < 0x3001,
{
}

/// Trimming takes off just the white space round a text: what stands between a run of
/// it before and a run of it behind comes out as it is.
pub proof fn law_trimming_leaves_what_is_between(lead: Seq<char>, mid: Seq<char>, tail: Seq<char>)
    requires
        forall|i: int| 0 <= i < lead.len() ==> is_space(#[trigger] lead[i]),
        forall|i: int| 0 <= i < tail.len() ==> is_space(#[trigger] tail[i]),
        mid.len() > 0,
        !is_space(mid[0]),
        !is_space(mid.last()),
    ensures
        trimmed(lead + mid + tail) == mid,
        trimmed(lead) == Seq::<char>::empty(),
    decreases lead.len() + tail.len(),
{
    lemma_trimmed_start(lead, mid + tail);
    lemma_trimmed_start(lead, Seq::empty());
    lemma_trimmed_end(mid, tail);
    assert(lead + mid + tail =~= lead + (mid + tail));
    assert((mid + tail)[0] == mid[0]);
    assert(lead + Seq::<char>::empty() =~= lead);
}

proof fn lemma_trimmed_start(lead: Seq<char>, rest: Seq<char>)
    requires
        forall|i: int| 0 <= i < lead.len() ==> is_space(#[trigger] lead[i]),
        rest.len() > 0 ==> !is_space(rest[0]),
    ensures
        trimmed_start(lead + rest) == rest,
    decreases lead.len(),
{
    let all = lead + rest;
    if lead.len() == 0 {
        assert(all =~= rest);
    } else {
        let fewer = lead.subrange(1, lead.len() as int);
        assert(all[0] == lead[0]);
        assert(all.subrange(1, all.len() as int) =~= fewer + rest);
        lemma_trimmed_start(fewer, rest);
    }
}

proof fn lemma_trimmed_end(mid: Seq<char>, tail: Seq<char>)
    requires
        forall|i: int| 0 <= i < tail.len() ==> is_space(#[trigger] tail[i]),
        mid.len() > 0,
        !is_space(mid.last()),
    ensures
        trimmed_end(mid + tail) == mid,
    decreases tail.len(),
{
    let all = mid + tail;
    if tail.len() == 0 {
        assert(all =~= mid);
    } else {
        assert(all.last() == tail.last());
        assert(all.drop_last() =~= mid + tail.drop_last());
        lemma_trimmed_end(mid, tail.drop_last());
    }
}

/// What a hexadecimal digit in capitals is worth.
pub open spec fn hex_worth(c: char) -> int {
    if '0' <= c <= '9' {
        c as int - '0' as int
    } else {
        c as int - 'A' as int + 10
    }
}

/// Whether a byte is the code of a letter, a digit or one of the four marks that need
/// no encoding.
pub open spec fn plain_char(c: char) -> bool {
    'A' <= c <= 'Z' || 'a' <= c <= 'z' || '0' <= c <= '9' || c == '-' || c == '.' || c == '_' || c
        == '~'
}

/// A percent-encoded byte reads back: it stands for itself, or follows a percent sign
/// as two hexadecimal digits that are worth it. Letters, digits and four marks stand
/// for themselves, a slash where slashes do, and nothing else.
pub proof fn law_an_encoded_byte_reads_back(b: u8, slashes: bool)
    ensures
        ({
            let e = encoded_byte(b, slashes);
            if plain_char(b as char) || (slashes && b as char == '/') {
                e == seq![b as char]
            } else {
                &&& e.len() == 3
                &&& e[0] == '%'
                &&& hex_worth(e[1]) * 16 + hex_worth(e[2]) == b
                &&& 0 <= hex_worth(e[1]) < 16
                &&& 0 <= hex_worth(e[2]) < 16
            }
        }),
{
}

/// Bytes are encoded one by one: the encoding of two runs is that of the first and
/// then that of the second, and a single byte is encoded as itself.
pub proof fn law_encoding_goes_byte_by_byte(a: Seq<u8>, b: Seq<u8>, x: u8, slashes: bool)
    ensures
        percent_encoded(a + b, slashes) == percent_encoded(a, slashes) + percent_encoded(b, slashes),
        percent_encoded(seq![x], slashes) == encoded_byte(x, slashes),
        percent_encoded(Seq::empty(), slashes) == Seq::<char>::empty(),
    decreases b.len(),
{
    let one = seq![x];
    assert(one.drop_last() =~= Seq::<u8>::empty());
    assert(one.last() == x);
    assert(percent_encoded(Seq::<u8>::empty(), slashes) == Seq::<char>::empty());
    assert(percent_encoded(one, slashes) =~= encoded_byte(x, slashes));
    if b.len() == 0 {
        assert(a + b =~= a);
        assert(percent_encoded(a + b, slashes) =~= percent_encoded(a, slashes) + percent_encoded(
            b,
            slashes,
        ));
    } else {
        law_encoding_goes_byte_by_byte(a, b.drop_last(), x, slashes);
        assert((a + b).drop_last() =~= a + b.drop_last());
        assert((a + b).last() == b.last());
        assert(percent_encoded(a + b, slashes) =~= percent_encoded(a, slashes) + percent_encoded(
            b,
            slashes,
        ));
    }
}

/// The number that a text of decimal digits writes.
pub open spec fn number_written(s: Seq<char>) -> int
    decreases s.len(),
{
    if s.len() == 0 {
        0
    } else {
        10 * number_written(s.drop_last()) + (s.last() as int - '0' as int)
    }
}

/// A number in decimal reads back as that number, holds nothing but digits, and has no
/// leading zero unless it is zero.
pub proof fn law_a_decimal_reads_back(n: nat)
    ensures
        number_written(decimal(n)) == n,
        decimal(n).len() > 0,
        forall|i: int| 0 <= i < decimal(n).len() ==> '0' <= (#[trigger] decimal(n)[i]) <= '9',
        decimal(n)[0] == '0' ==> n == 0 && decimal(n).len() == 1,
    decreases n,
{
    lemma_decimal_is_digits(n);
    if n < 10 {
        let s = decimal(n);
        assert(s.drop_last() =~= Seq::<char>::empty());
        assert(number_written(Seq::<char>::empty()) == 0);
        assert(s.last() == digit(n));
    } else {
        law_a_decimal_reads_back(n / 10);
        let s = decimal(n);
        assert(s.drop_last() =~= decimal(n / 10));
        assert(s.last() == digit(n % 10));
        assert(s[0] == decimal(n / 10)[0]);
    }
}

/// Case is folded for ASCII letters and nothing else: a capital comes out as the small
/// letter as far into its alphabet, and every other character as it is.
pub proof fn law_capitals_become_small(s: Seq<char>, i: int)
    requires
        0 <= i < s.len(),
    ensures
        lowered(s).len() == s.len(),
        'A' <= s[i] <= 'Z' ==> lowered(s)[i] as int - 'a' as int == s[i] as int - 'A' as int,
        !('A' <= s[i] <= 'Z') ==> lowered(s)[i] == s[i],
        lowered(lowered(s)) == lowered(s),
{
    assert(lowered(lowered(s)) =~= lowered(s));
}

/// What is readable of two lists is what is readable of the one and then of the other,
/// and of one entry it is its text, if it has one.
pub proof fn law_readable_texts_keep_their_order(a: Seq<CText>, b: Seq<CText>, one: CText)
    ensures
        readable(a + b) == readable(a) + readable(b),
        one matches CText::Text(s) ==> readable(seq![one]) == seq![s@],
        !(one is Text) ==> readable(seq![one]) == Seq::<Seq<char>>::empty(),
    decreases b.len(),
{
    let single = seq![one];
    assert(single.drop_last() =~= Seq::<CText>::empty());
    assert(single.last() == one);
    assert(readable(Seq::<CText>::empty()) =~= Seq::<Seq<char>>::empty());
    match one {
        CText::Text(s) => {
            assert(readable(single) =~= seq![s@]);
        },
        _ => {},
    }
    if b.len() == 0 {
        assert(a + b =~= a);
        assert(readable(a + b) =~= readable(a) + readable(b));
    } else {
        law_readable_texts_keep_their_order(a, b.drop_last(), one);
        assert((a + b).drop_last() =~= a + b.drop_last());
        assert((a + b).last() == b.last());
        assert(readable(a + b) =~= readable(a) + readable(b));
    }
}

/// What crosses of a text is that text or, where it holds a zero character, nothing.
pub proof fn law_a_text_crosses_whole_or_not_at_all(s: Seq<char>, r: Option<String>)
    requires
        crosses(s, r),
    ensures
        !c_text(s).contains('\0'),
        !s.contains('\0') ==> c_text(s) == s && (r matches Some(t) && t@ == s),
        s.contains('\0') ==> c_text(s).len() == 0 && r is None,
{
}

/// Whether a text holds another somewhere.
pub open spec fn held_in(hay: Seq<char>, needle: Seq<char>) -> bool {
    exists|a: Seq<char>, b: Seq<char>| hay == #[trigger] (a + needle + b)
}

/// A text is found in another where it stands there, at the first place of several, and is
/// nowhere in one that does not hold it.
pub proof fn law_a_text_is_found_where_it_stands(hay: Seq<char>, needle: Seq<char>, i: int)
    ensures
        nowhere(hay, needle) == !held_in(hay, needle),
        first_at(hay, needle, i) ==> {
            &&& hay == hay.subrange(0, i) + needle + hay.subrange(i + needle.len(), hay.len() as int)
            &&& held_in(hay, needle)
        },
{
    if held_in(hay, needle) {
        let (a, b) = choose|a: Seq<char>, b: Seq<char>| hay == #[trigger] (a + needle + b);
        let k = a.len() as int;
        assert(hay.subrange(k, k + needle.len()) =~= needle);
    }
    if !nowhere(hay, needle) {
        let j = choose|j: int|
            0 <= j <= hay.len() - needle.len() && #[trigger] hay.subrange(j, j + needle.len()) == needle;
        let a = hay.subrange(0, j);
        let b = hay.subrange(j + needle.len(), hay.len() as int);
        assert(hay =~= a + needle + b);
        assert(held_in(hay, needle));
    }
    if first_at(hay, needle, i) {
        let a = hay.subrange(0, i);
        let b = hay.subrange(i + needle.len(), hay.len() as int);
        assert(hay =~= a + needle + b);
    }
}

/// A key is found at the first entry that has it, and not where no entry has it.
pub proof fn law_a_key_is_found_at_its_first_entry(
    e: Seq<(Seq<char>, Seq<char>)>,
    key: Seq<char>,
    i: int,
)
    requires
        0 <= i <= e.len(),
        forall|k: int| 0 <= k < i ==> (#[trigger] e[k]).0 != key,
        i < e.len() ==> e[i].0 == key,
    ensures
        i < e.len() ==> lookup(e, key) == Some(e[i].1),
        i == e.len() ==> lookup(e, key) is None,
{
    if i < e.len() {
        lemma_lookup_at(e, key, i);
    } else {
        lemma_lookup_none(e, key);
    }
}

/// A list holds a null where one of its texts is one.
pub proof fn law_a_list_holds_a_null_where_one_is(list: Seq<CText>, i: int)
    requires
        0 <= i < list.len(),
    ensures
        list[i] is Null ==> holds_null(list),
        holds_null(list.subrange(0, i)) ==> holds_null(list),
        !holds_null(list.subrange(0, i)) && holds_null(list.subrange(0, i + 1)) ==> list[i] is Null,
        !holds_null(Seq::empty()),
{
    let head = list.subrange(0, i);
    let more = list.subrange(0, i + 1);
    if holds_null(head) {
        let k = choose|k: int| 0 <= k < head.len() && #[trigger] head[k] is Null;
        assert(list[k] is Null);
    } else if holds_null(more) {
        let k = choose|k: int| 0 <= k < more.len() && #[trigger] more[k] is Null;
        if k < i {
            assert(head[k] is Null);
        }
    }
}

} // verus!
