//! Text as sequences of characters: comparing, searching, stripping and
//! splitting strings, each operation tied to a statement over `Seq<char>`.

use vstd::prelude::*;
use vstd::string::*;
use vstd::utf8::*;

verus! {

/// A set of characters that is stripped from an end of a text.
#[derive(Debug, Clone, Copy, PartialEq, Eq)]
pub enum CharSet {
    /// The characters with the Unicode property `White_Space`.
    White,
    /// `-`
    Hyphen,
    /// `#`
    Hash,
    /// `/`
    Slash,
    /// `.`, `!`, `?`, `;` and `,`
    Closing,
}

/// The Unicode property `White_Space`.
pub open spec fn is_white(c: char) -> bool {
    ||| '\u{9}' <= c <= '\u{d}'
    ||| c == ' '
    ||| c == '\u{85}'
    ||| c == '\u{a0}'
    ||| c == '\u{1680}'
    ||| '\u{2000}' <= c <= '\u{200a}'
    ||| c == '\u{2028}'
    ||| c == '\u{2029}'
    ||| c == '\u{202f}'
    ||| c == '\u{205f}'
    ||| c == '\u{3000}'
}

impl CharSet {
    pub open spec fn has(self, c: char) -> bool {
        match self {
            CharSet::White => is_white(c),
            CharSet::Hyphen => c == '-',
            CharSet::Hash => c == '#',
            CharSet::Slash => c == '/',
            CharSet::Closing => c == '.' || c == '!' || c == '?' || c == ';' || c == ',',
        }
    }

    /// Whether `c` belongs to the set.
    pub fn test(self, c: char) -> (r: bool)
        ensures
            r == self.has(c),
    {
        match self {
            CharSet::White => ('\u{9}' <= c && c <= '\u{d}') || c == ' ' || c == '\u{85}' || c
                == '\u{a0}' || c == '\u{1680}' || ('\u{2000}' <= c && c <= '\u{200a}') || c
                == '\u{2028}' || c == '\u{2029}' || c == '\u{202f}' || c == '\u{205f}' || c
                == '\u{3000}',
            CharSet::Hyphen => c == '-',
            CharSet::Hash => c == '#',
            CharSet::Slash => c == '/',
            CharSet::Closing => c == '.' || c == '!' || c == '?' || c == ';' || c == ',',
        }
    }
}

/// `s` without its longest prefix of characters of `set`.
pub open spec fn drop_front(s: Seq<char>, set: CharSet) -> Seq<char>
    decreases s.len(),
{
    if s.len() > 0 && set.has(s[0]) {
        drop_front(s.drop_first(), set)
    } else {
        s
    }
}

/// `s` without its longest suffix of characters of `set`.
pub open spec fn drop_back(s: Seq<char>, set: CharSet) -> Seq<char>
    decreases s.len(),
{
    if s.len() > 0 && set.has(s.last()) {
        drop_back(s.drop_last(), set)
    } else {
        s
    }
}

/// `s` without the characters of `set` at either end.
pub open spec fn drop_ends(s: Seq<char>, set: CharSet) -> Seq<char> {
    drop_back(drop_front(s, set), set)
}

/// `s` without white space at either end.
pub open spec fn trimmed(s: Seq<char>) -> Seq<char> {
    drop_ends(s, CharSet::White)
}

/// The views of a list of strings.
pub open spec fn texts(v: Seq<String>) -> Seq<Seq<char>> {
    v.map_values(|s: String| s@)
}

/// The characters of a text.
pub fn chars_of(s: &str) -> (r: Vec<char>)
    ensures
        r@ == s@,
{
    let mut r: Vec<char> = Vec::new();
    for c in it: s.chars()
        invariant
            it.seq() == s@,
            r@ == s@.take(it.index()),
    {
        r.push(c);
        assert(s@.take(it.index() + 1) == s@.take(it.index()).push(c));
    }
    assert(s@.take(s@.len() as int) == s@);
    r
}

/// Whether two texts are equal.
pub fn same_text(a: &str, b: &str) -> (r: bool)
    ensures
        r == (a@ == b@),
{
    let x = a.as_bytes();
    let y = b.as_bytes();
    if x.len() != y.len() {
        return false;
    }
    let mut i: usize = 0;
    while i < x.len()
        invariant
            i <= x.len(),
            x.len() == y.len(),
            x@ == a.spec_bytes(),
            y@ == b.spec_bytes(),
            forall|j: int| 0 <= j < i ==> x@[j] == y@[j],
        decreases x.len() - i,
    {
        if x[i] != y[i] {
            return false;
        }
        i += 1;
    }
    assert(x@ =~= y@);
    proof {
        encode_utf8_decode_utf8(a@);
        encode_utf8_decode_utf8(b@);
    }
    true
}

/// `s` without its longest prefix of characters of `set`.
pub fn strip_front<'a>(s: &'a str, set: CharSet) -> (r: &'a str)
    ensures
        r@ == drop_front(s@, set),
{
    let chars = chars_of(s);
    let mut i: usize = 0;
    assert(s@.skip(0) == s@);
    while i < chars.len() && set.test(chars[i])
        invariant
            i <= chars.len(),
            chars@ == s@,
            drop_front(s@, set) == drop_front(s@.skip(i as int), set),
        decreases chars.len() - i,
    {
        assert(s@.skip(i as int).drop_first() == s@.skip(i + 1));
        i += 1;
    }
    assert(s@.skip(i as int) == s@.subrange(i as int, s@.len() as int));
    s.substring_char(i, chars.len())
}

/// `s` without its longest suffix of characters of `set`.
pub fn strip_back<'a>(s: &'a str, set: CharSet) -> (r: &'a str)
    ensures
        r@ == drop_back(s@, set),
{
    let chars = chars_of(s);
    let mut n: usize = chars.len();
    assert(s@.take(s@.len() as int) == s@);
    while n > 0 && set.test(chars[n - 1])
        invariant
            n <= chars.len(),
            chars@ == s@,
            drop_back(s@, set) == drop_back(s@.take(n as int), set),
        decreases n,
    {
        assert(s@.take(n as int).drop_last() == s@.take(n - 1));
        n -= 1;
    }
    assert(s@.take(n as int) == s@.subrange(0, n as int));
    s.substring_char(0, n)
}

/// `s` without the characters of `set` at either end.
pub fn strip_ends<'a>(s: &'a str, set: CharSet) -> (r: &'a str)
    ensures
        r@ == drop_ends(s@, set),
{
    strip_back(strip_front(s, set), set)
}

/// `s` without white space at either end.
pub fn trim<'a>(s: &'a str) -> (r: &'a str)
    ensures
        r@ == trimmed(s@),
{
    strip_ends(s, CharSet::White)
}

/// `pat` stands in `s` at position `i`.
pub open spec fn occurs_at(s: Seq<char>, pat: Seq<char>, i: int) -> bool {
    &&& 0 <= i
    &&& i + pat.len() <= s.len()
    &&& s.subrange(i, i + pat.len()) == pat
}

/// `pat` stands somewhere in `s`.
pub open spec fn has_text(s: Seq<char>, pat: Seq<char>) -> bool {
    exists|i: int| #[trigger] occurs_at(s, pat, i)
}

/// `s` begins with `pat`.
pub open spec fn begins_with(s: Seq<char>, pat: Seq<char>) -> bool {
    occurs_at(s, pat, 0)
}

/// `s` ends with `pat`.
pub open spec fn ends_in(s: Seq<char>, pat: Seq<char>) -> bool {
    occurs_at(s, pat, s.len() - pat.len())
}

fn occurs_here(chars: &Vec<char>, pat: &Vec<char>, i: usize) -> (r: bool)
    ensures
        r == occurs_at(chars@, pat@, i as int),
{
    if i > chars.len() || pat.len() > chars.len() - i {
        return false;
    }
    let mut k: usize = 0;
    while k < pat.len()
        invariant
            k <= pat.len(),
            i + pat.len() <= chars.len(),
            forall|j: int| 0 <= j < k ==> chars@[i + j] == pat@[j],
        decreases pat.len() - k,
    {
        if chars[i + k] != pat[k] {
            assert(chars@.subrange(i as int, i + pat.len())[k as int] != pat@[k as int]);
            return false;
        }
        k += 1;
    }
    assert(chars@.subrange(i as int, i + pat.len()) =~= pat@);
    true
}

/// Whether `pat` stands somewhere in `s`.
pub fn contains(s: &str, pat: &str) -> (r: bool)
    ensures
        r == has_text(s@, pat@),
{
    let chars = chars_of(s);
    let wanted = chars_of(pat);
    let mut i: usize = 0;
    while i < chars.len()
        invariant
            i <= chars.len(),
            chars@ == s@,
            wanted@ == pat@,
            forall|j: int| 0 <= j < i ==> !#[trigger] occurs_at(s@, pat@, j),
        decreases chars.len() - i,
    {
        if occurs_here(&chars, &wanted, i) {
            return true;
        }
        i += 1;
    }
    let r = occurs_here(&chars, &wanted, i);
    assert(r == has_text(s@, pat@));
    r
}

/// Whether `s` begins with `pat`.
pub fn starts_with(s: &str, pat: &str) -> (r: bool)
    ensures
        r == begins_with(s@, pat@),
{
    occurs_here(&chars_of(s), &chars_of(pat), 0)
}

/// Whether `s` ends with `pat`.
pub fn ends_with(s: &str, pat: &str) -> (r: bool)
    ensures
        r == ends_in(s@, pat@),
{
    let chars = chars_of(s);
    let wanted = chars_of(pat);
    if wanted.len() > chars.len() {
        return false;
    }
    occurs_here(&chars, &wanted, chars.len() - wanted.len())
}

/// What follows `pat` in `s`, if `s` begins with it.
pub fn strip_prefix<'a>(s: &'a str, pat: &str) -> (r: Option<&'a str>)
    ensures
        r is Some <==> begins_with(s@, pat@),
        r matches Some(rest) ==> rest@ == s@.skip(pat@.len() as int),
{
    let chars = chars_of(s);
    let wanted = chars_of(pat);
    if occurs_here(&chars, &wanted, 0) {
        assert(s@.skip(pat@.len() as int) == s@.subrange(pat@.len() as int, s@.len() as int));
        Some(s.substring_char(wanted.len(), chars.len()))
    } else {
        None
    }
}

/// The position of the first `c` in `s`, or the length of `s`.
pub open spec fn first_index(s: Seq<char>, c: char) -> int
    decreases s.len(),
{
    if s.len() == 0 || s[0] == c {
        0
    } else {
        1 + first_index(s.drop_first(), c)
    }
}

/// The first position of a character is the least one at which it stands.
pub proof fn lemma_first_index(s: Seq<char>, c: char)
    ensures
        0 <= first_index(s, c) <= s.len(),
        forall|j: int| 0 <= j < first_index(s, c) ==> s[j] != c,
        first_index(s, c) < s.len() ==> s[first_index(s, c)] == c,
    decreases s.len(),
{
    if s.len() > 0 && s[0] != c {
        lemma_first_index(s.drop_first(), c);
        assert forall|j: int| 0 <= j < first_index(s, c) implies s[j] != c by {
            if j > 0 {
                assert(s[j] == s.drop_first()[j - 1]);
            }
        }
    }
}

fn index_from(chars: &Vec<char>, from: usize, c: char) -> (r: usize)
    requires
        from <= chars.len(),
    ensures
        from <= r <= chars.len(),
        r == from + first_index(chars@.skip(from as int), c),
{
    let mut i: usize = from;
    while i < chars.len() && chars[i] != c
        invariant
            from <= i <= chars.len(),
            from + first_index(chars@.skip(from as int), c) == i + first_index(
                chars@.skip(i as int),
                c,
            ),
        decreases chars.len() - i,
    {
        assert(chars@.skip(i as int).drop_first() == chars@.skip(i + 1));
        i += 1;
    }
    i
}

/// Whether `c` stands in `s`.
pub fn contains_char(s: &str, c: char) -> (r: bool)
    ensures
        r == s@.contains(c),
{
    let chars = chars_of(s);
    proof {
        lemma_first_index(s@, c);
        assert(chars@.skip(0) == s@);
    }
    index_from(&chars, 0, c) < chars.len()
}

/// The texts before and after the first `c`, if there is one.
pub fn split_once<'a>(s: &'a str, c: char) -> (r: Option<(&'a str, &'a str)>)
    ensures
        r is Some <==> s@.contains(c),
        r matches Some((before, after)) ==> {
            &&& before@ == s@.take(first_index(s@, c))
            &&& after@ == s@.skip(first_index(s@, c) + 1)
        },
{
    let chars = chars_of(s);
    proof {
        lemma_first_index(s@, c);
        assert(chars@.skip(0) == s@);
    }
    let i: usize = index_from(&chars, 0, c);
    if i < chars.len() {
        assert(s@.take(i as int) == s@.subrange(0, i as int));
        assert(s@.skip(i + 1) == s@.subrange(i + 1, s@.len() as int));
        Some((s.substring_char(0, i), s.substring_char(i + 1, chars.len())))
    } else {
        None
    }
}

/// The texts between the separators of `s`.
pub open spec fn pieces(s: Seq<char>, sep: char) -> Seq<Seq<char>>
    decreases s.len(),
    via pieces_decreases
{
    let i = first_index(s, sep);
    if i < s.len() {
        seq![s.take(i)] + pieces(s.skip(i + 1), sep)
    } else {
        seq![s]
    }
}

#[via_fn]
proof fn pieces_decreases(s: Seq<char>, sep: char) {
    lemma_first_index(s, sep);
}

/// The texts between the separators of `s`.
pub fn split(s: &str, sep: char) -> (r: Vec<String>)
    ensures
        texts(r@) == pieces(s@, sep),
{
    let chars = chars_of(s);
    let mut r: Vec<String> = Vec::new();
    let mut from: usize = 0;
    assert(s@.skip(0) == s@);
    assert(texts(r@) + pieces(s@, sep) == pieces(s@, sep));
    loop
        invariant
            from <= chars.len(),
            chars@ == s@,
            texts(r@) + pieces(s@.skip(from as int), sep) == pieces(s@, sep),
        decreases chars.len() - from,
    {
        let ghost rest = s@.skip(from as int);
        proof {
            lemma_first_index(rest, sep);
        }
        let i: usize = index_from(&chars, from, sep);
        let piece = s.substring_char(from, i).to_owned();
        assert(s@.subrange(from as int, i as int) == rest.take(i - from));
        let ghost before = texts(r@);
        r.push(piece);
        assert(texts(r@) == before.push(piece@));
        if i == chars.len() {
            assert(rest.take(i - from) == rest);
            assert(texts(r@) =~= before + pieces(rest, sep));
            return r;
        }
        assert(rest.skip(i - from + 1) == s@.skip(i + 1));
        assert(texts(r@) + pieces(s@.skip(i + 1), sep) =~= before + pieces(rest, sep));
        from = i + 1;
    }
}

/// A line without the carriage return that belongs to its line ending.
pub open spec fn without_cr(s: Seq<char>) -> Seq<char> {
    if s.len() > 0 && s.last() == '\r' {
        s.drop_last()
    } else {
        s
    }
}

/// The lines of a text; the last line ending is optional.
pub open spec fn lines_of(s: Seq<char>) -> Seq<Seq<char>>
    decreases s.len(),
    via lines_of_decreases
{
    let i = first_index(s, '\n');
    if s.len() == 0 {
        Seq::empty()
    } else if i < s.len() {
        seq![without_cr(s.take(i))] + lines_of(s.skip(i + 1))
    } else {
        seq![s]
    }
}

#[via_fn]
proof fn lines_of_decreases(s: Seq<char>) {
    lemma_first_index(s, '\n');
}

/// The lines of a text.
pub fn lines(s: &str) -> (r: Vec<String>)
    ensures
        texts(r@) == lines_of(s@),
{
    let chars = chars_of(s);
    let mut r: Vec<String> = Vec::new();
    let mut from: usize = 0;
    assert(s@.skip(0) == s@);
    assert(texts(r@) + lines_of(s@) == lines_of(s@));
    while from < chars.len()
        invariant
            from <= chars.len(),
            chars@ == s@,
            texts(r@) + lines_of(s@.skip(from as int)) == lines_of(s@),
        decreases chars.len() - from,
    {
        let ghost rest = s@.skip(from as int);
        proof {
            lemma_first_index(rest, '\n');
        }
        let i: usize = index_from(&chars, from, '\n');
        let ghost before = texts(r@);
        assert(s@.subrange(from as int, i as int) == rest.take(i - from));
        if i == chars.len() {
            let line = s.substring_char(from, i).to_owned();
            assert(rest.take(i - from) == rest);
            r.push(line);
            assert(texts(r@) == before.push(line@));
            assert(texts(r@) =~= before + lines_of(rest));
            return r;
        }
        let mut end: usize = i;
        if i > from && chars[i - 1] == '\r' {
            end = i - 1;
        }
        let line = s.substring_char(from, end).to_owned();
        assert(line@ == without_cr(rest.take(i - from)));
        r.push(line);
        assert(texts(r@) == before.push(line@));
        assert(rest.skip(i - from + 1) == s@.skip(i + 1));
        assert(texts(r@) + lines_of(s@.skip(i + 1)) =~= before + lines_of(rest));
        from = i + 1;
    }
    assert(s@.skip(from as int).len() == 0);
    assert(texts(r@) =~= lines_of(s@));
    r
}

/// The texts of a comma-separated list, trimmed, the empty ones left out.
pub open spec fn list_entries(s: Seq<char>) -> Seq<Seq<char>> {
    pieces(s, ',').map_values(|p: Seq<char>| trimmed(p)).filter(|p: Seq<char>| p.len() > 0)
}

/// The entries of a comma-separated list.
pub fn split_list(s: &str) -> (r: Vec<String>)
    ensures
        texts(r@) == list_entries(s@),
{
    let parts = split(s, ',');
    let mut r: Vec<String> = Vec::new();
    let mut i: usize = 0;
    let ghost all = pieces(s@, ',').map_values(|p: Seq<char>| trimmed(p));
    let ghost nonempty = |p: Seq<char>| p.len() > 0;
    proof {
        reveal(Seq::filter);
    }
    assert(texts(r@) =~= all.take(0).filter(nonempty));
    while i < parts.len()
        invariant
            i <= parts.len(),
            texts(parts@) == pieces(s@, ','),
            all == pieces(s@, ',').map_values(|p: Seq<char>| trimmed(p)),
            nonempty == (|p: Seq<char>| p.len() > 0),
            texts(r@) == all.take(i as int).filter(nonempty),
        decreases parts.len() - i,
    {
        let t = trim(parts[i].as_str());
        let ghost before = texts(r@);
        assert(texts(parts@)[i as int] == parts@[i as int]@);
        assert(t@ == all[i as int]);
        assert(all.take(i + 1).drop_last() == all.take(i as int));
        assert(all.take(i + 1).last() == t@);
        proof {
            reveal(Seq::filter);
        }
        if !t.is_empty() {
            r.push(t.to_owned());
            assert(texts(r@) =~= before.push(t@));
        }
        i += 1;
    }
    assert(all.take(all.len() as int) == all);
    r
}

/// The ASCII lower case of a character; other characters stay as they are.
pub open spec fn ascii_lower(c: char) -> char {
    if 'A' <= c <= 'Z' {
        (c as u32 + 32) as char
    } else {
        c
    }
}

/// Two texts are equal but for the case of ASCII letters.
pub open spec fn same_but_case(a: Seq<char>, b: Seq<char>) -> bool {
    &&& a.len() == b.len()
    &&& forall|i: int| 0 <= i < a.len() ==> ascii_lower(#[trigger] a[i]) == ascii_lower(b[i])
}

fn lower_char(c: char) -> (r: char)
    ensures
        r == ascii_lower(c),
{
    if 'A' <= c && c <= 'Z' {
        let b: u8 = c as u8;
        (b + 32) as char
    } else {
        c
    }
}

/// Whether two texts are equal but for the case of ASCII letters.
pub fn eq_ignore_ascii_case(a: &str, b: &str) -> (r: bool)
    ensures
        r == same_but_case(a@, b@),
{
    let x = chars_of(a);
    let y = chars_of(b);
    if x.len() != y.len() {
        return false;
    }
    let mut i: usize = 0;
    while i < x.len()
        invariant
            i <= x.len(),
            x.len() == y.len(),
            x@ == a@,
            y@ == b@,
            forall|j: int| 0 <= j < i ==> ascii_lower(#[trigger] a@[j]) == ascii_lower(b@[j]),
        decreases x.len() - i,
    {
        if lower_char(x[i]) != lower_char(y[i]) {
            assert(ascii_lower(a@[i as int]) != ascii_lower(b@[i as int]));
            return false;
        }
        i += 1;
    }
    true
}

/// `s` with each `pat` replaced by `with`, from left to right; an empty `pat`
/// replaces nothing.
pub open spec fn replaced(s: Seq<char>, pat: Seq<char>, with: Seq<char>) -> Seq<char>
    decreases s.len(),
{
    if s.len() == 0 || pat.len() == 0 {
        s
    } else if begins_with(s, pat) {
        with + replaced(s.skip(pat.len() as int), pat, with)
    } else {
        seq![s[0]] + replaced(s.drop_first(), pat, with)
    }
}

/// Replaces a text within another.
pub fn replace(s: &str, pat: &str, with: &str) -> (r: String)
    ensures
        r@ == replaced(s@, pat@, with@),
{
    if pat.is_empty() {
        return s.to_owned();
    }
    let chars = chars_of(s);
    let wanted = chars_of(pat);
    let mut r = String::new();
    let mut i: usize = 0;
    assert(s@.skip(0) == s@);
    assert(r@ + replaced(s@, pat@, with@) == replaced(s@, pat@, with@));
    while i < chars.len()
        invariant
            i <= chars.len(),
            chars@ == s@,
            wanted@ == pat@,
            pat@.len() > 0,
            r@ + replaced(s@.skip(i as int), pat@, with@) == replaced(s@, pat@, with@),
        decreases chars.len() - i,
    {
        let ghost rest = s@.skip(i as int);
        let ghost before = r@;
        let here = occurs_here(&chars, &wanted, i);
        proof {
            assert(here == begins_with(rest, pat@)) by {
                if i + pat@.len() <= s@.len() {
                    assert(s@.subrange(i as int, i + pat@.len()) =~= rest.subrange(
                        0,
                        pat@.len() as int,
                    ));
                }
            }
        }
        if here {
            r.append(with);
            assert(rest.skip(pat@.len() as int) == s@.skip(i + pat@.len()));
            assert(r@ + replaced(s@.skip(i + pat@.len()), pat@, with@) =~= before + replaced(
                rest,
                pat@,
                with@,
            ));
            i += wanted.len();
        } else {
            r.push(chars[i]);
            assert(rest.drop_first() == s@.skip(i + 1));
            assert(r@ + replaced(s@.skip(i + 1), pat@, with@) =~= before + replaced(
                rest,
                pat@,
                with@,
            ));
            i += 1;
        }
    }
    assert(s@.skip(i as int).len() == 0);
    assert(r@ =~= replaced(s@, pat@, with@));
    r
}

/// `pat` and `mark` agree wherever both have a character, `pat` standing `d`
/// places behind the front of `mark`.
pub open spec fn agree_at(pat: Seq<char>, mark: Seq<char>, d: int) -> bool {
    forall|j: int|
        0 <= j < pat.len() && 0 <= d + j < mark.len() ==> #[trigger] pat[j] == mark[d + j]
}

/// `pat` cannot stand in any text so that it shares a character with `mark`.
pub open spec fn stand_apart(pat: Seq<char>, mark: Seq<char>) -> bool {
    forall|d: int| -pat.len() < d < mark.len() ==> !#[trigger] agree_at(pat, mark, d)
}

proof fn lemma_front_or_mark(s: Seq<char>, pat: Seq<char>, mark: Seq<char>, k: int)
    requires
        0 <= k <= replaced(s, pat, mark).len(),
        mark.len() > 0,
    ensures
        ({
            let r = replaced(s, pat, mark);
            ||| k <= s.len() && r.take(k) == s.take(k)
            ||| exists|p: int| 0 <= p < k && #[trigger] occurs_at(r, mark, p)
        }),
    decreases s.len(),
{
    let r = replaced(s, pat, mark);
    if k == 0 {
        assert(r.take(0) =~= s.take(0));
    } else if s.len() == 0 || pat.len() == 0 {
    } else if begins_with(s, pat) {
        assert(r.subrange(0, mark.len() as int) =~= mark);
        assert(occurs_at(r, mark, 0));
    } else {
        let rest = s.drop_first();
        let q = replaced(rest, pat, mark);
        assert(r == seq![s[0]] + q);
        lemma_front_or_mark(rest, pat, mark, k - 1);
        if k - 1 <= rest.len() && q.take(k - 1) == rest.take(k - 1) {
            assert forall|j: int| 0 <= j < k implies r[j] == s[j] by {
                if j > 0 {
                    assert(q.take(k - 1)[j - 1] == rest.take(k - 1)[j - 1]);
                }
            }
            assert(r.take(k) =~= s.take(k));
        } else {
            let p = choose|p: int| 0 <= p < k - 1 && #[trigger] occurs_at(q, mark, p);
            assert(r.subrange(p + 1, p + 1 + mark.len()) =~= q.subrange(p, p + mark.len()));
            assert(occurs_at(r, mark, p + 1));
        }
    }
}

proof fn lemma_replaced_at(s: Seq<char>, pat: Seq<char>, mark: Seq<char>, i: int)
    requires
        pat.len() > 0,
        mark.len() > 0,
        stand_apart(pat, mark),
    ensures
        !occurs_at(replaced(s, pat, mark), pat, i),
    decreases s.len(),
{
    let r = replaced(s, pat, mark);
    if s.len() > 0 && occurs_at(r, pat, i) {
        let here = r.subrange(i, i + pat.len());
        assert forall|j: int| 0 <= j < pat.len() implies #[trigger] pat[j] == r[i + j] by {
            assert(here[j] == r[i + j]);
        }
        if begins_with(s, pat) {
            let rest = s.skip(pat.len() as int);
            let q = replaced(rest, pat, mark);
            assert(r == mark + q);
            if i < mark.len() {
                assert(agree_at(pat, mark, i)) by {
                    assert forall|j: int|
                        0 <= j < pat.len() && 0 <= i + j < mark.len() implies #[trigger] pat[j]
                        == mark[i + j] by {
                        assert(r[i + j] == mark[i + j]);
                    }
                }
            } else {
                let m = mark.len() as int;
                assert(q.subrange(i - m, i - m + pat.len()) =~= here);
                lemma_replaced_at(rest, pat, mark, i - m);
            }
        } else {
            let rest = s.drop_first();
            let q = replaced(rest, pat, mark);
            assert(r == seq![s[0]] + q);
            if i > 0 {
                assert(q.subrange(i - 1, i - 1 + pat.len()) =~= here);
                lemma_replaced_at(rest, pat, mark, i - 1);
            } else {
                let n = pat.len() as int;
                lemma_front_or_mark(s, pat, mark, n);
                if n <= s.len() && r.take(n) == s.take(n) {
                    assert(s.subrange(0, n) =~= s.take(n));
                    assert(here =~= r.take(n));
                    assert(begins_with(s, pat));
                } else {
                    let p = choose|p: int| 0 <= p < n && #[trigger] occurs_at(r, mark, p);
                    let there = r.subrange(p, p + mark.len());
                    assert(agree_at(pat, mark, -p)) by {
                        assert forall|j: int|
                            0 <= j < pat.len() && 0 <= -p + j < mark.len() implies #[trigger] pat[j]
                            == mark[-p + j] by {
                            assert(there[j - p] == r[j]);
                        }
                    }
                }
            }
        }
    }
}

/// A text that was replaced by one that it cannot share a character with is
/// gone for good.
pub proof fn law_replaced_text_is_gone(s: Seq<char>, pat: Seq<char>, mark: Seq<char>)
    requires
        pat.len() > 0,
        mark.len() > 0,
        stand_apart(pat, mark),
    ensures
        !has_text(replaced(s, pat, mark), pat),
{
    let r = replaced(s, pat, mark);
    assert forall|i: int| !#[trigger] occurs_at(r, pat, i) by {
        lemma_replaced_at(s, pat, mark, i);
    }
}

/// A path followed by a relative one; an absolute path stands alone.
pub open spec fn joined(dir: Seq<char>, name: Seq<char>) -> Seq<char> {
    if name.len() > 0 && name[0] == '/' {
        name
    } else if dir.len() == 0 {
        name
    } else if dir.last() == '/' {
        dir + name
    } else {
        dir + "/"@ + name
    }
}

/// A path followed by a relative one.
pub fn join_path(dir: &str, name: &str) -> (r: String)
    ensures
        r@ == joined(dir@, name@),
{
    let d = chars_of(dir);
    let n = chars_of(name);
    if n.len() > 0 && n[0] == '/' {
        return name.to_owned();
    }
    if d.len() == 0 {
        return name.to_owned();
    }
    let mut r = dir.to_owned();
    if d[d.len() - 1] != '/' {
        r.append("/");
    }
    r.append(name);
    r
}

/// Texts one after the other, with a separator between them.
pub open spec fn joined_by(parts: Seq<Seq<char>>, sep: Seq<char>) -> Seq<char>
    decreases parts.len(),
{
    if parts.len() == 0 {
        Seq::empty()
    } else if parts.len() == 1 {
        parts[0]
    } else {
        joined_by(parts.drop_last(), sep) + sep + parts.last()
    }
}

/// Texts one after the other, with a separator between them.
pub fn join_with(parts: &Vec<String>, sep: &str) -> (r: String)
    ensures
        r@ == joined_by(texts(parts@), sep@),
{
    let ghost all = texts(parts@);
    let mut r = String::new();
    let mut i: usize = 0;
    assert(r@ =~= joined_by(all.take(0), sep@));
    while i < parts.len()
        invariant
            i <= parts.len(),
            all == texts(parts@),
            r@ == joined_by(all.take(i as int), sep@),
        decreases parts.len() - i,
    {
        let ghost next = all.take(i + 1);
        assert(next.drop_last() == all.take(i as int));
        assert(next.last() == parts@[i as int]@);
        let ghost before = r@;
        if i > 0 {
            r.append(sep);
        }
        r.append(parts[i].as_str());
        assert(i == 0 ==> r@ =~= parts@[0]@);
        i += 1;
    }
    assert(all.take(all.len() as int) == all);
    r
}

/// The order of texts by their characters.
pub open spec fn sorts_before(a: Seq<char>, b: Seq<char>) -> bool
    decreases a.len(),
{
    if a.len() == 0 || b.len() == 0 {
        a.len() == 0 && b.len() > 0
    } else if a[0] != b[0] {
        a[0] < b[0]
    } else {
        sorts_before(a.drop_first(), b.drop_first())
    }
}

/// Whether one text comes before another.
pub fn is_before(a: &str, b: &str) -> (r: bool)
    ensures
        r == sorts_before(a@, b@),
{
    let x = chars_of(a);
    let y = chars_of(b);
    let mut i: usize = 0;
    assert(a@.skip(0) == a@ && b@.skip(0) == b@);
    while i < x.len() && i < y.len()
        invariant
            i <= x.len(),
            i <= y.len(),
            x@ == a@,
            y@ == b@,
            sorts_before(a@, b@) == sorts_before(a@.skip(i as int), b@.skip(i as int)),
        decreases x.len() - i,
    {
        if x[i] != y[i] {
            return x[i] < y[i];
        }
        assert(a@.skip(i as int).drop_first() == a@.skip(i + 1));
        assert(b@.skip(i as int).drop_first() == b@.skip(i + 1));
        i += 1;
    }
    i == x.len() && i < y.len()
}

/// Of two texts, one comes before the other or they are equal, and not both
/// come first.
pub proof fn law_order_is_total(a: Seq<char>, b: Seq<char>)
    ensures
        sorts_before(a, b) || sorts_before(b, a) || a == b,
        !(sorts_before(a, b) && sorts_before(b, a)),
        !sorts_before(a, a),
    decreases a.len(),
{
    if a.len() > 0 {
        law_order_is_total(a.drop_first(), a.drop_first());
        if b.len() > 0 && a[0] == b[0] {
            law_order_is_total(a.drop_first(), b.drop_first());
            if a.drop_first() == b.drop_first() {
                assert(a =~= seq![a[0]] + a.drop_first());
                assert(b =~= seq![b[0]] + b.drop_first());
            }
        }
    } else if b.len() == 0 {
        assert(a =~= b);
    }
}

/// What comes before a text comes before whatever the text comes before.
pub proof fn law_order_is_transitive(a: Seq<char>, b: Seq<char>, c: Seq<char>)
    requires
        sorts_before(a, b),
        sorts_before(b, c),
    ensures
        sorts_before(a, c),
    decreases a.len(),
{
    if a.len() > 0 && b.len() > 0 && c.len() > 0 && a[0] == b[0] && b[0] == c[0] {
        law_order_is_transitive(a.drop_first(), b.drop_first(), c.drop_first());
    }
}

/// Stripping the front leaves a suffix that does not begin with a character of
/// the set.
pub proof fn law_drop_front(s: Seq<char>, set: CharSet)
    ensures
        drop_front(s, set).len() <= s.len(),
        drop_front(s, set) == s.skip(s.len() - drop_front(s, set).len()),
        drop_front(s, set).len() > 0 ==> !set.has(drop_front(s, set)[0]),
        forall|i: int|
            0 <= i < s.len() - drop_front(s, set).len() ==> set.has(#[trigger] s[i]),
    decreases s.len(),
{
    if s.len() > 0 && set.has(s[0]) {
        let rest = s.drop_first();
        law_drop_front(rest, set);
        assert forall|i: int| 0 <= i < s.len() - drop_front(s, set).len() implies set.has(
            #[trigger] s[i],
        ) by {
            if i > 0 {
                assert(s[i] == rest[i - 1]);
            }
        }
        assert(rest.skip(rest.len() - drop_front(rest, set).len()) =~= s.skip(
            s.len() - drop_front(rest, set).len(),
        ));
    } else {
        assert(s.skip(0) =~= s);
    }
}

/// Stripping the back leaves a prefix that does not end with a character of
/// the set.
pub proof fn law_drop_back(s: Seq<char>, set: CharSet)
    ensures
        drop_back(s, set).len() <= s.len(),
        drop_back(s, set) == s.take(drop_back(s, set).len() as int),
        drop_back(s, set).len() > 0 ==> !set.has(drop_back(s, set).last()),
        forall|i: int| drop_back(s, set).len() <= i < s.len() ==> set.has(#[trigger] s[i]),
    decreases s.len(),
{
    if s.len() > 0 && set.has(s.last()) {
        let rest = s.drop_last();
        law_drop_back(rest, set);
        assert(rest.take(drop_back(rest, set).len() as int) =~= s.take(
            drop_back(rest, set).len() as int,
        ));
        assert forall|i: int| drop_back(s, set).len() <= i < s.len() implies set.has(
            #[trigger] s[i],
        ) by {
            if i < s.len() - 1 {
                assert(s[i] == rest[i]);
            }
        }
    } else {
        assert(s.take(s.len() as int) =~= s);
    }
}

/// Stripping both ends leaves a middle part with no character of the set at
/// its ends; nothing is left only of a text made of such characters.
pub proof fn law_drop_ends(s: Seq<char>, set: CharSet)
    ensures
        ({
            let r = drop_ends(s, set);
            let from = s.len() - drop_front(s, set).len();
            &&& 0 <= from
            &&& from + r.len() <= s.len()
            &&& r == s.subrange(from, from + r.len())
            &&& r.len() > 0 ==> !set.has(r[0]) && !set.has(r.last())
            &&& r.len() == 0 <==> forall|i: int| 0 <= i < s.len() ==> set.has(#[trigger] s[i])
        }),
{
    let front = drop_front(s, set);
    let r = drop_ends(s, set);
    let from = s.len() - front.len();
    law_drop_front(s, set);
    law_drop_back(front, set);
    assert(r =~= s.subrange(from, from + r.len()));
    if r.len() == 0 {
        assert forall|i: int| 0 <= i < s.len() implies set.has(#[trigger] s[i]) by {
            if i >= from {
                assert(s[i] == front[i - from]);
            }
        }
    } else {
        assert(r[0] == front[0]);
        assert(r[0] == s[from]);
    }
}

/// What stands in a part of a text stands in the whole.
pub proof fn law_part_is_in_whole(before: Seq<char>, part: Seq<char>, after: Seq<char>, pat: Seq<char>)
    requires
        has_text(part, pat),
    ensures
        has_text(before + part + after, pat),
{
    let i = choose|i: int| #[trigger] occurs_at(part, pat, i);
    let whole = before + part + after;
    let k = before.len() + i;
    assert(whole.subrange(k, k + pat.len()) =~= part.subrange(i, i + pat.len()));
    assert(occurs_at(whole, pat, k));
}

/// What stands in one of two texts stands in their concatenation.
pub proof fn law_concatenation_holds_both(a: Seq<char>, b: Seq<char>)
    ensures
        forall|pat: Seq<char>| #[trigger] has_text(a, pat) ==> has_text(a + b, pat),
        forall|pat: Seq<char>| #[trigger] has_text(b, pat) ==> has_text(a + b, pat),
{
    assert forall|pat: Seq<char>| #[trigger] has_text(a, pat) implies has_text(a + b, pat) by {
        assert(a + b =~= Seq::<char>::empty() + a + b);
        law_part_is_in_whole(Seq::empty(), a, b, pat);
    }
    assert forall|pat: Seq<char>| #[trigger] has_text(b, pat) implies has_text(a + b, pat) by {
        assert(a + b =~= a + b + Seq::<char>::empty());
        law_part_is_in_whole(a, b, Seq::empty(), pat);
    }
}

/// What stands in a text that stands in another stands in the other.
pub proof fn law_standing_in_is_transitive(whole: Seq<char>, part: Seq<char>, pat: Seq<char>)
    requires
        has_text(whole, part),
        has_text(part, pat),
    ensures
        has_text(whole, pat),
{
    let i = choose|i: int| #[trigger] occurs_at(whole, part, i);
    assert(whole =~= whole.take(i) + part + whole.skip(i + part.len()));
    law_part_is_in_whole(whole.take(i), part, whole.skip(i + part.len()), pat);
}

/// A text stands in itself.
pub proof fn law_text_is_in_itself(s: Seq<char>)
    ensures
        has_text(s, s),
{
    assert(s.subrange(0, s.len() as int) =~= s);
    assert(occurs_at(s, s, 0));
}

/// A text stands in another exactly where the other can be cut so that it is
/// the middle part; it begins or ends another where it is the first or the last
/// part.
pub proof fn law_standing_in_is_being_a_part(s: Seq<char>, pat: Seq<char>)
    ensures
        has_text(s, pat) <==> exists|before: Seq<char>, after: Seq<char>|
            s == #[trigger] (before + pat + after),
        begins_with(s, pat) <==> exists|after: Seq<char>| s == #[trigger] (pat + after),
        ends_in(s, pat) <==> exists|before: Seq<char>| s == #[trigger] (before + pat),
{
    if has_text(s, pat) {
        let i = choose|i: int| #[trigger] occurs_at(s, pat, i);
        assert(s =~= s.take(i) + pat + s.skip(i + pat.len()));
    }
    if exists|before: Seq<char>, after: Seq<char>| s == #[trigger] (before + pat + after) {
        let (before, after) = choose|before: Seq<char>, after: Seq<char>|
            s == #[trigger] (before + pat + after);
        assert(s.subrange(before.len() as int, (before.len() + pat.len()) as int) =~= pat);
        assert(occurs_at(s, pat, before.len() as int));
    }
    if begins_with(s, pat) {
        assert(s =~= pat + s.skip(pat.len() as int));
    }
    if exists|after: Seq<char>| s == #[trigger] (pat + after) {
        assert(s.subrange(0, pat.len() as int) =~= pat);
    }
    if ends_in(s, pat) {
        assert(s =~= s.take(s.len() - pat.len()) + pat);
    }
    if exists|before: Seq<char>| s == #[trigger] (before + pat) {
        assert(s.subrange(s.len() - pat.len(), s.len() as int) =~= pat);
    }
}

/// Two texts are equal but for case exactly where they are equally long and at
/// each place hold the same character, or the two cases of an ASCII letter.
pub proof fn law_case_of_ascii_letters_alone_is_ignored(a: Seq<char>, b: Seq<char>)
    ensures
        same_but_case(a, b) <==> a.len() == b.len() && forall|i: int|
            0 <= i < a.len() ==> {
                let c = #[trigger] a[i] as u32;
                let d = b[i] as u32;
                ||| c == d
                ||| 65 <= c <= 90 && d == c + 32
                ||| 65 <= d <= 90 && c == d + 32
            },
{
    assert forall|c: char| 65 <= c as u32 <= 90 implies (#[trigger] ascii_lower(c)) as u32 == c
        as u32 + 32 by {}
    assert forall|c: char| !(65 <= c as u32 <= 90) implies #[trigger] ascii_lower(c) == c by {}
    if same_but_case(a, b) {
        assert forall|i: int| 0 <= i < a.len() implies {
            let c = #[trigger] a[i] as u32;
            let d = b[i] as u32;
            ||| c == d
            ||| 65 <= c <= 90 && d == c + 32
            ||| 65 <= d <= 90 && c == d + 32
        } by {
            assert(ascii_lower(a[i]) == ascii_lower(b[i]));
        }
    }
    if a.len() == b.len() && forall|i: int|
        0 <= i < a.len() ==> {
            let c = #[trigger] a[i] as u32;
            let d = b[i] as u32;
            ||| c == d
            ||| 65 <= c <= 90 && d == c + 32
            ||| 65 <= d <= 90 && c == d + 32
        } {
        assert forall|i: int| 0 <= i < a.len() implies ascii_lower(#[trigger] a[i]) == ascii_lower(
            b[i],
        ) by {
            let c = a[i] as u32;
            let d = b[i] as u32;
            if c == d {
                assert(a[i] == b[i]);
            } else if 65 <= c <= 90 {
                assert(ascii_lower(a[i]) as u32 == ascii_lower(b[i]) as u32);
            } else {
                assert(ascii_lower(a[i]) as u32 == ascii_lower(b[i]) as u32);
            }
        }
    }
}

/// The characters of each set, by their numbers.
pub proof fn law_characters_of_the_sets(c: char)
    ensures
        CharSet::White.has(c) <==> {
            let n = c as u32;
            ||| 9 <= n <= 13
            ||| n == 32
            ||| n == 133
            ||| n == 160
            ||| n == 5760
            ||| 8192 <= n <= 8202
            ||| n == 8232
            ||| n == 8233
            ||| n == 8239
            ||| n == 8287
            ||| n == 12288
        },
        is_white(c) == CharSet::White.has(c),
        CharSet::Hyphen.has(c) <==> c as u32 == 45,
        CharSet::Hash.has(c) <==> c as u32 == 35,
        CharSet::Slash.has(c) <==> c as u32 == 47,
        CharSet::Closing.has(c) <==> seq!['.', '!', '?', ';', ','].contains(c),
{
    let closing = seq!['.', '!', '?', ';', ','];
    assert(closing[0] == '.' && closing[1] == '!' && closing[2] == '?' && closing[3] == ';'
        && closing[4] == ',');
}

/// White space around a text is taken off, and nothing else.
pub proof fn law_trimming_takes_white_space_off(front: Seq<char>, middle: Seq<char>, back: Seq<char>)
    requires
        forall|i: int| 0 <= i < front.len() ==> is_white(#[trigger] front[i]),
        forall|i: int| 0 <= i < back.len() ==> is_white(#[trigger] back[i]),
        middle.len() > 0 ==> !is_white(middle[0]) && !is_white(middle.last()),
    ensures
        trimmed(front + middle + back) == middle,
{
    let s = front + middle + back;
    let r = trimmed(s);
    let from = s.len() - drop_front(s, CharSet::White).len();
    law_drop_ends(s, CharSet::White);
    law_drop_front(s, CharSet::White);
    law_drop_back(drop_front(s, CharSet::White), CharSet::White);
    if middle.len() == 0 {
        assert forall|i: int| 0 <= i < s.len() implies CharSet::White.has(#[trigger] s[i]) by {
            if i < front.len() {
                assert(s[i] == front[i]);
            } else {
                assert(s[i] == back[i - front.len()]);
            }
        }
        assert(r =~= middle);
    } else {
        assert(s[front.len() as int] == middle[0]);
        assert(s[front.len() + middle.len() - 1] == middle.last());
        assert(from == front.len()) by {
            if from < front.len() {
                assert(s[from] == front[from]);
                assert(drop_front(s, CharSet::White)[0] == s[from]);
            }
        }
        let rest = drop_front(s, CharSet::White);
        assert(rest =~= middle + back);
        assert(r.len() == middle.len()) by {
            if r.len() < middle.len() {
                assert(rest[middle.len() - 1] == middle.last());
            }
            if r.len() > middle.len() {
                assert(r.last() == rest[r.len() - 1]);
                assert(rest[r.len() - 1] == back[r.len() - 1 - middle.len()]);
            }
        }
        assert(r =~= middle);
    }
}

proof fn lemma_first_index_behind(front: Seq<char>, c: char, rest: Seq<char>)
    requires
        !front.contains(c),
    ensures
        first_index(front + seq![c] + rest, c) == front.len(),
        first_index(front, c) == front.len(),
{
    let s = front + seq![c] + rest;
    lemma_first_index(s, c);
    lemma_first_index(front, c);
    assert(s[front.len() as int] == c);
    let i = first_index(s, c);
    if i < front.len() {
        assert(s[i] == front[i]);
        assert(front.contains(c));
    }
    let j = first_index(front, c);
    if j < front.len() {
        assert(front.contains(front[j]));
    }
}

/// A text is cut at each separator and nowhere else.
pub proof fn law_pieces(front: Seq<char>, sep: char, rest: Seq<char>)
    requires
        !front.contains(sep),
    ensures
        pieces(front, sep) == seq![front],
        pieces(front + seq![sep] + rest, sep) == seq![front] + pieces(rest, sep),
{
    let s = front + seq![sep] + rest;
    lemma_first_index_behind(front, sep, rest);
    assert(s.take(front.len() as int) =~= front);
    assert(s.skip(front.len() as int + 1) =~= rest);
}

/// The entries of a list are what stands between its commas, without the white
/// space around it, in order; what is empty then is no entry.
pub proof fn law_list_entries(front: Seq<char>, rest: Seq<char>)
    requires
        !front.contains(','),
    ensures
        list_entries(front) == if trimmed(front).len() > 0 {
            seq![trimmed(front)]
        } else {
            Seq::empty()
        },
        list_entries(front + ","@ + rest) == list_entries(front) + list_entries(rest),
{
    let nonempty = |p: Seq<char>| p.len() > 0;
    let trim = |p: Seq<char>| trimmed(p);
    reveal_strlit(",");
    assert(","@ =~= seq![',']);
    law_pieces(front, ',', rest);
    let one = pieces(front, ',').map_values(trim);
    assert(one =~= seq![trimmed(front)]);
    reveal(Seq::filter);
    assert(one.drop_last() =~= Seq::<Seq<char>>::empty());
    assert(one.drop_last().filter(nonempty) =~= Seq::<Seq<char>>::empty());
    let all = pieces(front + ","@ + rest, ',').map_values(trim);
    assert(all =~= one + pieces(rest, ',').map_values(trim));
    Seq::filter_distributes_over_add(one, pieces(rest, ',').map_values(trim), nonempty);
}

/// A line ends at a line feed, or at a carriage return and a line feed; what
/// follows the last one is a line where it is not empty.
pub proof fn law_lines(front: Seq<char>, rest: Seq<char>)
    requires
        !front.contains('\n'),
    ensures
        front.len() > 0 ==> lines_of(front) == seq![front],
        lines_of(Seq::empty()) == Seq::<Seq<char>>::empty(),
        front.len() == 0 || front.last() != '\r' ==> lines_of(front + "\n"@ + rest) == seq![front]
            + lines_of(rest),
        lines_of(front + "\r\n"@ + rest) == seq![front] + lines_of(rest),
{
    reveal_strlit("\n");
    reveal_strlit("\r\n");
    assert("\n"@ =~= seq!['\n']);
    lemma_first_index_behind(front, '\n', rest);
    let s = front + seq!['\n'] + rest;
    assert(s.take(front.len() as int) =~= front);
    assert(s.skip(front.len() as int + 1) =~= rest);
    let with_return = front.push('\r');
    assert(!with_return.contains('\n'));
    lemma_first_index_behind(with_return, '\n', rest);
    let t = with_return + seq!['\n'] + rest;
    assert(front + "\r\n"@ + rest =~= t);
    assert(t.take(with_return.len() as int) =~= with_return);
    assert(t.skip(with_return.len() as int + 1) =~= rest);
    assert(without_cr(with_return) =~= front);
}

/// Each place where a text stands, taken from the left, is replaced, and what
/// lies before it is kept.
pub proof fn law_replacing(before: Seq<char>, pat: Seq<char>, rest: Seq<char>, with: Seq<char>)
    requires
        pat.len() > 0,
        forall|i: int| 0 <= i < before.len() ==> !#[trigger] occurs_at(before + pat + rest, pat, i),
    ensures
        replaced(before + pat + rest, pat, with) == before + with + replaced(rest, pat, with),
    decreases before.len(),
{
    let s = before + pat + rest;
    if before.len() == 0 {
        assert(s =~= pat + rest);
        assert(s.subrange(0, pat.len() as int) =~= pat);
        assert(s.skip(pat.len() as int) =~= rest);
        assert(before + with =~= with);
    } else {
        let shorter = before.drop_first();
        assert(s.drop_first() =~= shorter + pat + rest);
        assert forall|i: int| 0 <= i < shorter.len() implies !#[trigger] occurs_at(
            shorter + pat + rest,
            pat,
            i,
        ) by {
            assert(!occurs_at(s, pat, i + 1));
            if i + pat.len() <= shorter.len() + pat.len() + rest.len() {
                assert(s.subrange(i + 1, i + 1 + pat.len()) =~= (shorter + pat + rest).subrange(
                    i,
                    i + pat.len(),
                ));
            }
        }
        law_replacing(shorter, pat, rest, with);
        assert(!occurs_at(s, pat, 0));
        assert(seq![s[0]] + (shorter + with + replaced(rest, pat, with)) =~= before + with
            + replaced(rest, pat, with));
    }
}

/// A text in which another does not stand is kept as it is.
pub proof fn law_nothing_to_replace(s: Seq<char>, pat: Seq<char>, with: Seq<char>)
    requires
        pat.len() == 0 || !has_text(s, pat),
    ensures
        replaced(s, pat, with) == s,
    decreases s.len(),
{
    if s.len() > 0 && pat.len() > 0 {
        assert(!occurs_at(s, pat, 0));
        let rest = s.drop_first();
        assert(s =~= seq![s[0]] + rest);
        if has_text(rest, pat) {
            law_concatenation_holds_both(seq![s[0]], rest);
        }
        law_nothing_to_replace(rest, pat, with);
    }
}

/// A relative path stands below a directory, with one slash between them; an
/// absolute one does not.
pub proof fn law_paths(dir: Seq<char>, name: Seq<char>)
    ensures
        name.len() > 0 && name[0] == '/' ==> joined(dir, name) == name,
        (name.len() == 0 || name[0] != '/') && dir.len() > 0 && dir.last() != '/' ==> joined(
            dir,
            name,
        ) == dir + seq!['/'] + name,
        (name.len() == 0 || name[0] != '/') && dir.len() > 0 && dir.last() == '/' ==> joined(
            dir,
            name,
        ) == dir + name,
        dir.len() == 0 ==> joined(dir, name) == name,
{
    reveal_strlit("/");
    assert("/"@ =~= seq!['/']);
}

/// Texts are joined in order, with a separator between each two of them.
pub proof fn law_joining(parts: Seq<Seq<char>>, last: Seq<char>, sep: Seq<char>)
    ensures
        joined_by(Seq::empty(), sep) == Seq::<char>::empty(),
        joined_by(seq![last], sep) == last,
        parts.len() > 0 ==> joined_by(parts.push(last), sep) == joined_by(parts, sep) + sep + last,
{
    assert(parts.push(last).drop_last() =~= parts);
}

/// Of two texts that are equal up to a place, the one that ends there, or has
/// the lesser character there, comes first.
pub proof fn law_order_is_by_characters(a: Seq<char>, b: Seq<char>, k: int)
    requires
        0 <= k <= a.len(),
        k <= b.len(),
        a.take(k) == b.take(k),
    ensures
        k == a.len() && k < b.len() ==> sorts_before(a, b),
        k < a.len() && k < b.len() && a[k] < b[k] ==> sorts_before(a, b),
    decreases k,
{
    if k > 0 {
        assert(a[0] == a.take(k)[0] && b[0] == b.take(k)[0]);
        assert(a.drop_first().take(k - 1) =~= a.take(k).drop_first());
        assert(b.drop_first().take(k - 1) =~= b.take(k).drop_first());
        law_order_is_by_characters(a.drop_first(), b.drop_first(), k - 1);
    }
}

} // verus!
