//! Parsing references such as `John 3:16`, `Gen 1:1-5` or `Romans 8` into a
//! book (by its OSIS name), a chapter and a verse range.

use vstd::prelude::*;
use vstd::string::StrSliceExecFns;
use crate::text::{
    char_is_alphanumeric, is_alphanumeric, lowercase_of, parse_usize, parse_usize_spec, push_char,
    str_equal, str_to_lowercase,
};

verus! {

/// A parsed reference: a book by its OSIS name, and optionally a chapter and verses.
#[derive(Debug, PartialEq, Eq)]
pub struct Reference {
    pub osis_book: String,
    pub chapter: Option<usize>,
    pub start_verse: Option<usize>,
    pub end_verse: Option<usize>,
}

/// A reference as plain values.
pub struct ReferenceView {
    pub osis_book: Seq<char>,
    pub chapter: Option<usize>,
    pub start_verse: Option<usize>,
    pub end_verse: Option<usize>,
}

impl View for Reference {
    type V = ReferenceView;

    open spec fn view(&self) -> ReferenceView {
        ReferenceView {
            osis_book: self.osis_book@,
            chapter: self.chapter,
            start_verse: self.start_verse,
            end_verse: self.end_verse,
        }
    }
}

/// An optional reference as plain values.
pub open spec fn opt_reference_view(r: Option<Reference>) -> Option<ReferenceView> {
    match r {
        Some(x) => Some(x@),
        None => None,
    }
}

/// Every spelling of a book that a reference may use (lowercase, letters and
/// digits only), with the OSIS name of the book.
pub const BOOK_ALIASES: [(&'static str, &'static str); 212] = [
    ("gen", "Gen"), ("genesis", "Gen"),
    ("exod", "Exod"), ("exodus", "Exod"), ("ex", "Exod"),
    ("lev", "Lev"), ("leviticus", "Lev"), ("le", "Lev"),
    ("num", "Num"), ("numbers", "Num"), ("nu", "Num"),
    ("deut", "Deut"), ("deuteronomy", "Deut"), ("dt", "Deut"),
    ("josh", "Josh"), ("joshua", "Josh"), ("jos", "Josh"),
    ("judg", "Judg"), ("judges", "Judg"), ("jdg", "Judg"),
    ("ruth", "Ruth"), ("ru", "Ruth"),
    ("1samuel", "1Sam"), ("1sam", "1Sam"), ("1sa", "1Sam"), ("firstsamuel", "1Sam"),
    ("2samuel", "2Sam"), ("2sam", "2Sam"), ("2sa", "2Sam"), ("secondsamuel", "2Sam"),
    ("1kings", "1Kgs"), ("1kgs", "1Kgs"), ("1ki", "1Kgs"), ("firstkings", "1Kgs"),
    ("2kings", "2Kgs"), ("2kgs", "2Kgs"), ("2ki", "2Kgs"), ("secondkings", "2Kgs"),
    ("1chronicles", "1Chr"), ("1chr", "1Chr"), ("1ch", "1Chr"), ("firstchronicles", "1Chr"),
    ("2chronicles", "2Chr"), ("2chr", "2Chr"), ("2ch", "2Chr"), ("secondchronicles", "2Chr"),
    ("ezra", "Ezra"), ("ezr", "Ezra"),
    ("nehemiah", "Neh"), ("neh", "Neh"), ("ne", "Neh"),
    ("esther", "Esth"), ("esth", "Esth"), ("est", "Esth"),
    ("job", "Job"), ("jb", "Job"),
    ("psalms", "Ps"), ("psalm", "Ps"), ("ps", "Ps"),
    ("proverbs", "Prov"), ("prov", "Prov"), ("pr", "Prov"),
    ("ecclesiastes", "Eccl"), ("eccl", "Eccl"), ("ecc", "Eccl"), ("ec", "Eccl"),
    ("songofsolomon", "Song"), ("songofsongs", "Song"), ("song", "Song"), ("sos", "Song"), ("canticles", "Song"),
    ("isaiah", "Isa"), ("isa", "Isa"), ("is", "Isa"),
    ("jeremiah", "Jer"), ("jer", "Jer"), ("je", "Jer"),
    ("lamentations", "Lam"), ("lam", "Lam"), ("la", "Lam"),
    ("ezekiel", "Ezek"), ("ezek", "Ezek"), ("eze", "Ezek"),
    ("daniel", "Dan"), ("dan", "Dan"), ("da", "Dan"),
    ("hosea", "Hos"), ("hos", "Hos"), ("ho", "Hos"),
    ("joel", "Joel"), ("joe", "Joel"),
    ("amos", "Amos"), ("am", "Amos"),
    ("obadiah", "Obad"), ("obad", "Obad"), ("ob", "Obad"),
    ("jonah", "Jonah"), ("jon", "Jonah"), ("jnh", "Jonah"),
    ("micah", "Mic"), ("mic", "Mic"), ("mc", "Mic"),
    ("nahum", "Nah"), ("nah", "Nah"), ("na", "Nah"),
    ("habakkuk", "Hab"), ("hab", "Hab"), ("hb", "Hab"),
    ("zephaniah", "Zeph"), ("zeph", "Zeph"), ("zp", "Zeph"),
    ("haggai", "Hag"), ("hag", "Hag"), ("hg", "Hag"),
    ("zechariah", "Zech"), ("zech", "Zech"), ("zc", "Zech"),
    ("malachi", "Mal"), ("mal", "Mal"), ("ml", "Mal"),
    ("matthew", "Matt"), ("matt", "Matt"), ("mt", "Matt"),
    ("mark", "Mark"), ("mrk", "Mark"), ("mk", "Mark"),
    ("luke", "Luke"), ("luk", "Luke"), ("lk", "Luke"),
    ("john", "John"), ("jhn", "John"), ("jn", "John"),
    ("acts", "Acts"), ("act", "Acts"), ("ac", "Acts"),
    ("romans", "Rom"), ("rom", "Rom"), ("ro", "Rom"),
    ("1corinthians", "1Cor"), ("1cor", "1Cor"), ("1co", "1Cor"), ("firstcorinthians", "1Cor"),
    ("2corinthians", "2Cor"), ("2cor", "2Cor"), ("2co", "2Cor"), ("secondcorinthians", "2Cor"),
    ("galatians", "Gal"), ("gal", "Gal"), ("ga", "Gal"),
    ("ephesians", "Eph"), ("eph", "Eph"), ("ep", "Eph"),
    ("philippians", "Phil"), ("phil", "Phil"), ("php", "Phil"), ("pp", "Phil"),
    ("colossians", "Col"), ("col", "Col"),
    ("1thessalonians", "1Thess"), ("1thess", "1Thess"), ("1th", "1Thess"), ("firstthessalonians", "1Thess"),
    ("2thessalonians", "2Thess"), ("2thess", "2Thess"), ("2th", "2Thess"), ("secondthessalonians", "2Thess"),
    ("1timothy", "1Tim"), ("1tim", "1Tim"), ("1ti", "1Tim"), ("firsttimothy", "1Tim"),
    ("2timothy", "2Tim"), ("2tim", "2Tim"), ("2ti", "2Tim"), ("secondtimothy", "2Tim"),
    ("titus", "Titus"), ("tit", "Titus"), ("ti", "Titus"),
    ("philemon", "Phlm"), ("phlm", "Phlm"), ("phm", "Phlm"),
    ("hebrews", "Heb"), ("heb", "Heb"),
    ("james", "Jas"), ("jas", "Jas"), ("jm", "Jas"),
    ("1peter", "1Pet"), ("1pet", "1Pet"), ("1pe", "1Pet"), ("firstpeter", "1Pet"),
    ("2peter", "2Pet"), ("2pet", "2Pet"), ("2pe", "2Pet"), ("secondpeter", "2Pet"),
    ("1john", "1John"), ("1jn", "1John"), ("1j", "1John"), ("firstjohn", "1John"),
    ("2john", "2John"), ("2jn", "2John"), ("2j", "2John"), ("secondjohn", "2John"),
    ("3john", "3John"), ("3jn", "3John"), ("3j", "3John"), ("thirdjohn", "3John"),
    ("jude", "Jude"), ("jud", "Jude"),
    ("revelation", "Rev"), ("rev", "Rev"), ("re", "Rev"), ("apoc", "Rev"), ("apocalypse", "Rev"),
];

/// The OSIS name of the book that `key` spells, looked up among the first `n` aliases.
pub open spec fn alias_lookup(table: Seq<(&str, &str)>, key: Seq<char>, n: int) -> Option<Seq<char>>
    decreases n,
{
    if n <= 0 {
        None
    } else if alias_lookup(table, key, n - 1) is Some {
        alias_lookup(table, key, n - 1)
    } else if table[n - 1].0@ == key {
        Some(table[n - 1].1@)
    } else {
        None
    }
}

/// The OSIS name of the book that `key` spells, if it is a known alias.
pub open spec fn osis_for_alias(key: Seq<char>) -> Option<Seq<char>> {
    alias_lookup(BOOK_ALIASES@, key, 212)
}

/// Looks up the OSIS name of the book that `key` spells.
pub fn lookup_book_alias(key: &str) -> (r: Option<&'static str>)
    ensures
        match r {
            Some(o) => osis_for_alias(key@) == Some(o@),
            None => osis_for_alias(key@) is None,
        },
        match r {
            Some(o) => exists|i: int|
                #![trigger BOOK_ALIASES@[i]]
                0 <= i < 212 && BOOK_ALIASES@[i].0@ == key@ && BOOK_ALIASES@[i].1@ == o@,
            None => forall|i: int| 0 <= i < 212 ==> (#[trigger] BOOK_ALIASES@[i]).0@ != key@,
        },
{
    proof {
        law_alias_lookup_exact(key@);
    }
    let mut i: usize = 0;
    while i < 212
        invariant
            i <= 212,
            alias_lookup(BOOK_ALIASES@, key@, i as int) is None,
        decreases 212 - i,
    {
        let entry = BOOK_ALIASES[i];
        assert(entry == BOOK_ALIASES@[i as int]);
        if str_equal(key, entry.0) {
            proof {
                lemma_alias_lookup_found_stays(BOOK_ALIASES@, key@, i + 1, 212);
            }
            return Some(entry.1);
        }
        i = i + 1;
    }
    None
}

/// The first of the first `n` aliases spelled exactly `key` gives the result;
/// when none is, there is none.
proof fn lemma_alias_lookup_first(table: Seq<(&str, &str)>, key: Seq<char>, n: int)
    ensures
        match alias_lookup(table, key, n) {
            Some(o) => exists|i: int|
                #![trigger table[i]]
                0 <= i < n && table[i].0@ == key && table[i].1@ == o && forall|j: int|
                    0 <= j < i ==> (#[trigger] table[j]).0@ != key,
            None => forall|i: int| 0 <= i < n ==> (#[trigger] table[i]).0@ != key,
        },
    decreases n,
{
    if n > 0 {
        lemma_alias_lookup_first(table, key, n - 1);
        if alias_lookup(table, key, n - 1) is Some {
            let o = alias_lookup(table, key, n - 1)->0;
            let i = choose|i: int|
                #![trigger table[i]]
                0 <= i < n - 1 && table[i].0@ == key && table[i].1@ == o && forall|j: int|
                    0 <= j < i ==> (#[trigger] table[j]).0@ != key;
            assert(0 <= i < n && table[i].0@ == key && table[i].1@ == o);
        } else if table[n - 1].0@ == key {
            assert(table[n - 1].0@ == key);
        } else {
            assert forall|i: int| 0 <= i < n implies (#[trigger] table[i]).0@ != key by {
                if i < n - 1 {
                } else {
                }
            }
        }
    }
}

/// A book name is recognised exactly when it is spelled as one of the known
/// aliases, and the OSIS name it gives is the one paired with the first alias
/// spelled exactly that way: a name that merely begins like an alias, or that
/// an alias begins with, is no match.
pub proof fn law_alias_lookup_exact(key: Seq<char>)
    ensures
        match osis_for_alias(key) {
            Some(o) => exists|i: int|
                #![trigger BOOK_ALIASES@[i]]
                0 <= i < 212 && BOOK_ALIASES@[i].0@ == key && BOOK_ALIASES@[i].1@ == o
                    && forall|j: int| 0 <= j < i ==> (#[trigger] BOOK_ALIASES@[j]).0@ != key,
            None => forall|i: int| 0 <= i < 212 ==> (#[trigger] BOOK_ALIASES@[i]).0@ != key,
        },
{
    lemma_alias_lookup_first(BOOK_ALIASES@, key, 212);
}

proof fn lemma_alias_lookup_found_stays(table: Seq<(&str, &str)>, key: Seq<char>, m: int, n: int)
    requires
        0 <= m <= n,
        alias_lookup(table, key, m) is Some,
    ensures
        alias_lookup(table, key, n) == alias_lookup(table, key, m),
    decreases n - m,
{
    if n > m {
        lemma_alias_lookup_found_stays(table, key, m, n - 1);
    }
}

/// The pattern of a reference: an optional leading number, the book name, an
/// optional dot, then optionally a chapter, `:` or `.` and a verse, and a dash
/// with a last verse. The groups are, in order: book, chapter, first verse, last verse.
pub const REFERENCE_PATTERN: &'static str = "(?i)^\\s*(?P<book>(?:\\d\\s*)?[a-zA-Z\\s]+?)\\.?(?:\\s+|\\.)?(?:(?P<chapter>\\d+)(?:[:.](?P<start_v>\\d+)(?:[\\-\u{2013}\u{2014}](?P<end_v>\\d+))?)?)?\\s*$";

/// What the `regex` crate reports for `pattern` on `haystack`: `None` when the
/// pattern does not compile or does not match, else each group's matched text
/// (`None` for a group that did not take part), group 0 being the whole match.
pub uninterp spec fn regex_captures_of(pattern: Seq<char>, haystack: Seq<char>) -> Option<
    Seq<Option<Seq<char>>>,
>;

/// Captured groups as plain values.
pub open spec fn captures_view(c: Option<Vec<Option<String>>>) -> Option<Seq<Option<Seq<char>>>> {
    match c {
        Some(v) => Some(
            v@.map_values(
                |g: Option<String>|
                    match g {
                        Some(t) => Some(t@),
                        None => None,
                    },
            ),
        ),
        None => None,
    }
}

/// Compiles `pattern` with `regex::Regex::new` and runs `Regex::captures` on
/// `haystack`, returning the text of every group (`Captures::iter`). What it
/// returns is named by `regex_captures_of`; a pattern that fails to compile gives `None`.
#[verifier::external_body]
fn regex_captures(pattern: &str, haystack: &str) -> (r: Option<Vec<Option<String>>>)
    ensures
        captures_view(r) == regex_captures_of(pattern@, haystack@),
{
    let re = match regex::Regex::new(pattern) {
        Ok(re) => re,
        Err(_) => return None,
    };
    re.captures(haystack).map(
        |caps| caps.iter().map(|m| m.map(|m| m.as_str().to_string())).collect(),
    )
}

/// Group `i` of the captures, if there is such a group and it matched.
pub open spec fn group(caps: Seq<Option<Seq<char>>>, i: int) -> Option<Seq<char>> {
    if 0 <= i < caps.len() {
        caps[i]
    } else {
        None
    }
}

/// The characters of `s` that are letters or digits, in order.
pub open spec fn keep_alphanumeric(s: Seq<char>) -> Seq<char>
    decreases s.len(),
{
    if s.len() == 0 {
        s
    } else if is_alphanumeric(s.last()) {
        keep_alphanumeric(s.drop_last()).push(s.last())
    } else {
        keep_alphanumeric(s.drop_last())
    }
}

/// The key under which a book name is looked up: lowercased, letters and digits only.
pub open spec fn normalized_book_key(raw: Seq<char>) -> Seq<char> {
    keep_alphanumeric(lowercase_of(raw))
}

/// A captured number, parsed as `str::parse::<usize>` does; `None` if absent or invalid.
pub open spec fn parsed_group(g: Option<Seq<char>>) -> Option<usize> {
    match g {
        Some(t) => parse_usize_spec(t),
        None => None,
    }
}

/// The reference that captured groups describe: none when nothing matched or
/// the book is not a known one; the numbers that do not parse are left out.
/// The pattern nests the groups (a first verse only after a chapter, a last
/// verse only after a first verse), and a verse group counts only inside the
/// group it nests in.
pub open spec fn reference_from_groups(caps: Option<Seq<Option<Seq<char>>>>) -> Option<ReferenceView> {
    match caps {
        None => None,
        Some(g) => match group(g, 1) {
            None => None,
            Some(book) => match osis_for_alias(normalized_book_key(book)) {
                None => None,
                Some(osis) => Some(
                    ReferenceView {
                        osis_book: osis,
                        chapter: parsed_group(group(g, 2)),
                        start_verse: if group(g, 2) is Some {
                            parsed_group(group(g, 3))
                        } else {
                            None
                        },
                        end_verse: if group(g, 2) is Some && group(g, 3) is Some {
                            parsed_group(group(g, 4))
                        } else {
                            None
                        },
                    },
                ),
            },
        },
    }
}

/// Whether every number group that took part in the match parses.
pub open spec fn numbers_parse(caps: Option<Seq<Option<Seq<char>>>>) -> bool {
    caps matches Some(g) ==> forall|i: int|
        2 <= i <= 4 && #[trigger] group(g, i) is Some ==> parsed_group(group(g, i)) is Some
}

/// A reference names a first verse only with a chapter, and a last verse
/// only with a first verse, when its numbers parse.
pub proof fn law_reference_verses_nest(caps: Option<Seq<Option<Seq<char>>>>)
    requires
        numbers_parse(caps),
    ensures
        reference_from_groups(caps) matches Some(r) ==> (r.end_verse is Some ==> r.start_verse is Some)
            && (r.start_verse is Some ==> r.chapter is Some),
{
    if let Some(g) = caps {
        assert(group(g, 2) is Some ==> parsed_group(group(g, 2)) is Some);
        assert(group(g, 3) is Some ==> parsed_group(group(g, 3)) is Some);
    }
}

/// A reference only ever names a known book: its OSIS name is the one paired
/// with an alias spelled exactly as the normalized book group.
pub proof fn law_reference_names_known_book(caps: Option<Seq<Option<Seq<char>>>>)
    ensures
        reference_from_groups(caps) matches Some(r) ==> caps matches Some(g) && group(g, 1) matches Some(
            book,
        ) && exists|i: int|
            #![trigger BOOK_ALIASES@[i]]
            0 <= i < 212 && BOOK_ALIASES@[i].0@ == normalized_book_key(book)
                && BOOK_ALIASES@[i].1@ == r.osis_book,
{
    if let Some(g) = caps {
        if let Some(book) = group(g, 1) {
            law_alias_lookup_exact(normalized_book_key(book));
        }
    }
}

/// Lowercases a book name and keeps only its letters and digits.
pub fn normalize_book_key(raw: &str) -> (r: String)
    ensures
        r@ == normalized_book_key(raw@),
{
    let lower = str_to_lowercase(raw);
    let l = lower.as_str();
    let n = l.unicode_len();
    let mut out = String::new();
    let mut i: usize = 0;
    assert(l@.take(0) =~= Seq::<char>::empty());
    while i < n
        invariant
            i <= n,
            n == l@.len(),
            l@ == lowercase_of(raw@),
            out@ == keep_alphanumeric(l@.take(i as int)),
        decreases n - i,
    {
        let c = l.get_char(i);
        assert(l@.take(i + 1).drop_last() =~= l@.take(i as int));
        if char_is_alphanumeric(c) {
            push_char(&mut out, c);
        }
        i = i + 1;
    }
    assert(l@.take(n as int) =~= l@);
    out
}

fn parse_group(groups: &Vec<Option<String>>, i: usize) -> (r: Option<usize>)
    ensures
        r == parsed_group(group(captures_view(Some(*groups))->0, i as int)),
{
    if i < groups.len() {
        match &groups[i] {
            Some(t) => parse_usize(t.as_str()),
            None => None,
        }
    } else {
        None
    }
}

/// Builds the reference that the groups captured by `REFERENCE_PATTERN`
/// describe: the book group is normalized and looked up among the known
/// aliases, the chapter and verse groups are parsed as numbers.
pub fn reference_from_captures(groups: Option<Vec<Option<String>>>) -> (r: Option<Reference>)
    ensures
        opt_reference_view(r) == reference_from_groups(captures_view(groups)),
{
    let groups = match groups {
        Some(g) => g,
        None => return None,
    };
    let ghost g = captures_view(Some(groups))->0;
    if groups.len() < 2 {
        return None;
    }
    let book = match &groups[1] {
        Some(b) => b,
        None => return None,
    };
    assert(group(g, 1) == Some(book@));
    let key = normalize_book_key(book.as_str());
    let osis = match lookup_book_alias(key.as_str()) {
        Some(o) => o,
        None => return None,
    };
    let has_chapter = groups.len() > 2 && groups[2].is_some();
    let has_start = groups.len() > 3 && groups[3].is_some();
    let chapter = parse_group(&groups, 2);
    let start_verse = if has_chapter {
        parse_group(&groups, 3)
    } else {
        None
    };
    let end_verse = if has_chapter && has_start {
        parse_group(&groups, 4)
    } else {
        None
    };
    Some(Reference { osis_book: osis.to_owned(), chapter, start_verse, end_verse })
}

/// Parses a reference such as `John 3:16`, `1 Cor 13`, `Gen 1:1-5` or
/// `Apocalypse`: the groups that `REFERENCE_PATTERN` captures in `input`,
/// turned into a reference by `reference_from_captures`.
pub fn parse_reference(input: &str) -> (r: Option<Reference>)
    ensures
        opt_reference_view(r) == reference_from_groups(
            regex_captures_of(REFERENCE_PATTERN@, input@),
        ),
        numbers_parse(regex_captures_of(REFERENCE_PATTERN@, input@)) ==> (r matches Some(x) ==> (
        x.end_verse is Some ==> x.start_verse is Some) && (x.start_verse is Some
            ==> x.chapter is Some)),
{
    let r = reference_from_captures(regex_captures(REFERENCE_PATTERN, input));
    proof {
        if numbers_parse(regex_captures_of(REFERENCE_PATTERN@, input@)) {
            law_reference_verses_nest(regex_captures_of(REFERENCE_PATTERN@, input@));
        }
    }
    r
}

} // verus!
