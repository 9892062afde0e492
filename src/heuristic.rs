use vstd::prelude::*;

verus! {

/// What the release-name heuristic finds in a bare file name: title, year,
/// season and episode, or nothing where it finds no title.
pub uninterp spec fn release_name_of(name: Seq<char>) -> Option<
    (Seq<char>, Option<i32>, Option<i32>, Option<i32>),
>;

/// Whether a character is in one of Unicode's number categories.
pub uninterp spec fn numeric_char(c: char) -> bool;

/// The fields that the heuristic reads from a bare file name.
#[derive(Debug)]
pub struct ParsedName {
    pub title: String,
    pub year: Option<i32>,
    pub season: Option<i32>,
    pub episode: Option<i32>,
}

pub open spec fn ascii_digit(c: char) -> bool {
    '0' <= c && c <= '9'
}

/// Ten ASCII digits in a row start at `i`.
pub open spec fn long_digit_run(s: Seq<char>, i: int) -> bool {
    0 <= i && i + 10 <= s.len() && forall|j: int| i <= j < i + 10 ==> ascii_digit(#[trigger] s[j])
}

/// The names that the heuristic reads without failing inside: every number
/// in them fits in an `i32`, and no digit is outside ASCII.
pub open spec fn heuristic_safe(s: Seq<char>) -> bool {
    &&& forall|i: int| 0 <= i < s.len() ==> (#[trigger] s[i] as u32) < 128 || !numeric_char(s[i])
    &&& forall|i: int| !#[trigger] long_digit_run(s, i)
}

/// Relies on char::is_numeric: whether the character is in the Unicode
/// categories Nd, Nl or No.
#[verifier::external_body]
fn is_numeric_char(c: char) -> (r: bool)
    ensures
        r == numeric_char(c),
{
    c.is_numeric()
}

/// Relies on torrent_name_parser::Metadata::from and its title, year, season
/// and episode getters: the fields found depend on the name alone. The
/// parser unwraps its integer parses, so it is only given names whose digit
/// runs fit in an `i32`.
#[verifier::external_body]
fn parse_release_name(name: &str) -> (r: Option<ParsedName>)
    requires
        heuristic_safe(name@),
    ensures
        r is None <==> release_name_of(name@) is None,
        r is Some ==> ({
            let t = release_name_of(name@)->0;
            &&& r->0.title@ == t.0
            &&& r->0.year == t.1
            &&& r->0.season == t.2
            &&& r->0.episode == t.3
        }),
{
    match torrent_name_parser::Metadata::from(name) {
        Ok(m) => Some(
            ParsedName {
                title: m.title().to_owned(),
                year: m.year(),
                season: m.season(),
                episode: m.episode(),
            },
        ),
        Err(_) => None,
    }
}

/// Whether `name` is one the heuristic can be given.
pub fn is_heuristic_safe(name: &str) -> (r: bool)
    ensures
        r == heuristic_safe(name@),
{
    let v = crate::paths::chars_of(name);
    let mut i: usize = 0;
    let mut run: usize = 0;
    while i < v.len()
        invariant
            i <= v.len(),
            v@ == name@,
            run <= i,
            run < 10,
            forall|j: int| i - run <= j < i ==> ascii_digit(#[trigger] v@[j]),
            i - run > 0 ==> !ascii_digit(v@[i - run - 1]),
            forall|k: int| 0 <= k < i ==> (#[trigger] v@[k] as u32) < 128 || !numeric_char(v@[k]),
            forall|k: int| k + 10 <= i ==> !#[trigger] long_digit_run(v@, k),
        decreases v.len() - i,
    {
        let c = v[i];
        if (c as u32) >= 128 && is_numeric_char(c) {
            return false;
        }
        if '0' <= c && c <= '9' {
            if run == 9 {
                assert(long_digit_run(v@, i - 9));
                return false;
            }
            proof {
                assert forall|k: int| k + 10 <= i + 1 implies !#[trigger] long_digit_run(v@, k) by {
                    if k + 10 == i + 1 && long_digit_run(v@, k) {
                        assert(ascii_digit(v@[i - run - 1]));
                    }
                }
            }
            run = run + 1;
        } else {
            proof {
                assert forall|k: int| k + 10 <= i + 1 implies !#[trigger] long_digit_run(v@, k) by {
                    if k + 10 == i + 1 && long_digit_run(v@, k) {
                        assert(ascii_digit(v@[i as int]));
                    }
                }
            }
            run = 0;
        }
        i = i + 1;
    }
    proof {
        assert forall|k: int| !#[trigger] long_digit_run(v@, k) by {
            if long_digit_run(v@, k) {
                assert(k + 10 <= i);
            }
        }
    }
    true
}

/// The fields the heuristic finds in a bare file name; none where it finds
/// no title, or where the name holds a number too long for an `i32` or a
/// digit outside ASCII.
pub fn parse_file_name(name: &str) -> (r: Option<ParsedName>)
    ensures
        r is Some <==> heuristic_safe(name@) && release_name_of(name@) is Some,
        r is Some ==> ({
            let t = release_name_of(name@)->0;
            &&& r->0.title@ == t.0
            &&& r->0.year == t.1
            &&& r->0.season == t.2
            &&& r->0.episode == t.3
        }),
{
    if is_heuristic_safe(name) {
        parse_release_name(name)
    } else {
        None
    }
}

} // verus!
