//! Reading the table of stored profiles that the tool prints.
//!
//! The table is a header line followed by one row per profile, with the
//! columns NAME, HOST, USER and PORT separated by white space. Rows with
//! fewer than four columns are skipped; a port that is not a 32-bit
//! integer reads as the SSH default.
use vstd::prelude::*;

use crate::text::{i32_of_text, is_white, is_white_char, parse_i32};

verus! {

/// The port assumed when a row's port column is not a number.
pub const DEFAULT_PORT: i32 = 22;

/// A stored profile, as listed by the tool.
pub struct Profile {
    pub name: String,
    pub host: String,
    pub port: i32,
    pub user: String,
}

/// What a profile holds, as texts.
pub struct ProfileView {
    pub name: Seq<char>,
    pub host: Seq<char>,
    pub user: Seq<char>,
    pub port: i32,
}

impl View for Profile {
    type V = ProfileView;

    open spec fn view(&self) -> ProfileView {
        ProfileView { name: self.name@, host: self.host@, user: self.user@, port: self.port }
    }
}

/// The views of a sequence of profiles.
pub open spec fn profile_views(s: Seq<Profile>) -> Seq<ProfileView> {
    s.map_values(|p: Profile| p@)
}

/// Splitting at line feeds, left to right: the lines already ended, and the
/// line in progress.
pub open spec fn line_scan(s: Seq<char>) -> (Seq<Seq<char>>, Seq<char>)
    decreases s.len(),
{
    if s.len() == 0 {
        (seq![], seq![])
    } else {
        let (done, cur) = line_scan(s.drop_last());
        if s.last() == '\n' {
            (done.push(cur), seq![])
        } else {
            (done, cur.push(s.last()))
        }
    }
}

/// The lines of a text: split at each line feed, where a final line feed
/// ends the last line rather than starting an empty one. (A carriage
/// return before a line feed stays in its line; it is white space, so no
/// column ever holds it.)
pub open spec fn lines_of(s: Seq<char>) -> Seq<Seq<char>> {
    let (done, cur) = line_scan(s);
    if cur.len() > 0 {
        done.push(cur)
    } else {
        done
    }
}

/// Splitting at white space, left to right: the words already ended, and
/// the word in progress.
pub open spec fn word_scan(s: Seq<char>) -> (Seq<Seq<char>>, Seq<char>)
    decreases s.len(),
{
    if s.len() == 0 {
        (seq![], seq![])
    } else {
        let (done, cur) = word_scan(s.drop_last());
        if is_white(s.last()) {
            if cur.len() > 0 {
                (done.push(cur), seq![])
            } else {
                (done, cur)
            }
        } else {
            (done, cur.push(s.last()))
        }
    }
}

/// The words of a text: its maximal runs of characters that are not white
/// space, in order.
pub open spec fn words_of(s: Seq<char>) -> Seq<Seq<char>> {
    let (done, cur) = word_scan(s);
    if cur.len() > 0 {
        done.push(cur)
    } else {
        done
    }
}

/// The port that a port column gives.
pub open spec fn port_of_text(t: Seq<char>) -> i32 {
    match i32_of_text(t) {
        Some(v) => v,
        None => DEFAULT_PORT,
    }
}

/// The profile of a row with at least four columns.
pub open spec fn profile_of_words(w: Seq<Seq<char>>) -> ProfileView
    recommends
        w.len() >= 4,
{
    ProfileView { name: w[0], host: w[1], user: w[2], port: port_of_text(w[3]) }
}

/// The profiles of the table's rows: one for each row of four or more
/// columns, in order.
pub open spec fn row_profiles(rows: Seq<Seq<char>>) -> Seq<ProfileView>
    decreases rows.len(),
{
    if rows.len() == 0 {
        seq![]
    } else {
        let before = row_profiles(rows.drop_last());
        let w = words_of(rows.last());
        if w.len() >= 4 {
            before.push(profile_of_words(w))
        } else {
            before
        }
    }
}

/// The profiles of the tool's listing: its lines after the header.
pub open spec fn listed_profiles(s: Seq<char>) -> Seq<ProfileView> {
    let ls = lines_of(s);
    if ls.len() == 0 {
        seq![]
    } else {
        row_profiles(ls.drop_first())
    }
}

/// Every range is ordered and ends within a text of length `n`.
pub open spec fn ranges_within(r: Seq<(usize, usize)>, n: int) -> bool {
    forall|k: int| 0 <= k < r.len() ==> #[trigger] r[k].0 <= r[k].1 <= n
}

/// The pieces of `c` that a sequence of index ranges picks out.
pub open spec fn range_texts(c: Seq<char>, r: Seq<(usize, usize)>) -> Seq<Seq<char>> {
    r.map_values(|p: (usize, usize)| c.subrange(p.0 as int, p.1 as int))
}

fn chars_of(s: &str) -> (r: Vec<char>)
    ensures
        r@ == s@,
{
    let mut v: Vec<char> = Vec::new();
    for c in it: s.chars()
        invariant
            v@ == it.seq().take(it.index() as int),
    {
        v.push(c);
        assert(v@ =~= it.seq().take(it.index() as int + 1));
    }
    assert(v@ =~= s@);
    v
}

fn line_ranges(c: &Vec<char>) -> (r: Vec<(usize, usize)>)
    ensures
        ranges_within(r@, c@.len() as int),
        range_texts(c@, r@) == lines_of(c@),
{
    let mut r: Vec<(usize, usize)> = Vec::new();
    let mut start: usize = 0;
    let mut i: usize = 0;
    while i < c.len()
        invariant
            start <= i <= c@.len(),
            ranges_within(r@, c@.len() as int),
            range_texts(c@, r@) == line_scan(c@.take(i as int)).0,
            c@.subrange(start as int, i as int) == line_scan(c@.take(i as int)).1,
        decreases c@.len() - i,
    {
        assert(c@.take(i + 1).drop_last() =~= c@.take(i as int));
        if c[i] == '\n' {
            r.push((start, i));
            assert(range_texts(c@, r@) =~= line_scan(c@.take(i + 1)).0);
            start = i + 1;
            assert(c@.subrange(start as int, i + 1) =~= line_scan(c@.take(i + 1)).1);
        } else {
            assert(c@.subrange(start as int, i + 1) =~= line_scan(c@.take(i + 1)).1);
        }
        i = i + 1;
    }
    assert(c@.take(i as int) =~= c@);
    if start < c.len() {
        r.push((start, c.len()));
        assert(range_texts(c@, r@) =~= lines_of(c@));
    }
    r
}

fn word_ranges(c: &Vec<char>, a: usize, b: usize) -> (r: Vec<(usize, usize)>)
    requires
        a <= b <= c@.len(),
    ensures
        ranges_within(r@, c@.len() as int),
        range_texts(c@, r@) == words_of(c@.subrange(a as int, b as int)),
{
    let mut r: Vec<(usize, usize)> = Vec::new();
    let mut start: usize = a;
    let mut j: usize = a;
    while j < b
        invariant
            a <= start <= j <= b <= c@.len(),
            ranges_within(r@, c@.len() as int),
            range_texts(c@, r@) == word_scan(c@.subrange(a as int, j as int)).0,
            c@.subrange(start as int, j as int) == word_scan(c@.subrange(a as int, j as int)).1,
        decreases b - j,
    {
        assert(c@.subrange(a as int, j + 1).drop_last() =~= c@.subrange(a as int, j as int));
        if is_white_char(c[j]) {
            if start < j {
                r.push((start, j));
                assert(range_texts(c@, r@) =~= word_scan(c@.subrange(a as int, j + 1)).0);
            }
            start = j + 1;
            assert(c@.subrange(start as int, j + 1) =~= word_scan(
                c@.subrange(a as int, j + 1),
            ).1);
        } else {
            assert(c@.subrange(start as int, j + 1) =~= word_scan(
                c@.subrange(a as int, j + 1),
            ).1);
        }
        j = j + 1;
    }
    if start < b {
        r.push((start, b));
        assert(range_texts(c@, r@) =~= words_of(c@.subrange(a as int, b as int)));
    }
    r
}

/// Reads the tool's profile listing: the first line is a header, each
/// later line with at least four columns gives one profile, and the rest
/// are skipped.
pub fn parse_profile_list(stdout: &str) -> (r: Vec<Profile>)
    ensures
        profile_views(r@) == listed_profiles(stdout@),
{
    let c = chars_of(stdout);
    let lines = line_ranges(&c);
    let ghost ls = lines_of(c@);
    let mut out: Vec<Profile> = Vec::new();
    if lines.len() == 0 {
        assert(profile_views(out@) =~= listed_profiles(stdout@));
        return out;
    }
    assert(ls.len() == lines@.len());
    let mut k: usize = 1;
    assert(ls.subrange(1, 1) =~= seq![]);
    while k < lines.len()
        invariant
            1 <= k <= lines@.len(),
            c@ == stdout@,
            ls == lines_of(c@),
            ls.len() == lines@.len(),
            ranges_within(lines@, c@.len() as int),
            range_texts(c@, lines@) == ls,
            profile_views(out@) == row_profiles(ls.subrange(1, k as int)),
        decreases lines@.len() - k,
    {
        let (a, b) = lines[k];
        assert(lines@[k as int].0 <= lines@[k as int].1 <= c@.len());
        let words = word_ranges(&c, a, b);
        let ghost row = c@.subrange(a as int, b as int);
        assert(row == ls[k as int]);
        assert(ls.subrange(1, k + 1).drop_last() =~= ls.subrange(1, k as int));
        assert(ls.subrange(1, k + 1).last() == row);
        if words.len() >= 4 {
            let ghost w = words_of(row);
            let (name_from, name_to) = words[0];
            let (host_from, host_to) = words[1];
            let (user_from, user_to) = words[2];
            let (port_from, port_to) = words[3];
            assert(words@[0].0 <= words@[0].1 <= c@.len());
            assert(words@[1].0 <= words@[1].1 <= c@.len());
            assert(words@[2].0 <= words@[2].1 <= c@.len());
            assert(words@[3].0 <= words@[3].1 <= c@.len());
            let name = String::from_str(stdout.substring_char(name_from, name_to));
            let host = String::from_str(stdout.substring_char(host_from, host_to));
            let user = String::from_str(stdout.substring_char(user_from, user_to));
            let port = match parse_i32(&c, port_from, port_to) {
                Some(v) => v,
                None => DEFAULT_PORT,
            };
            assert(name@ == w[0]);
            assert(host@ == w[1]);
            assert(user@ == w[2]);
            assert(c@.subrange(port_from as int, port_to as int) == w[3]);
            let p = Profile { name, host, port, user };
            out.push(p);
            assert(profile_views(out@) =~= row_profiles(ls.subrange(1, k + 1)));
        } else {
            assert(profile_views(out@) =~= row_profiles(ls.subrange(1, k + 1)));
        }
        k = k + 1;
    }
    assert(ls.subrange(1, k as int) =~= ls.drop_first());
    out
}

/// Each row adds at most one profile: a row of fewer than four columns adds
/// none, and a longer one adds the profile of its first four columns, with
/// the default port when the fourth is not a 32-bit integer.
pub proof fn lemma_row_adds_profile(rows: Seq<Seq<char>>, row: Seq<char>)
    ensures
        words_of(row).len() < 4 ==> row_profiles(rows.push(row)) == row_profiles(rows),
        words_of(row).len() >= 4 ==> row_profiles(rows.push(row)) == row_profiles(rows).push(
            profile_of_words(words_of(row)),
        ),
        words_of(row).len() >= 4 && i32_of_text(words_of(row)[3]) is None ==> row_profiles(
            rows.push(row),
        ).last().port == DEFAULT_PORT,
{
    assert(rows.push(row).drop_last() =~= rows);
}

} // verus!
