//! Line search in a text: which lines of a text contain a query, with or
//! without regard to case.

use vstd::prelude::*;
use vstd::string::*;

verus! {

/// What to search for, where, and how.
pub struct Config {
    pub query: String,
    pub file_name: String,
    pub case_insensitive: bool,
}

impl Config {
    /// Reads a configuration from the arguments of a program: its own name,
    /// the query, the file name. Fewer than three arguments are refused.
    /// Whether case is ignored is the caller's to say.
    pub fn new(args: &Vec<String>, case_insensitive: bool) -> (r: Result<Config, &'static str>)
        ensures
            args@.len() < 3 ==> (r matches Err(e) && e@
                == "not enough arguments, should be at least 3"@),
            args@.len() >= 3 ==> (r matches Ok(c) && c.query@ == args@[1]@ && c.file_name@
                == args@[2]@ && c.case_insensitive == case_insensitive),
    {
        if args.len() < 3 {
            return Err("not enough arguments, should be at least 3");
        }
        let query = args[1].clone();
        let file_name = args[2].clone();
        Ok(Config { query, file_name, case_insensitive })
    }

    /// The lines of `contents` that this configuration selects.
    pub open spec fn hits(&self, contents: Seq<char>) -> Seq<Seq<char>> {
        if self.case_insensitive {
            matching_folded(lines_of(contents), self.query@)
        } else {
            matching(lines_of(contents), self.query@)
        }
    }
}

/// `needle` stands in `hay` at position `i`.
pub open spec fn occurs_at(hay: Seq<char>, needle: Seq<char>, i: int) -> bool {
    &&& 0 <= i
    &&& i + needle.len() <= hay.len()
    &&& hay.subrange(i, i + needle.len()) == needle
}

/// `needle` stands somewhere in `hay`.
pub open spec fn occurs_in(hay: Seq<char>, needle: Seq<char>) -> bool {
    exists|i: int| occurs_at(hay, needle, i)
}

/// A line without the carriage return that may end it.
pub open spec fn strip_cr(line: Seq<char>) -> Seq<char> {
    if line.len() > 0 && line.last() == '\r' {
        line.drop_last()
    } else {
        line
    }
}

/// The lines of `s` from position `pos` on, where the line that `pos` is in
/// starts at `start`. A line ends at a line feed; a carriage return just
/// before the line feed belongs to the line ending. What follows the last
/// line feed is a line of its own unless it is empty.
pub open spec fn split(s: Seq<char>, start: int, pos: int) -> Seq<Seq<char>>
    decreases s.len() - pos,
{
    if pos < 0 || start < 0 || start > pos {
        Seq::empty()
    } else if pos >= s.len() {
        if start < s.len() {
            seq![s.subrange(start, s.len() as int)]
        } else {
            Seq::empty()
        }
    } else if s[pos] == '\n' {
        seq![strip_cr(s.subrange(start, pos))] + split(s, pos + 1, pos + 1)
    } else {
        split(s, start, pos + 1)
    }
}

/// The lines of `s`.
pub open spec fn lines_of(s: Seq<char>) -> Seq<Seq<char>> {
    split(s, 0, 0)
}

/// The texts of a list of string slices.
pub open spec fn texts(v: Seq<&str>) -> Seq<Seq<char>> {
    Seq::new(v.len(), |i: int| v[i]@)
}

/// The texts of a list of strings.
pub open spec fn owned_texts(v: Seq<String>) -> Seq<Seq<char>> {
    Seq::new(v.len(), |i: int| v[i]@)
}

/// Those of `lines` in which `query` occurs, in their order.
pub open spec fn matching(lines: Seq<Seq<char>>, query: Seq<char>) -> Seq<Seq<char>> {
    lines.filter(|l: Seq<char>| occurs_in(l, query))
}

/// The lower-case form of a text, as the standard library computes it.
pub uninterp spec fn lowercase_of(s: Seq<char>) -> Seq<char>;

/// Those of `lines` whose lower-case form holds the lower-case form of
/// `query`, in their order.
pub open spec fn matching_folded(lines: Seq<Seq<char>>, query: Seq<char>) -> Seq<Seq<char>> {
    lines.filter(|l: Seq<char>| occurs_in(lowercase_of(l), lowercase_of(query)))
}

/// Calls `str::to_lowercase`. The contract only gives the result its name:
/// the lower-case form is a function of the text alone, and nothing else is
/// claimed of it.
#[verifier::external_body]
fn to_lowercase(s: &str) -> (r: String)
    ensures
        r@ == lowercase_of(s@),
{
    s.to_lowercase()
}

/// Whether `needle` occurs in `hay`.
pub fn contains(hay: &str, needle: &str) -> (found: bool)
    ensures
        found == occurs_in(hay@, needle@),
{
    let hn = hay.unicode_len();
    let nn = needle.unicode_len();
    if nn > hn {
        assert forall|i: int| !occurs_at(hay@, needle@, i) by {}
        return false;
    }
    if nn == 0 {
        assert(hay@.subrange(0, 0) =~= needle@);
        assert(occurs_at(hay@, needle@, 0));
        return true;
    }
    let mut i: usize = 0;
    while i <= hn - nn
        invariant
            hn == hay@.len(),
            nn == needle@.len(),
            0 < nn <= hn,
            i <= hn - nn + 1,
            forall|k: int| 0 <= k < i ==> !occurs_at(hay@, needle@, k),
        decreases hn - nn + 1 - i,
    {
        let mut j: usize = 0;
        let mut same = true;
        while j < nn && same
            invariant
                hn == hay@.len(),
                nn == needle@.len(),
                i + nn <= hn,
                j <= nn,
                same ==> forall|m: int| 0 <= m < j ==> hay@[i + m] == needle@[m],
                !same ==> !occurs_at(hay@, needle@, i as int),
            decreases nn - j + if same { 1int } else { 0int },
        {
            if hay.get_char(i + j) == needle.get_char(j) {
                j += 1;
            } else {
                same = false;
                assert(hay@.subrange(i as int, i + nn)[j as int] == hay@[i + j]);
            }
        }
        if same {
            assert(hay@.subrange(i as int, i + nn) =~= needle@);
            assert(occurs_at(hay@, needle@, i as int));
            return true;
        }
        i += 1;
    }
    assert forall|k: int| !occurs_at(hay@, needle@, k) by {}
    false
}

/// Splits `contents` into its lines.
pub fn lines<'a>(contents: &'a str) -> (out: Vec<&'a str>)
    ensures
        texts(out@) == lines_of(contents@),
{
    let n = contents.unicode_len();
    let mut out: Vec<&'a str> = Vec::new();
    let mut start: usize = 0;
    let mut pos: usize = 0;
    assert(texts(out@) + split(contents@, 0, 0) =~= lines_of(contents@));
    while pos < n
        invariant
            n == contents@.len(),
            start <= pos <= n,
            texts(out@) + split(contents@, start as int, pos as int) == lines_of(contents@),
        decreases n - pos,
    {
        let ghost before = out@;
        if contents.get_char(pos) == '\n' {
            let line = if pos > start && contents.get_char(pos - 1) == '\r' {
                contents.substring_char(start, pos - 1)
            } else {
                contents.substring_char(start, pos)
            };
            proof {
                let whole = contents@.subrange(start as int, pos as int);
                if pos > start && contents@[pos - 1] == '\r' {
                    assert(whole.drop_last() =~= contents@.subrange(start as int, pos - 1));
                }
                assert(line@ == strip_cr(whole));
            }
            out.push(line);
            proof {
                assert(texts(out@) =~= texts(before).push(line@));
                assert(texts(out@) + split(contents@, pos + 1, pos + 1) =~= texts(before) + split(
                    contents@,
                    start as int,
                    pos as int,
                ));
            }
            start = pos + 1;
        }
        pos += 1;
    }
    if start < n {
        let ghost before = out@;
        let line = contents.substring_char(start, n);
        out.push(line);
        proof {
            assert(texts(out@) =~= texts(before).push(line@));
            assert(texts(out@) =~= texts(before) + split(contents@, start as int, pos as int));
        }
    } else {
        assert(texts(out@) =~= texts(out@) + split(contents@, start as int, pos as int));
    }
    out
}

/// The lines of `contents` in which `query` occurs, in their order.
pub fn search<'a>(query: &str, contents: &'a str) -> (found: Vec<&'a str>)
    ensures
        texts(found@) == matching(lines_of(contents@), query@),
{
    let all = lines(contents);
    let mut found: Vec<&'a str> = Vec::new();
    let ghost pred = |l: Seq<char>| occurs_in(l, query@);
    let mut i: usize = 0;
    proof {
        reveal(Seq::filter);
        assert(texts(all@).take(0) =~= Seq::empty());
        assert(texts(found@) =~= texts(all@).take(0).filter(pred));
    }
    while i < all.len()
        invariant
            i <= all@.len(),
            texts(all@) == lines_of(contents@),
            pred == (|l: Seq<char>| occurs_in(l, query@)),
            texts(found@) == texts(all@).take(i as int).filter(pred),
        decreases all@.len() - i,
    {
        let line = all[i];
        let ghost before = found@;
        let keep = contains(line, query);
        if keep {
            found.push(line);
        }
        proof {
            reveal(Seq::filter);
            let next = texts(all@).take(i + 1);
            assert(next.drop_last() =~= texts(all@).take(i as int));
            assert(next.last() == line@);
            if keep {
                assert(texts(found@) =~= texts(before).push(line@));
            }
        }
        i += 1;
    }
    proof {
        assert(texts(all@).take(all@.len() as int) =~= texts(all@));
    }
    found
}

/// Those of `lines` whose key holds `needle`, in their order. The key of a
/// line is what stands at its place in `keys`.
pub open spec fn selected(lines: Seq<Seq<char>>, keys: Seq<Seq<char>>, needle: Seq<char>) -> Seq<
    Seq<char>,
>
    decreases lines.len(),
{
    if lines.len() == 0 || keys.len() != lines.len() {
        Seq::empty()
    } else {
        let before = selected(lines.drop_last(), keys.drop_last(), needle);
        if occurs_in(keys.last(), needle) {
            before.push(lines.last())
        } else {
            before
        }
    }
}

/// Selecting by the lower-case forms of the lines and of the query is
/// matching without regard to case.
pub proof fn lemma_selected_by_lowercase(
    lines: Seq<Seq<char>>,
    keys: Seq<Seq<char>>,
    query: Seq<char>,
)
    requires
        keys.len() == lines.len(),
        forall|i: int| 0 <= i < lines.len() ==> #[trigger] keys[i] == lowercase_of(lines[i]),
    ensures
        selected(lines, keys, lowercase_of(query)) == matching_folded(lines, query),
    decreases lines.len(),
{
    reveal(Seq::filter);
    if lines.len() > 0 {
        lemma_selected_by_lowercase(lines.drop_last(), keys.drop_last(), query);
        assert(keys.last() == keys[keys.len() - 1]);
    }
}

/// Those of `lines` whose key holds `needle`, in their order. The key of a
/// line is what stands at its place in `keys`. Where there are not as many
/// keys as lines, nothing is selected.
pub fn select<'a>(lines: &Vec<&'a str>, keys: &Vec<String>, needle: &str) -> (found: Vec<&'a str>)
    ensures
        texts(found@) == selected(texts(lines@), owned_texts(keys@), needle@),
{
    let mut found: Vec<&'a str> = Vec::new();
    if keys.len() != lines.len() {
        assert(texts(found@) =~= Seq::empty());
        return found;
    }
    let mut i: usize = 0;
    proof {
        assert(texts(lines@).take(0) =~= Seq::empty());
        assert(texts(found@) =~= Seq::empty());
    }
    while i < lines.len()
        invariant
            i <= lines@.len(),
            keys@.len() == lines@.len(),
            texts(found@) == selected(
                texts(lines@).take(i as int),
                owned_texts(keys@).take(i as int),
                needle@,
            ),
        decreases lines@.len() - i,
    {
        let line = lines[i];
        let ghost before = found@;
        let keep = contains(keys[i].as_str(), needle);
        if keep {
            found.push(line);
        }
        proof {
            let next = texts(lines@).take(i + 1);
            let next_keys = owned_texts(keys@).take(i + 1);
            assert(next.drop_last() =~= texts(lines@).take(i as int));
            assert(next_keys.drop_last() =~= owned_texts(keys@).take(i as int));
            assert(next.last() == line@);
            assert(next_keys.last() == keys@[i as int]@);
            if keep {
                assert(texts(found@) =~= texts(before).push(line@));
            }
        }
        i += 1;
    }
    proof {
        assert(texts(lines@).take(lines@.len() as int) =~= texts(lines@));
        assert(owned_texts(keys@).take(keys@.len() as int) =~= owned_texts(keys@));
    }
    found
}

/// The lines of `contents` whose lower-case form holds the lower-case form of
/// `query`, in their order and as they stand in `contents`.
pub fn search_insensitive<'a>(query: &str, contents: &'a str) -> (found: Vec<&'a str>)
    ensures
        texts(found@) == matching_folded(lines_of(contents@), query@),
{
    let all = lines(contents);
    let folded_query = to_lowercase(query);
    let mut keys: Vec<String> = Vec::new();
    let mut i: usize = 0;
    while i < all.len()
        invariant
            i <= all@.len(),
            keys@.len() == i,
            forall|k: int| 0 <= k < i ==> (#[trigger] keys@[k])@ == lowercase_of(all@[k]@),
        decreases all@.len() - i,
    {
        keys.push(to_lowercase(all[i]));
        i += 1;
    }
    proof {
        lemma_selected_by_lowercase(texts(all@), owned_texts(keys@), query@);
    }
    select(&all, &keys, folded_query.as_str())
}

/// What a search of `contents` under `config` reports, line by line: the
/// matching lines, or, where there is none, one line that says so and names
/// the query.
pub fn run(config: &Config, contents: &str) -> (report: Vec<String>)
    ensures
        config.hits(contents@).len() > 0 ==> owned_texts(report@) == config.hits(contents@),
        config.hits(contents@).len() == 0 ==> owned_texts(report@) == seq![
            "No text matched for the string "@ + config.query@,
        ],
{
    let found = if config.case_insensitive {
        search_insensitive(config.query.as_str(), contents)
    } else {
        search(config.query.as_str(), contents)
    };
    let mut report: Vec<String> = Vec::new();
    if found.len() == 0 {
        let notice = String::from_str("No text matched for the string ").concat(
            config.query.as_str(),
        );
        report.push(notice);
        assert(owned_texts(report@) =~= seq!["No text matched for the string "@ + config.query@]);
    } else {
        let mut i: usize = 0;
        while i < found.len()
            invariant
                i <= found@.len(),
                report@.len() == i,
                forall|k: int| 0 <= k < i ==> (#[trigger] report@[k])@ == found@[k]@,
            decreases found@.len() - i,
        {
            report.push(String::from_str(found[i]));
            i += 1;
        }
        assert(owned_texts(report@) =~= texts(found@));
    }
    report
}

} // verus!
