//! Line search in a text, with and without regard to case.
use vstd::prelude::*;

verus! {

// ---------------------------------------------------------------------------
// Lines of a text
// ---------------------------------------------------------------------------

/// `line` without one trailing carriage return.
pub open spec fn strip_cr(line: Seq<char>) -> Seq<char> {
    if line.len() > 0 && line.last() == '\r' {
        line.drop_last()
    } else {
        line
    }
}

/// Reading `s` from its start: the lines finished so far, each ended by a
/// line feed (and without a carriage return right before it), and the text of
/// the line still open.
pub open spec fn lines_state(s: Seq<char>) -> (Seq<Seq<char>>, Seq<char>)
    decreases s.len(),
{
    if s.len() == 0 {
        (seq![], seq![])
    } else {
        let (done, cur) = lines_state(s.drop_last());
        if s.last() == '\n' {
            (done.push(strip_cr(cur)), seq![])
        } else {
            (done, cur.push(s.last()))
        }
    }
}

/// The lines of `s`, as `str::lines` yields them: split at each line feed,
/// a carriage return before a line feed dropped, and no empty last line after
/// a final line feed.
pub open spec fn lines_of(s: Seq<char>) -> Seq<Seq<char>> {
    let (done, cur) = lines_state(s);
    if cur.len() > 0 {
        done.push(cur)
    } else {
        done
    }
}

/// `pattern` occurs in `text` at some position.
pub open spec fn occurs_in(pattern: Seq<char>, text: Seq<char>) -> bool {
    exists|k: int|
        0 <= k && k + pattern.len() <= text.len() && #[trigger] text.subrange(
            k,
            k + pattern.len(),
        ) == pattern
}

/// The lines of `lines` in which `query` occurs, in their order.
pub open spec fn lines_with(lines: Seq<Seq<char>>, query: Seq<char>) -> Seq<Seq<char>>
    decreases lines.len(),
{
    if lines.len() == 0 {
        seq![]
    } else {
        let rest = lines_with(lines.drop_last(), query);
        if occurs_in(query, lines.last()) {
            rest.push(lines.last())
        } else {
            rest
        }
    }
}

pub open spec fn strs_view(v: Seq<&str>) -> Seq<Seq<char>> {
    v.map_values(|s: &str| s@)
}

/// The characters of `s`.
pub(crate) fn chars_of(s: &str) -> (r: Vec<char>)
    ensures
        r@ == s@,
{
    let n = s.unicode_len();
    let mut out: Vec<char> = Vec::new();
    let mut i: usize = 0;
    while i < n
        invariant
            n == s@.len(),
            i <= n,
            out@ == s@.take(i as int),
        decreases n - i,
    {
        out.push(s.get_char(i));
        proof {
            assert(out@ =~= s@.take(i + 1));
        }
        i = i + 1;
    }
    proof {
        assert(s@.take(n as int) =~= s@);
    }
    out
}

/// The lines of `s`, as `str::lines` yields them.
pub fn lines<'a>(s: &'a str) -> (r: Vec<&'a str>)
    ensures
        strs_view(r@) == lines_of(s@),
{
    let cs = chars_of(s);
    let n = cs.len();
    let mut done: Vec<&'a str> = Vec::new();
    let mut start: usize = 0;
    let mut i: usize = 0;
    proof {
        assert(s@.take(0) =~= Seq::<char>::empty());
        assert(strs_view(done@) =~= Seq::<Seq<char>>::empty());
        assert(s@.subrange(0, 0) =~= Seq::<char>::empty());
    }
    while i < n
        invariant
            cs@ == s@,
            n == s@.len(),
            start <= i <= n,
            strs_view(done@) == lines_state(s@.take(i as int)).0,
            s@.subrange(start as int, i as int) == lines_state(s@.take(i as int)).1,
        decreases n - i,
    {
        proof {
            assert(s@.take(i + 1).drop_last() =~= s@.take(i as int));
            assert(s@.take(i + 1).last() == s@[i as int]);
        }
        if cs[i] == '\n' {
            let end: usize = if i > start && cs[i - 1] == '\r' {
                i - 1
            } else {
                i
            };
            let line = s.substring_char(start, end);
            let ghost before = done@;
            done.push(line);
            proof {
                let cur = s@.subrange(start as int, i as int);
                if i > start && cs@[i - 1] == '\r' {
                    assert(cur.drop_last() =~= s@.subrange(start as int, end as int));
                }
                assert(strip_cr(cur) =~= line@);
                assert(strs_view(done@) =~= strs_view(before).push(line@));
                assert(s@.subrange((i + 1) as int, (i + 1) as int) =~= Seq::<char>::empty());
            }
            start = i + 1;
        } else {
            proof {
                assert(s@.subrange(start as int, i + 1) =~= s@.subrange(
                    start as int,
                    i as int,
                ).push(s@[i as int]));
            }
        }
        i = i + 1;
    }
    proof {
        assert(s@.take(n as int) =~= s@);
    }
    if start < n {
        let last = s.substring_char(start, n);
        let ghost before = done@;
        done.push(last);
        proof {
            assert(strs_view(done@) =~= strs_view(before).push(last@));
        }
    }
    done
}

/// Whether `pattern` occurs in `text`.
pub fn contains(text: &str, pattern: &str) -> (r: bool)
    ensures
        r == occurs_in(pattern@, text@),
{
    let t = chars_of(text);
    let p = chars_of(pattern);
    if p.len() > t.len() {
        return false;
    }
    let last = t.len() - p.len();
    let mut k: usize = 0;
    while k <= last
        invariant
            t@ == text@,
            p@ == pattern@,
            last == t.len() - p.len(),
            k <= last + 1,
            forall|m: int| 0 <= m < k ==> #[trigger] text@.subrange(m, m + pattern@.len()) != pattern@,
        decreases last + 1 - k,
    {
        let mut j: usize = 0;
        let mut same: bool = true;
        while j < p.len()
            invariant
                t@ == text@,
                p@ == pattern@,
                k + p.len() <= t.len(),
                j <= p.len(),
                same <==> forall|m: int| 0 <= m < j ==> t@[k + m] == p@[m],
            decreases p.len() - j,
        {
            if t[k + j] != p[j] {
                same = false;
            }
            j = j + 1;
        }
        if same {
            proof {
                assert(text@.subrange(k as int, k + pattern@.len()) =~= pattern@);
            }
            return true;
        }
        proof {
            let m = choose|m: int| 0 <= m < j && !(t@[k + m] == p@[m]);
            assert(text@.subrange(k as int, k + pattern@.len())[m] != pattern@[m]);
        }
        k = k + 1;
    }
    false
}

/// The lines of `contents` in which `query` occurs, in their order.
pub fn search<'a>(query: &str, contents: &'a str) -> (r: Vec<&'a str>)
    ensures
        strs_view(r@) == lines_with(lines_of(contents@), query@),
{
    let all = lines(contents);
    let ghost ls = lines_of(contents@);
    let mut out: Vec<&'a str> = Vec::new();
    let mut i: usize = 0;
    proof {
        assert(ls.take(0) =~= Seq::<Seq<char>>::empty());
        assert(strs_view(out@) =~= Seq::<Seq<char>>::empty());
    }
    while i < all.len()
        invariant
            strs_view(all@) == ls,
            i <= all.len(),
            strs_view(out@) == lines_with(ls.take(i as int), query@),
        decreases all.len() - i,
    {
        proof {
            assert(ls.take(i + 1).drop_last() =~= ls.take(i as int));
            assert(ls.take(i + 1).last() == all@[i as int]@);
        }
        if contains(all[i], query) {
            let ghost before = out@;
            out.push(all[i]);
            proof {
                assert(strs_view(out@) =~= strs_view(before).push(all@[i as int]@));
            }
        }
        i = i + 1;
    }
    proof {
        assert(ls.take(i as int) =~= ls);
    }
    out
}

// ---------------------------------------------------------------------------
// Search without regard to case
// ---------------------------------------------------------------------------

/// What `str::to_lowercase` gives for `s`.
pub uninterp spec fn lower_of(s: Seq<char>) -> Seq<char>;

/// Relies on `str::to_lowercase`: the lowercase form of `s`, a function of its
/// characters alone.
#[verifier::external_body]
fn lowercase(s: &str) -> (r: String)
    ensures
        r@ == lower_of(s@),
{
    s.to_lowercase()
}

/// The lines of `lines` in whose lowercase form the lowercase form of `query`
/// occurs, in their order.
pub open spec fn lines_with_folded(lines: Seq<Seq<char>>, query: Seq<char>) -> Seq<Seq<char>>
    decreases lines.len(),
{
    if lines.len() == 0 {
        seq![]
    } else {
        let rest = lines_with_folded(lines.drop_last(), query);
        if occurs_in(lower_of(query), lower_of(lines.last())) {
            rest.push(lines.last())
        } else {
            rest
        }
    }
}

/// The lines of `contents` that hold `query` when both are taken in lowercase,
/// in their order.
pub fn search_case_insensitive<'a>(query: &str, contents: &'a str) -> (r: Vec<&'a str>)
    ensures
        strs_view(r@) == lines_with_folded(lines_of(contents@), query@),
{
    let q = lowercase(query);
    let all = lines(contents);
    let ghost ls = lines_of(contents@);
    let mut out: Vec<&'a str> = Vec::new();
    let mut i: usize = 0;
    proof {
        assert(ls.take(0) =~= Seq::<Seq<char>>::empty());
        assert(strs_view(out@) =~= Seq::<Seq<char>>::empty());
    }
    while i < all.len()
        invariant
            strs_view(all@) == ls,
            q@ == lower_of(query@),
            i <= all.len(),
            strs_view(out@) == lines_with_folded(ls.take(i as int), query@),
        decreases all.len() - i,
    {
        proof {
            assert(ls.take(i + 1).drop_last() =~= ls.take(i as int));
            assert(ls.take(i + 1).last() == all@[i as int]@);
        }
        let line = lowercase(all[i]);
        if contains(line.as_str(), q.as_str()) {
            let ghost before = out@;
            out.push(all[i]);
            proof {
                assert(strs_view(out@) =~= strs_view(before).push(all@[i as int]@));
            }
        }
        i = i + 1;
    }
    proof {
        assert(ls.take(i as int) =~= ls);
    }
    out
}

// ---------------------------------------------------------------------------
// Configuration
// ---------------------------------------------------------------------------

/// What to search for, where, and whether case matters.
pub struct Config {
    pub query: String,
    pub filename: String,
    pub case_sensitive: bool,
}

impl Config {
    /// Builds a configuration from the command-line arguments `args` (the
    /// program's name first, then the query, then the file name) and from
    /// whether case-insensitive search was asked for.
    pub fn new(args: &Vec<String>, case_insensitive: bool) -> (r: Result<Config, &'static str>)
        ensures
            args.len() < 2 ==> r == Err::<Config, &'static str>("Didn't get a query string"),
            args.len() == 2 ==> r == Err::<Config, &'static str>("Didn't get a file name"),
            args.len() > 2 ==> (r matches Ok(c) && c.query@ == args@[1]@ && c.filename@
                == args@[2]@ && c.case_sensitive == !case_insensitive),
    {
        if args.len() < 2 {
            return Err("Didn't get a query string");
        }
        if args.len() < 3 {
            return Err("Didn't get a file name");
        }
        Ok(
            Config {
                query: args[1].clone(),
                filename: args[2].clone(),
                case_sensitive: !case_insensitive,
            },
        )
    }
}

/// The lines of `contents` that the search of `config` selects.
pub fn run_search<'a>(config: &Config, contents: &'a str) -> (r: Vec<&'a str>)
    ensures
        config.case_sensitive ==> strs_view(r@) == lines_with(
            lines_of(contents@),
            config.query@,
        ),
        !config.case_sensitive ==> strs_view(r@) == lines_with_folded(
            lines_of(contents@),
            config.query@,
        ),
{
    if config.case_sensitive {
        search(config.query.as_str(), contents)
    } else {
        search_case_insensitive(config.query.as_str(), contents)
    }
}

} // verus!
