//! Line search over a text: a query, a file path, and case handling.

use crate::text::{contains_str, spec_contains, spec_lines, split_lines};
use vstd::prelude::*;

verus! {

/// A search configuration: what to look for, where, and whether case is
/// ignored.
#[derive(Debug)]
pub struct Config {
    pub query: String,
    pub file_path: String,
    pub ignore_case: bool,
}

impl Config {
    /// Builds a configuration from command-line arguments. The first
    /// argument is the program name and is skipped; then come the query and
    /// the file path. `ignore_case` is the environment's case-folding
    /// switch, read by the caller.
    pub fn build(args: Vec<String>, ignore_case: bool) -> (r: Result<Config, &'static str>)
        ensures
            args@.len() < 2 ==> (r matches Err(e) && e@ == "未曾获取到查询字串"@),
            args@.len() == 2 ==> (r matches Err(e) && e@ == "未曾获取到文件路径"@),
            args@.len() >= 3 ==> (r matches Ok(c) && c.query@ == args@[1]@ && c.file_path@
                == args@[2]@ && c.ignore_case == ignore_case),
    {
        if args.len() < 2 {
            return Err("未曾获取到查询字串");
        }
        if args.len() < 3 {
            return Err("未曾获取到文件路径");
        }
        Ok(
            Config {
                query: args[1].clone(),
                file_path: args[2].clone(),
                ignore_case,
            },
        )
    }
}

/// Of the given lines, those in which `q` occurs, in order.
pub open spec fn matching_lines(ls: Seq<Seq<char>>, q: Seq<char>) -> Seq<Seq<char>>
    decreases ls.len(),
{
    if ls.len() == 0 {
        Seq::empty()
    } else {
        let rest = matching_lines(ls.drop_first(), q);
        if spec_contains(ls[0], q) {
            seq![ls[0]] + rest
        } else {
            rest
        }
    }
}

/// The lines of `contents` in which `query` occurs, in order.
pub fn search(query: &str, contents: &str) -> (r: Vec<String>)
    ensures
        r@.map_values(|l: String| l@) == matching_lines(spec_lines(contents@), query@),
{
    let lines = split_lines(contents);
    let ghost ls = spec_lines(contents@);
    let mut r: Vec<String> = Vec::new();
    let n = lines.len();
    proof {
        assert(ls.skip(0) =~= ls);
        assert(r@.map_values(|l: String| l@) =~= Seq::<Seq<char>>::empty());
    }
    let mut i: usize = 0;
    while i < n
        invariant
            n == lines@.len(),
            lines@.map_values(|l: String| l@) == ls,
            i <= n,
            r@.map_values(|l: String| l@) + matching_lines(ls.skip(i as int), query@)
                == matching_lines(ls, query@),
        decreases n - i,
    {
        proof {
            assert(ls.skip(i as int)[0] == ls[i as int]);
            assert(ls.skip(i as int).drop_first() =~= ls.skip(i as int + 1));
            assert(ls[i as int] == lines@[i as int]@);
        }
        let line = &lines[i];
        if contains_str(line.as_str(), query) {
            let ghost prev_r = r@;
            r.push(line.clone());
            proof {
                assert(r@.map_values(|l: String| l@) =~= prev_r.map_values(|l: String| l@).push(
                    ls[i as int],
                ));
                assert(prev_r.map_values(|l: String| l@) + (seq![ls[i as int]] + matching_lines(
                    ls.skip(i as int + 1),
                    query@,
                )) =~= r@.map_values(|l: String| l@) + matching_lines(
                    ls.skip(i as int + 1),
                    query@,
                ));
            }
        }
        i += 1;
    }
    proof {
        assert(ls.skip(n as int) =~= Seq::<Seq<char>>::empty());
        assert(r@.map_values(|l: String| l@) + Seq::<Seq<char>>::empty() =~= r@.map_values(
            |l: String| l@,
        ));
    }
    r
}

/// What `str::to_lowercase` returns for a given character sequence. The
/// result depends on the characters alone.
pub uninterp spec fn lower_of(s: Seq<char>) -> Seq<char>;

/// Relies on `str::to_lowercase`: Unicode lowercasing, a pure function of
/// the character sequence, here only named by `lower_of`.
#[verifier::external_body]
fn lowercase(s: &str) -> (r: String)
    ensures
        r@ == lower_of(s@),
{
    s.to_lowercase()
}

/// Of the given lines, those whose lowercased form contains `q`, in order.
/// `q` is already lowercased.
pub open spec fn matching_lines_folded(ls: Seq<Seq<char>>, q: Seq<char>) -> Seq<Seq<char>>
    decreases ls.len(),
{
    if ls.len() == 0 {
        Seq::empty()
    } else {
        let rest = matching_lines_folded(ls.drop_first(), q);
        if spec_contains(lower_of(ls[0]), q) {
            seq![ls[0]] + rest
        } else {
            rest
        }
    }
}

/// The lines of `contents` in which `query` occurs regardless of case: a
/// line matches when its lowercased form contains the lowercased query. The
/// lines returned keep their original case.
pub fn search_insensitive(query: &str, contents: &str) -> (r: Vec<String>)
    ensures
        r@.map_values(|l: String| l@) == matching_lines_folded(
            spec_lines(contents@),
            lower_of(query@),
        ),
{
    let query_folded = lowercase(query);
    let lines = split_lines(contents);
    let ghost ls = spec_lines(contents@);
    let ghost q = lower_of(query@);
    let mut r: Vec<String> = Vec::new();
    let n = lines.len();
    proof {
        assert(ls.skip(0) =~= ls);
        assert(r@.map_values(|l: String| l@) =~= Seq::<Seq<char>>::empty());
    }
    let mut i: usize = 0;
    while i < n
        invariant
            n == lines@.len(),
            lines@.map_values(|l: String| l@) == ls,
            query_folded@ == q,
            i <= n,
            r@.map_values(|l: String| l@) + matching_lines_folded(ls.skip(i as int), q)
                == matching_lines_folded(ls, q),
        decreases n - i,
    {
        proof {
            assert(ls.skip(i as int)[0] == ls[i as int]);
            assert(ls.skip(i as int).drop_first() =~= ls.skip(i as int + 1));
            assert(ls[i as int] == lines@[i as int]@);
        }
        let line = &lines[i];
        let line_folded = lowercase(line.as_str());
        if contains_str(line_folded.as_str(), query_folded.as_str()) {
            let ghost prev_r = r@;
            r.push(line.clone());
            proof {
                assert(r@.map_values(|l: String| l@) =~= prev_r.map_values(|l: String| l@).push(
                    ls[i as int],
                ));
                assert(prev_r.map_values(|l: String| l@) + (seq![ls[i as int]]
                    + matching_lines_folded(ls.skip(i as int + 1), q)) =~= r@.map_values(
                    |l: String| l@,
                ) + matching_lines_folded(ls.skip(i as int + 1), q));
            }
        }
        i += 1;
    }
    proof {
        assert(ls.skip(n as int) =~= Seq::<Seq<char>>::empty());
        assert(r@.map_values(|l: String| l@) + Seq::<Seq<char>>::empty() =~= r@.map_values(
            |l: String| l@,
        ));
    }
    r
}

/// Runs the search the configuration asks for: case-folded when
/// `ignore_case` is set, exact otherwise.
pub fn run_search(config: &Config, contents: &str) -> (r: Vec<String>)
    ensures
        config.ignore_case ==> r@.map_values(|l: String| l@) == matching_lines_folded(
            spec_lines(contents@),
            lower_of(config.query@),
        ),
        !config.ignore_case ==> r@.map_values(|l: String| l@) == matching_lines(
            spec_lines(contents@),
            config.query@,
        ),
{
    if config.ignore_case {
        search_insensitive(config.query.as_str(), contents)
    } else {
        search(config.query.as_str(), contents)
    }
}

} // verus!
