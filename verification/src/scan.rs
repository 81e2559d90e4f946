//! A second, loop-built line search: same contract as [`crate::grep::search`],
//! written with an explicit accumulator.

use crate::grep::matching_lines;
use crate::text::{contains_str, spec_lines, split_lines};
use vstd::prelude::*;

verus! {

/// The lines of `contents` in which `query` occurs, in order, collected one
/// by one.
pub fn search(query: &str, contents: &str) -> (r: Vec<String>)
    ensures
        r@.map_values(|l: String| l@) == matching_lines(spec_lines(contents@), query@),
{
    let lines = split_lines(contents);
    let ghost ls = spec_lines(contents@);
    let mut results: Vec<String> = Vec::new();
    let n = lines.len();
    proof {
        assert(ls.skip(0) =~= ls);
        assert(results@.map_values(|l: String| l@) =~= Seq::<Seq<char>>::empty());
    }
    let mut i: usize = 0;
    while i < n
        invariant
            n == lines@.len(),
            lines@.map_values(|l: String| l@) == ls,
            i <= n,
            results@.map_values(|l: String| l@) + matching_lines(ls.skip(i as int), query@)
                == matching_lines(ls, query@),
        decreases n - i,
    {
        proof {
            assert(ls.skip(i as int)[0] == ls[i as int]);
            assert(ls.skip(i as int).drop_first() =~= ls.skip(i as int + 1));
            assert(ls[i as int] == lines@[i as int]@);
        }
        let line = &lines[i];
        if contains_str(line.as_str(), query) {
            let ghost prev = results@;
            results.push(line.clone());
            proof {
                assert(results@.map_values(|l: String| l@) =~= prev.map_values(
                    |l: String| l@,
                ).push(ls[i as int]));
                assert(prev.map_values(|l: String| l@) + (seq![ls[i as int]] + matching_lines(
                    ls.skip(i as int + 1),
                    query@,
                )) =~= results@.map_values(|l: String| l@) + matching_lines(
                    ls.skip(i as int + 1),
                    query@,
                ));
            }
        }
        i += 1;
    }
    proof {
        assert(ls.skip(n as int) =~= Seq::<Seq<char>>::empty());
        assert(results@.map_values(|l: String| l@) + Seq::<Seq<char>>::empty()
            =~= results@.map_values(|l: String| l@));
    }
    results
}

} // verus!
