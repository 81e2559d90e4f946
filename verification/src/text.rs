//! Verified text primitives: splitting into lines, substring search, and
//! word extraction.

use vstd::prelude::*;

verus! {

/// Drops a carriage return at the end of a line body, as happens when a
/// `"\r\n"` ending is split at the newline.
pub open spec fn strip_cr(l: Seq<char>) -> Seq<char> {
    if l.len() > 0 && l.last() == '\r' {
        l.drop_last()
    } else {
        l
    }
}

/// The lines of `s` when an unfinished line `cur` is already in progress:
/// lines are split at `'\n'`, a carriage return directly before the newline
/// is dropped, and a trailing newline does not open a final empty line.
pub open spec fn lines_from(s: Seq<char>, cur: Seq<char>) -> Seq<Seq<char>>
    decreases s.len(),
{
    if s.len() == 0 {
        if cur.len() == 0 {
            Seq::empty()
        } else {
            seq![cur]
        }
    } else if s[0] == '\n' {
        seq![strip_cr(cur)] + lines_from(s.drop_first(), Seq::empty())
    } else {
        lines_from(s.drop_first(), cur.push(s[0]))
    }
}

/// The lines of `s`.
pub open spec fn spec_lines(s: Seq<char>) -> Seq<Seq<char>> {
    lines_from(s, Seq::empty())
}

/// `needle` occurs in `hay` starting at position `i`.
pub open spec fn contains_at(hay: Seq<char>, needle: Seq<char>, i: int) -> bool {
    &&& 0 <= i
    &&& i + needle.len() <= hay.len()
    &&& hay.subrange(i, i + needle.len()) == needle
}

/// `needle` occurs somewhere in `hay`.
pub open spec fn spec_contains(hay: Seq<char>, needle: Seq<char>) -> bool {
    exists|i: int| contains_at(hay, needle, i)
}

/// Splits `contents` into its lines.
pub fn split_lines(contents: &str) -> (r: Vec<String>)
    ensures
        r@.map_values(|l: String| l@) == spec_lines(contents@),
{
    let n = contents.unicode_len();
    let mut r: Vec<String> = Vec::new();
    let mut start: usize = 0;
    let mut i: usize = 0;
    proof {
        assert(contents@.skip(0) =~= contents@);
        assert(contents@.subrange(0, 0) =~= Seq::<char>::empty());
        assert(r@.map_values(|l: String| l@) =~= Seq::<Seq<char>>::empty());
        assert(r@.map_values(|l: String| l@) + spec_lines(contents@) =~= spec_lines(contents@));
    }
    while i < n
        invariant
            n == contents@.len(),
            start <= i <= n,
            forall|k: int| start <= k < i ==> contents@[k] != '\n',
            r@.map_values(|l: String| l@) + lines_from(
                contents@.skip(i as int),
                contents@.subrange(start as int, i as int),
            ) == spec_lines(contents@),
        decreases n - i,
    {
        let ghost cur = contents@.subrange(start as int, i as int);
        let ghost rest = contents@.skip(i as int);
        proof {
            assert(rest[0] == contents@[i as int]);
            assert(rest.drop_first() =~= contents@.skip(i as int + 1));
        }
        let c = contents.get_char(i);
        if c == '\n' {
            let end = if i > start && contents.get_char(i - 1) == '\r' {
                i - 1
            } else {
                i
            };
            let line = contents.substring_char(start, end).to_owned();
            proof {
                if i > start && contents@[i as int - 1] == '\r' {
                    assert(cur.len() > 0 && cur.last() == '\r');
                    assert(strip_cr(cur) =~= contents@.subrange(start as int, i as int - 1));
                } else {
                    if cur.len() > 0 {
                        assert(cur.last() == contents@[i as int - 1]);
                    }
                    assert(strip_cr(cur) =~= cur);
                }
                assert(line@ == strip_cr(cur));
                assert(lines_from(rest, cur) == seq![strip_cr(cur)] + lines_from(
                    rest.drop_first(),
                    Seq::empty(),
                ));
            }
            let ghost prev_r = r@;
            r.push(line);
            proof {
                assert(r@.map_values(|l: String| l@) =~= prev_r.map_values(|l: String| l@).push(
                    line@,
                ));
                assert(prev_r.map_values(|l: String| l@) + (seq![strip_cr(cur)] + lines_from(
                    rest.drop_first(),
                    Seq::empty(),
                )) =~= r@.map_values(|l: String| l@) + lines_from(
                    rest.drop_first(),
                    Seq::empty(),
                ));
                assert(contents@.subrange(i as int + 1, i as int + 1) =~= Seq::<char>::empty());
            }
            start = i + 1;
        } else {
            proof {
                assert(lines_from(rest, cur) == lines_from(rest.drop_first(), cur.push(
                    contents@[i as int],
                )));
                assert(cur.push(contents@[i as int]) =~= contents@.subrange(
                    start as int,
                    i as int + 1,
                ));
            }
        }
        i += 1;
    }
    proof {
        assert(contents@.skip(n as int) =~= Seq::<char>::empty());
    }
    if start < n {
        let line = contents.substring_char(start, n).to_owned();
        let ghost cur = contents@.subrange(start as int, n as int);
        let ghost prev_r = r@;
        proof {
            assert(cur.len() > 0);
            assert(lines_from(Seq::empty(), cur) == seq![cur]);
        }
        r.push(line);
        proof {
            assert(r@.map_values(|l: String| l@) =~= prev_r.map_values(|l: String| l@).push(
                line@,
            ));
            assert(prev_r.map_values(|l: String| l@) + seq![cur] =~= r@.map_values(
                |l: String| l@,
            ));
        }
    } else {
        proof {
            assert(contents@.subrange(start as int, n as int) =~= Seq::<char>::empty());
            assert(lines_from(Seq::empty(), Seq::<char>::empty()) == Seq::<Seq<char>>::empty());
            assert(r@.map_values(|l: String| l@) + Seq::<Seq<char>>::empty() =~= r@.map_values(
                |l: String| l@,
            ));
        }
    }
    r
}

/// Whether `needle` occurs as a contiguous substring of `hay`.
pub fn contains_str(hay: &str, needle: &str) -> (b: bool)
    ensures
        b == spec_contains(hay@, needle@),
{
    let hn = hay.unicode_len();
    let nn = needle.unicode_len();
    if nn > hn {
        proof {
            assert(forall|i: int| !contains_at(hay@, needle@, i));
        }
        return false;
    }
    if nn == 0 {
        proof {
            assert(hay@.subrange(0, 0) =~= needle@);
            assert(contains_at(hay@, needle@, 0));
        }
        return true;
    }
    let mut i: usize = 0;
    while i <= hn - nn
        invariant
            0 < nn <= hn,
            hn == hay@.len(),
            nn == needle@.len(),
            i <= hn - nn + 1,
            forall|k: int| 0 <= k < i ==> !contains_at(hay@, needle@, k),
        decreases hn - nn + 1 - i,
    {
        let mut j: usize = 0;
        let mut matches_here = true;
        while j < nn && matches_here
            invariant
                nn <= hn,
                hn == hay@.len(),
                nn == needle@.len(),
                i <= hn - nn,
                j <= nn,
                matches_here ==> forall|m: int| 0 <= m < j ==> hay@[i + m] == needle@[m],
                !matches_here ==> !contains_at(hay@, needle@, i as int),
            decreases nn - j,
        {
            if hay.get_char(i + j) != needle.get_char(j) {
                proof {
                    assert(hay@.subrange(i as int, i + nn)[j as int] == hay@[i + j]);
                }
                matches_here = false;
            }
            j += 1;
        }
        if matches_here {
            proof {
                assert(hay@.subrange(i as int, i + nn) =~= needle@);
                assert(contains_at(hay@, needle@, i as int));
            }
            return true;
        }
        i += 1;
    }
    proof {
        assert(forall|k: int| contains_at(hay@, needle@, k) ==> 0 <= k <= hn - nn);
    }
    false
}

/// The first word of `s`: everything before the first space, or all of `s`
/// if it has no space.
pub open spec fn spec_first_word(s: Seq<char>) -> Seq<char>
    decreases s.len(),
{
    if s.len() == 0 || s[0] == ' ' {
        Seq::empty()
    } else {
        seq![s[0]] + spec_first_word(s.drop_first())
    }
}

/// A space-free prefix that ends at a space (or at the end of `s`) is the
/// first word.
proof fn lemma_first_word_prefix(s: Seq<char>, i: int)
    requires
        0 <= i <= s.len(),
        forall|k: int| 0 <= k < i ==> s[k] != ' ',
        i == s.len() || s[i] == ' ',
    ensures
        spec_first_word(s) == s.subrange(0, i),
    decreases i,
{
    if i == 0 {
        assert(s.subrange(0, 0) =~= Seq::<char>::empty());
    } else {
        assert(s[0] != ' ');
        let t = s.drop_first();
        assert(forall|k: int| 0 <= k < i - 1 ==> t[k] == s[k + 1] && t[k] != ' ');
        lemma_first_word_prefix(t, i - 1);
        assert(seq![s[0]] + t.subrange(0, i - 1) =~= s.subrange(0, i));
    }
}

/// The leading word of `s`, up to but not including the first space.
pub fn first_word(s: &String) -> (r: &str)
    ensures
        r@ == spec_first_word(s@),
{
    let n = s.as_str().unicode_len();
    let mut i: usize = 0;
    while i < n
        invariant
            n == s@.len(),
            i <= n,
            forall|k: int| 0 <= k < i ==> s@[k] != ' ',
        decreases n - i,
    {
        if s.as_str().get_char(i) == ' ' {
            proof {
                lemma_first_word_prefix(s@, i as int);
            }
            return s.as_str().substring_char(0, i);
        }
        i += 1;
    }
    proof {
        lemma_first_word_prefix(s@, n as int);
    }
    s.as_str().substring_char(0, n)
}

/// Whether two string slices hold the same characters.
pub fn str_eq(a: &str, b: &str) -> (r: bool)
    ensures
        r == (a@ == b@),
{
    let an = a.unicode_len();
    let bn = b.unicode_len();
    if an != bn {
        return false;
    }
    let mut i: usize = 0;
    while i < an
        invariant
            an == a@.len(),
            an == b@.len(),
            i <= an,
            forall|k: int| 0 <= k < i ==> a@[k] == b@[k],
        decreases an - i,
    {
        if a.get_char(i) != b.get_char(i) {
            return false;
        }
        i += 1;
    }
    proof {
        assert(a@ =~= b@);
    }
    true
}

/// Picks the longer (in bytes) of two string slices, the second on a tie.
pub fn longest<'a>(x: &'a str, y: &'a str) -> (r: &'a str)
    ensures
        x.len() > y.len() ==> r@ == x@,
        x.len() <= y.len() ==> r@ == y@,
{
    if x.len() > y.len() {
        x
    } else {
        y
    }
}

} // verus!
