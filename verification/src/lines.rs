//! Splitting a text buffer into lines.
//!
//! A line is bounded by `'\n'`; a carriage return that immediately precedes
//! the line feed is excluded from the line. A final line without a trailing
//! line break is still included, keeping any trailing carriage return.

use vstd::prelude::*;

verus! {

/// Removes a single trailing carriage return, if present.
pub open spec fn strip_carriage_return(l: Seq<char>) -> Seq<char> {
    if l.len() > 0 && l[l.len() - 1] == '\r' {
        l.drop_last()
    } else {
        l
    }
}

/// The lines of `cur + s`, where `cur` holds the characters of the current
/// line read so far and `s` is the text still to be scanned.
pub open spec fn lines_with_prefix(s: Seq<char>, cur: Seq<char>) -> Seq<Seq<char>>
    decreases s.len(),
{
    if s.len() == 0 {
        if cur.len() == 0 {
            Seq::<Seq<char>>::empty()
        } else {
            seq![cur]
        }
    } else if s[0] == '\n' {
        seq![strip_carriage_return(cur)] + lines_with_prefix(s.skip(1), Seq::<char>::empty())
    } else {
        lines_with_prefix(s.skip(1), cur.push(s[0]))
    }
}

/// The lines of a text buffer.
pub open spec fn spec_lines(s: Seq<char>) -> Seq<Seq<char>> {
    lines_with_prefix(s, Seq::<char>::empty())
}

/// Text without a line feed forms a single line (or none, when empty).
proof fn lemma_lines_no_newline(s: Seq<char>, cur: Seq<char>)
    requires
        forall|i: int| 0 <= i < s.len() ==> s[i] != '\n',
    ensures
        lines_with_prefix(s, cur) == if cur.len() + s.len() == 0 {
            Seq::<Seq<char>>::empty()
        } else {
            seq![cur + s]
        },
    decreases s.len(),
{
    if s.len() == 0 {
        assert(cur + s =~= cur);
    } else {
        assert(forall|i: int| 0 <= i < s.skip(1).len() ==> s.skip(1)[i] != '\n');
        lemma_lines_no_newline(s.skip(1), cur.push(s[0]));
        assert(cur.push(s[0]) + s.skip(1) =~= cur + s);
    }
}

/// Scanning up to the first line feed emits one line and continues after it.
proof fn lemma_lines_split(s: Seq<char>, cur: Seq<char>, k: int)
    requires
        0 <= k < s.len(),
        s[k] == '\n',
        forall|i: int| 0 <= i < k ==> s[i] != '\n',
    ensures
        lines_with_prefix(s, cur) == seq![strip_carriage_return(cur + s.take(k))]
            + lines_with_prefix(s.skip(k + 1), Seq::<char>::empty()),
    decreases k,
{
    if k == 0 {
        assert(cur + s.take(0) =~= cur);
    } else {
        assert(s.skip(1)[k - 1] == s[k]);
        assert(forall|i: int| 0 <= i < k - 1 ==> s.skip(1)[i] != '\n');
        lemma_lines_split(s.skip(1), cur.push(s[0]), k - 1);
        assert(cur.push(s[0]) + s.skip(1).take(k - 1) =~= cur + s.take(k));
        assert(s.skip(1).skip(k) =~= s.skip(k + 1));
    }
}

/// Splits `contents` into its lines, each a view into `contents`.
pub fn split_lines<'a>(contents: &'a str) -> (r: Vec<&'a str>)
    ensures
        r.deep_view() == spec_lines(contents@),
{
    let n = contents.unicode_len();
    let mut res: Vec<&'a str> = Vec::new();
    let mut start: usize = 0;
    proof {
        assert(contents@.skip(0) =~= contents@);
        assert(res.deep_view() =~= Seq::<Seq<char>>::empty());
        assert(Seq::<Seq<char>>::empty() + lines_with_prefix(contents@, Seq::<char>::empty())
            =~= lines_with_prefix(contents@, Seq::<char>::empty()));
    }
    while start < n
        invariant
            n == contents@.len(),
            start <= n,
            spec_lines(contents@) == res.deep_view() + lines_with_prefix(
                contents@.skip(start as int),
                Seq::<char>::empty(),
            ),
        decreases n - start,
    {
        let ghost prev = res.deep_view();
        let mut j: usize = start;
        let mut found = false;
        while j < n && !found
            invariant
                n == contents@.len(),
                start <= j <= n,
                forall|i: int| start <= i < j ==> contents@[i] != '\n',
                found ==> j < n && contents@[j as int] == '\n',
            decreases n - j + (if found {
                0int
            } else {
                1int
            }),
        {
            if contents.get_char(j) == '\n' {
                found = true;
            } else {
                j += 1;
            }
        }
        let ghost rest = contents@.skip(start as int);
        if found {
            let end = if j > start && contents.get_char(j - 1) == '\r' {
                j - 1
            } else {
                j
            };
            let line = contents.substring_char(start, end);
            proof {
                let k = j - start as int;
                assert(rest[k] == contents@[j as int]);
                assert(forall|i: int| 0 <= i < k ==> rest[i] == contents@[i + start]);
                lemma_lines_split(rest, Seq::<char>::empty(), k);
                assert(Seq::<char>::empty() + rest.take(k) =~= contents@.subrange(
                    start as int,
                    j as int,
                ));
                assert(strip_carriage_return(Seq::<char>::empty() + rest.take(k)) =~= line@);
                assert(rest.skip(k + 1) =~= contents@.skip(j + 1));
            }
            res.push(line);
            proof {
                assert(res.deep_view() =~= prev.push(line@));
                assert(prev.push(line@) =~= prev + seq![line@]);
                assert(prev + (seq![line@] + lines_with_prefix(
                    contents@.skip(j + 1),
                    Seq::<char>::empty(),
                )) =~= (prev + seq![line@]) + lines_with_prefix(
                    contents@.skip(j + 1),
                    Seq::<char>::empty(),
                ));
            }
            start = j + 1;
        } else {
            let line = contents.substring_char(start, n);
            proof {
                assert(forall|i: int| 0 <= i < rest.len() ==> rest[i] == contents@[i + start]);
                lemma_lines_no_newline(rest, Seq::<char>::empty());
                assert(Seq::<char>::empty() + rest =~= line@);
            }
            res.push(line);
            proof {
                assert(res.deep_view() =~= prev.push(line@));
                assert(prev.push(line@) =~= prev + seq![line@]);
                assert(contents@.skip(n as int) =~= Seq::<char>::empty());
                assert(prev + seq![line@] + lines_with_prefix(
                    contents@.skip(n as int),
                    Seq::<char>::empty(),
                ) =~= prev + seq![line@]);
            }
            start = n;
        }
    }
    proof {
        assert(contents@.skip(start as int) =~= Seq::<char>::empty());
        assert(res.deep_view() + lines_with_prefix(Seq::<char>::empty(), Seq::<char>::empty())
            =~= res.deep_view());
    }
    res
}

} // verus!
