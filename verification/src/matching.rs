//! The line scanner: substring containment and the two search functions.

use crate::lines::spec_lines;
use crate::lines::split_lines;
use vstd::prelude::*;

verus! {

/// `needle` occurs as a contiguous substring of `hay`.
pub open spec fn contains_substring(hay: Seq<char>, needle: Seq<char>) -> bool {
    exists|i: int|
        0 <= i && i + needle.len() <= hay.len() && #[trigger] hay.subrange(i, i + needle.len())
            == needle
}

/// Decides substring containment on string slices by a direct
/// character-by-character scan.
pub fn str_contains(hay: &str, needle: &str) -> (r: bool)
    ensures
        r == contains_substring(hay@, needle@),
{
    let hay_len = hay.unicode_len();
    let needle_len = needle.unicode_len();
    if needle_len > hay_len {
        assert(!contains_substring(hay@, needle@));
        return false;
    }
    if needle_len == 0 {
        assert(contains_substring(hay@, needle@)) by {
            assert(hay@.subrange(0, 0 + needle@.len() as int) =~= needle@);
        }
        return true;
    }
    let mut i: usize = 0;
    while i <= hay_len - needle_len
        invariant
            hay_len == hay@.len(),
            needle_len == needle@.len(),
            1 <= needle_len <= hay_len,
            i <= hay_len - needle_len + 1,
            forall|k: int|
                0 <= k < i ==> #[trigger] hay@.subrange(k, k + needle@.len() as int) != needle@,
        decreases hay_len - needle_len - i + 1,
    {
        let mut j: usize = 0;
        let mut mismatch = false;
        while j < needle_len && !mismatch
            invariant
                hay_len == hay@.len(),
                needle_len == needle@.len(),
                i + needle_len <= hay_len,
                j <= needle_len,
                !mismatch ==> forall|k: int| 0 <= k < j ==> hay@[i + k] == needle@[k],
                mismatch ==> hay@.subrange(i as int, i + needle@.len() as int) != needle@,
            decreases needle_len - j + (if mismatch { 0int } else { 1int }),
        {
            if hay.get_char(i + j) != needle.get_char(j) {
                assert(hay@.subrange(i as int, i + needle@.len() as int)[j as int]
                    != needle@[j as int]);
                mismatch = true;
            } else {
                j += 1;
            }
        }
        if !mismatch {
            assert(hay@.subrange(i as int, i + needle@.len() as int) =~= needle@);
            return true;
        }
        i += 1;
    }
    assert(forall|k: int|
        0 <= k && k + needle@.len() <= hay@.len() ==> #[trigger] hay@.subrange(k, k + needle@.len() as int)
            != needle@);
    false
}

/// The lowercased form of a character sequence, as the standard library's
/// locale-independent lowercase mapping produces it.
pub uninterp spec fn lower_of(s: Seq<char>) -> Seq<char>;

/// Relies on str::to_lowercase: the lowercased text is a function of the
/// input characters alone, and an empty string lowercases to an empty string.
#[verifier::external_body]
fn lowercase(s: &str) -> (r: String)
    ensures
        r@ == lower_of(s@),
        s@.len() == 0 ==> r@.len() == 0,
{
    s.to_lowercase()
}

/// The elements of `ls` satisfying `p`, kept in their original order.
pub open spec fn matching_lines(ls: Seq<Seq<char>>, p: spec_fn(Seq<char>) -> bool) -> Seq<
    Seq<char>,
>
    decreases ls.len(),
{
    if ls.len() == 0 {
        Seq::<Seq<char>>::empty()
    } else {
        let rest = matching_lines(ls.drop_last(), p);
        if p(ls.last()) {
            rest.push(ls.last())
        } else {
            rest
        }
    }
}

/// What a case-sensitive search returns: the lines of `contents` that
/// contain `query` as an exact substring, in their original order.
pub open spec fn search_spec(query: Seq<char>, contents: Seq<char>) -> Seq<Seq<char>> {
    matching_lines(spec_lines(contents), |l: Seq<char>| contains_substring(l, query))
}

/// What a case-insensitive search returns: the lines of `contents` whose
/// lowercased form contains the lowercased query, with their original casing.
pub open spec fn search_case_insensitive_spec(query: Seq<char>, contents: Seq<char>) -> Seq<
    Seq<char>,
> {
    matching_lines(
        spec_lines(contents),
        |l: Seq<char>| contains_substring(lower_of(l), lower_of(query)),
    )
}

/// Every line a filtered scan keeps satisfies the predicate and comes from
/// the scanned sequence.
proof fn lemma_matching_lines_sound(ls: Seq<Seq<char>>, p: spec_fn(Seq<char>) -> bool, i: int)
    requires
        0 <= i < matching_lines(ls, p).len(),
    ensures
        p(matching_lines(ls, p)[i]),
        ls.contains(matching_lines(ls, p)[i]),
    decreases ls.len(),
{
    let out = matching_lines(ls, p);
    let rest = matching_lines(ls.drop_last(), p);
    if i < rest.len() {
        lemma_matching_lines_sound(ls.drop_last(), p, i);
        let j = choose|j: int| 0 <= j < ls.drop_last().len() && ls.drop_last()[j] == rest[i];
        assert(ls[j] == out[i]);
    } else {
        assert(p(ls.last()));
        assert(out[i] == ls.last());
        assert(ls[ls.len() - 1] == ls.last());
    }
}

/// A scan whose predicate holds on every element keeps the sequence whole.
proof fn lemma_matching_lines_all_true(ls: Seq<Seq<char>>, p: spec_fn(Seq<char>) -> bool)
    requires
        forall|i: int| 0 <= i < ls.len() ==> p(#[trigger] ls[i]),
    ensures
        matching_lines(ls, p) == ls,
    decreases ls.len(),
{
    if ls.len() != 0 {
        assert(ls.last() == ls[ls.len() - 1]);
        lemma_matching_lines_all_true(ls.drop_last(), p);
        assert(matching_lines(ls.drop_last(), p).push(ls.last()) =~= ls);
    }
}

/// Returns every line of `contents` that contains `query` as an exact
/// substring, in the order the lines appear in `contents`.
pub fn search<'a>(query: &str, contents: &'a str) -> (r: Vec<&'a str>)
    ensures
        r.deep_view() == search_spec(query@, contents@),
{
    let lines = split_lines(contents);
    let ghost all = lines.deep_view();
    let mut results: Vec<&'a str> = Vec::new();
    let mut i: usize = 0;
    proof {
        assert(all.take(0) =~= Seq::<Seq<char>>::empty());
        assert(results.deep_view() =~= Seq::<Seq<char>>::empty());
    }
    while i < lines.len()
        invariant
            all == lines.deep_view(),
            all == spec_lines(contents@),
            i <= lines@.len(),
            lines@.len() == all.len(),
            results.deep_view() == matching_lines(
                all.take(i as int),
                |l: Seq<char>| contains_substring(l, query@),
            ),
        decreases lines@.len() - i,
    {
        let ghost prev = results.deep_view();
        let line = lines[i];
        proof {
            assert(all[i as int] == line@);
        }
        if str_contains(line, query) {
            results.push(line);
            proof {
                assert(results.deep_view() =~= prev.push(line@));
            }
        }
        proof {
            assert(all.take(i + 1).drop_last() =~= all.take(i as int));
            assert(all.take(i + 1).last() == line@);
        }
        i += 1;
    }
    proof {
        assert(all.take(all.len() as int) =~= all);
    }
    results
}

/// Returns every line of `contents` whose lowercased form contains the
/// lowercased `query`, in order, each with its original casing.
///
/// An empty query matches every line.
pub fn search_case_insensitive<'a>(query: &str, contents: &'a str) -> (r: Vec<&'a str>)
    ensures
        r.deep_view() == search_case_insensitive_spec(query@, contents@),
        query@.len() == 0 ==> r.deep_view() == spec_lines(contents@),
{
    let lowered_query = lowercase(query);
    let lines = split_lines(contents);
    let ghost all = lines.deep_view();
    let mut results: Vec<&'a str> = Vec::new();
    let mut i: usize = 0;
    proof {
        assert(all.take(0) =~= Seq::<Seq<char>>::empty());
        assert(results.deep_view() =~= Seq::<Seq<char>>::empty());
    }
    while i < lines.len()
        invariant
            all == lines.deep_view(),
            all == spec_lines(contents@),
            i <= lines@.len(),
            lines@.len() == all.len(),
            lowered_query@ == lower_of(query@),
            results.deep_view() == matching_lines(
                all.take(i as int),
                |l: Seq<char>| contains_substring(lower_of(l), lower_of(query@)),
            ),
        decreases lines@.len() - i,
    {
        let ghost prev = results.deep_view();
        let line = lines[i];
        proof {
            assert(all[i as int] == line@);
        }
        let lowered_line = lowercase(line);
        if str_contains(lowered_line.as_str(), lowered_query.as_str()) {
            results.push(line);
            proof {
                assert(results.deep_view() =~= prev.push(line@));
            }
        }
        proof {
            assert(all.take(i + 1).drop_last() =~= all.take(i as int));
            assert(all.take(i + 1).last() == line@);
        }
        i += 1;
    }
    proof {
        assert(all.take(all.len() as int) =~= all);
        if query@.len() == 0 {
            assert forall|k: int| 0 <= k < all.len() implies #[trigger] contains_substring(
                lower_of(all[k]),
                lower_of(query@),
            ) by {
                assert(lower_of(all[k]).subrange(0, 0 + lower_of(query@).len() as int)
                    =~= lower_of(query@));
            }
            lemma_matching_lines_all_true(
                all,
                |l: Seq<char>| contains_substring(lower_of(l), lower_of(query@)),
            );
        }
    }
    results
}

/// Runs the search that `config.ignore_case` selects over `contents`.
pub fn search_with_config<'a>(config: &crate::config::Config, contents: &'a str) -> (r: Vec<
    &'a str,
>)
    ensures
        config.ignore_case ==> r.deep_view() == search_case_insensitive_spec(
            config.query@,
            contents@,
        ),
        !config.ignore_case ==> r.deep_view() == search_spec(config.query@, contents@),
{
    if config.ignore_case {
        search_case_insensitive(config.query.as_str(), contents)
    } else {
        search(config.query.as_str(), contents)
    }
}

/// A case-sensitive search returns only lines of the contents, each of
/// which contains the query as an exact substring.
pub proof fn lemma_search_only_matching_lines(query: Seq<char>, contents: Seq<char>, i: int)
    requires
        0 <= i < search_spec(query, contents).len(),
    ensures
        contains_substring(search_spec(query, contents)[i], query),
        spec_lines(contents).contains(search_spec(query, contents)[i]),
{
    lemma_matching_lines_sound(
        spec_lines(contents),
        |l: Seq<char>| contains_substring(l, query),
        i,
    );
}

/// A case-insensitive search returns only lines of the contents — kept with
/// their original casing — whose lowercased form contains the lowercased
/// query.
pub proof fn lemma_search_case_insensitive_only_matching_lines(
    query: Seq<char>,
    contents: Seq<char>,
    i: int,
)
    requires
        0 <= i < search_case_insensitive_spec(query, contents).len(),
    ensures
        contains_substring(
            lower_of(search_case_insensitive_spec(query, contents)[i]),
            lower_of(query),
        ),
        spec_lines(contents).contains(search_case_insensitive_spec(query, contents)[i]),
{
    lemma_matching_lines_sound(
        spec_lines(contents),
        |l: Seq<char>| contains_substring(lower_of(l), lower_of(query)),
        i,
    );
}

/// Two searches over the same query, contents and policy return the same
/// lines in the same order: the result is a function of the inputs alone.
pub proof fn lemma_search_idempotent(
    query: Seq<char>,
    contents: Seq<char>,
    ignore_case: bool,
    r1: Seq<Seq<char>>,
    r2: Seq<Seq<char>>,
)
    requires
        r1 == (if ignore_case {
            search_case_insensitive_spec(query, contents)
        } else {
            search_spec(query, contents)
        }),
        r2 == (if ignore_case {
            search_case_insensitive_spec(query, contents)
        } else {
            search_spec(query, contents)
        }),
    ensures
        r1 == r2,
{
}

/// An empty query matches every line of the contents.
pub proof fn lemma_empty_query_matches_all(query: Seq<char>, contents: Seq<char>)
    requires
        query.len() == 0,
    ensures
        search_spec(query, contents) == spec_lines(contents),
{
    let all = spec_lines(contents);
    assert forall|k: int| 0 <= k < all.len() implies #[trigger] contains_substring(
        all[k],
        query,
    ) by {
        assert(all[k].subrange(0, 0 + query.len() as int) =~= query);
    }
    lemma_matching_lines_all_true(all, |l: Seq<char>| contains_substring(l, query));
}

/// Empty contents yield an empty result for any query, under either policy.
pub proof fn lemma_empty_contents_yields_nothing(query: Seq<char>, contents: Seq<char>)
    requires
        contents.len() == 0,
    ensures
        search_spec(query, contents) == Seq::<Seq<char>>::empty(),
        search_case_insensitive_spec(query, contents) == Seq::<Seq<char>>::empty(),
{
    assert(contents =~= Seq::<char>::empty());
}

} // verus!
