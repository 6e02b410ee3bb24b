//! Dotted lookup keys: a key such as `"menu.file.open"` is an ordered list of
//! segments joined by `'.'`, the only separator, with no escaping for literal
//! dots.

use vstd::prelude::*;
use vstd::string::StrSliceExecFns;

verus! {

/// The position of the first `'.'` in `s`, or `s.len()` when there is none.
pub open spec fn find_dot(s: Seq<char>) -> int
    decreases s.len(),
{
    if s.len() == 0 {
        0
    } else if s[0] == '.' {
        0
    } else {
        1 + find_dot(s.drop_first())
    }
}

/// `find_dot` points at the first dot: everything before it is dotless, and
/// it lands on a dot unless the whole text is dotless.
pub proof fn lemma_find_dot_bounds(s: Seq<char>)
    ensures
        0 <= find_dot(s) <= s.len(),
        forall|j: int| 0 <= j < find_dot(s) ==> s[j] != '.',
        find_dot(s) < s.len() ==> s[find_dot(s)] == '.',
    decreases s.len(),
{
    if s.len() == 0 || s[0] == '.' {
    } else {
        lemma_find_dot_bounds(s.drop_first());
        assert forall|j: int| 0 <= j < find_dot(s) implies s[j] != '.' by {
            if j > 0 {
                assert(s.drop_first()[j - 1] == s[j]);
            }
        }
        if find_dot(s) < s.len() {
            assert(s.drop_first()[find_dot(s) - 1] == s[find_dot(s)]);
        }
    }
}

/// A position with no dot before it and a dot (or the end) on it is exactly
/// where `find_dot` points.
pub proof fn lemma_find_dot_at(s: Seq<char>, k: int)
    requires
        0 <= k <= s.len(),
        forall|j: int| 0 <= j < k ==> s[j] != '.',
        k < s.len() ==> s[k] == '.',
    ensures
        find_dot(s) == k,
    decreases k,
{
    if k == 0 {
    } else {
        assert(s[0] != '.');
        lemma_find_dot_at(s.drop_first(), k - 1);
    }
}

/// The segments of a dotted key: the text split on every `'.'`. The result
/// always holds at least one segment, and a key without dots is one segment.
pub open spec fn split_dots(s: Seq<char>) -> Seq<Seq<char>>
    decreases s.len(),
    via split_dots_decreases
{
    if find_dot(s) == s.len() {
        seq![s]
    } else {
        seq![s.take(find_dot(s))] + split_dots(s.skip(find_dot(s) + 1))
    }
}

#[via_fn]
proof fn split_dots_decreases(s: Seq<char>) {
    lemma_find_dot_bounds(s);
}

/// A dotless text splits into the single segment it is.
pub proof fn lemma_split_dots_dotless(s: Seq<char>)
    requires
        forall|j: int| 0 <= j < s.len() ==> s[j] != '.',
    ensures
        split_dots(s) == seq![s],
{
    lemma_find_dot_at(s, s.len() as int);
}

/// Splitting at the first dot: the dotless prefix is the first segment, and
/// the rest splits on its own.
pub proof fn lemma_split_dots_first_dot(s: Seq<char>, k: int)
    requires
        0 <= k < s.len(),
        forall|j: int| 0 <= j < k ==> s[j] != '.',
        s[k] == '.',
    ensures
        split_dots(s) == seq![s.take(k)] + split_dots(s.skip(k + 1)),
{
    lemma_find_dot_at(s, k);
}

/// Splits `key` into its dot-separated segments.
pub fn split_key(key: &str) -> (segs: Vec<String>)
    ensures
        segs.deep_view() == split_dots(key@),
        segs@.len() > 0,
{
    let n = key.unicode_len();
    let mut segs: Vec<String> = Vec::new();
    let mut start: usize = 0;
    let mut i: usize = 0;
    proof {
        assert(key@.skip(0) =~= key@);
        assert(segs.deep_view() + split_dots(key@) =~= split_dots(key@));
    }
    while i < n
        invariant
            start <= i <= n == key@.len(),
            forall|j: int| start <= j < i ==> key@[j] != '.',
            split_dots(key@) =~= segs.deep_view() + split_dots(key@.skip(start as int)),
        decreases n - i,
    {
        if key.get_char(i) == '.' {
            let seg = key.substring_char(start, i).to_owned();
            proof {
                let t = key@.skip(start as int);
                assert forall|j: int| 0 <= j < i - start implies t[j] != '.' by {
                    assert(t[j] == key@[start + j]);
                }
                assert(t[i - start] == key@[i as int]);
                lemma_split_dots_first_dot(t, i - start);
                assert(t.take(i - start) =~= key@.subrange(start as int, i as int));
                assert(t.skip(i - start + 1) =~= key@.skip(i as int + 1));
            }
            let ghost old_views = segs.deep_view();
            segs.push(seg);
            proof {
                assert(segs.deep_view() =~= old_views.push(seg@));
                assert(old_views.push(seg@) + split_dots(key@.skip(i as int + 1)) =~= old_views
                    + (seq![seg@] + split_dots(key@.skip(i as int + 1))));
            }
            start = i + 1;
        }
        i += 1;
    }
    let seg = key.substring_char(start, n).to_owned();
    proof {
        let t = key@.skip(start as int);
        assert forall|j: int| 0 <= j < t.len() implies t[j] != '.' by {
            assert(t[j] == key@[start + j]);
        }
        lemma_split_dots_dotless(t);
        assert(seg@ =~= t);
    }
    let ghost old_views = segs.deep_view();
    segs.push(seg);
    proof {
        assert(segs.deep_view() =~= old_views.push(seg@));
        assert(old_views.push(seg@) =~= old_views + seq![seg@]);
    }
    segs
}

} // verus!
