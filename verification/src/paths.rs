//! Path strings as character sequences: joining with `/`, prefix and
//! suffix tests, the final path component, and suffix filtering of an
//! enumerated file list.

use vstd::prelude::*;

verus! {

/// Joining a directory path and a further component with a single `/`.
pub open spec fn join_seq(a: Seq<char>, b: Seq<char>) -> Seq<char> {
    if a.len() == 0 {
        b
    } else if a.last() == '/' {
        a + b
    } else {
        a + seq!['/'] + b
    }
}

/// `p` is a prefix of `s`.
pub open spec fn is_prefix_of(p: Seq<char>, s: Seq<char>) -> bool {
    p.len() <= s.len() && s.subrange(0, p.len() as int) == p
}

/// `t` is a suffix of `s`.
pub open spec fn is_suffix_of(t: Seq<char>, s: Seq<char>) -> bool {
    t.len() <= s.len() && s.subrange(s.len() - t.len(), s.len() as int) == t
}

/// What follows the last `/` of `s` (all of `s` when it has no `/`).
pub open spec fn basename_seq(s: Seq<char>) -> Seq<char>
    decreases s.len(),
{
    if s.len() == 0 {
        s
    } else if s.last() == '/' {
        Seq::empty()
    } else {
        basename_seq(s.drop_last()).push(s.last())
    }
}

/// Joins a directory path and a name with a `/` separator, inserting the
/// separator only when one is not already there.
pub fn join_path(a: &str, b: &str) -> (r: String)
    ensures
        r@ == join_seq(a@, b@),
{
    let a_len: usize = a.unicode_len();
    if a_len == 0 {
        let r = String::from_str(b);
        assert(r@ =~= join_seq(a@, b@));
        r
    } else if a.get_char(a_len - 1) == '/' {
        let r = String::from_str(a).concat(b);
        assert(r@ =~= join_seq(a@, b@));
        r
    } else {
        proof {
            reveal_strlit("/");
            assert("/"@ =~= seq!['/']);
        }
        let r = String::from_str(a).concat("/").concat(b);
        assert(r@ =~= join_seq(a@, b@));
        r
    }
}

/// Whether `p` is a prefix of `s`, compared character by character.
pub fn starts_with(s: &str, p: &str) -> (r: bool)
    ensures
        r == is_prefix_of(p@, s@),
{
    let p_len: usize = p.unicode_len();
    let s_len: usize = s.unicode_len();
    if p_len > s_len {
        return false;
    }
    let mut i: usize = 0;
    while i < p_len
        invariant
            0 <= i <= p_len,
            p_len == p@.len(),
            p_len <= s_len == s@.len(),
            forall|j: int| 0 <= j < i ==> s@[j] == p@[j],
        decreases p_len - i,
    {
        if s.get_char(i) != p.get_char(i) {
            assert(!is_prefix_of(p@, s@)) by {
                assert(s@.subrange(0, p@.len() as int)[i as int] == s@[i as int]);
            }
            return false;
        }
        i += 1;
    }
    assert(s@.subrange(0, p@.len() as int) =~= p@);
    true
}

/// Whether `t` is a suffix of `s`, compared character by character.
pub fn ends_with(s: &str, t: &str) -> (r: bool)
    ensures
        r == is_suffix_of(t@, s@),
{
    let t_len: usize = t.unicode_len();
    let s_len: usize = s.unicode_len();
    if t_len > s_len {
        return false;
    }
    let off: usize = s_len - t_len;
    let mut i: usize = 0;
    while i < t_len
        invariant
            0 <= i <= t_len,
            t_len == t@.len(),
            t_len <= s_len == s@.len(),
            off == s_len - t_len,
            forall|j: int| 0 <= j < i ==> s@[off + j] == t@[j],
        decreases t_len - i,
    {
        if s.get_char(off + i) != t.get_char(i) {
            assert(!is_suffix_of(t@, s@)) by {
                assert(s@.subrange(s@.len() - t@.len(), s@.len() as int)[i as int] == s@[off + i]);
            }
            return false;
        }
        i += 1;
    }
    assert(s@.subrange(s@.len() - t@.len(), s@.len() as int) =~= t@);
    true
}

/// When every character from position `k` on differs from `/`, and `k` is
/// either the start or just past a `/`, the basename is the tail from `k`.
proof fn lemma_basename_subrange(s: Seq<char>, k: int)
    requires
        0 <= k <= s.len(),
        forall|j: int| k <= j < s.len() ==> s[j] != '/',
        k == 0 || s[k - 1] == '/',
    ensures
        basename_seq(s) == s.subrange(k, s.len() as int),
    decreases s.len(),
{
    if s.len() == k {
        if k == 0 {
            assert(basename_seq(s) =~= s.subrange(0, 0));
        } else {
            assert(s.last() == '/');
            assert(basename_seq(s) =~= s.subrange(k, s.len() as int));
        }
    } else {
        assert(s.last() != '/');
        lemma_basename_subrange(s.drop_last(), k);
        assert(basename_seq(s) =~= s.subrange(k, s.len() as int));
    }
}

/// The final path component of `s`: what follows its last `/`.
pub fn basename(s: &str) -> (r: String)
    ensures
        r@ == basename_seq(s@),
{
    let s_len: usize = s.unicode_len();
    let mut k: usize = s_len;
    let mut found: bool = false;
    while k > 0 && !found
        invariant
            0 <= k <= s_len == s@.len(),
            forall|j: int| k <= j < s_len ==> s@[j] != '/',
            found ==> k > 0 && s@[k - 1] == '/',
        decreases k + (if found { 0int } else { 1int }),
    {
        if s.get_char(k - 1) == '/' {
            found = true;
        } else {
            k -= 1;
        }
    }
    assert(k == 0 || s@[k - 1] == '/');
    let r = String::from_str(s.substring_char(k, s_len));
    proof {
        lemma_basename_subrange(s@, k as int);
    }
    r
}

/// Whether an entry passes the optional suffix filter.
pub open spec fn keeps(s: Seq<char>, filt: Option<Seq<char>>) -> bool {
    match filt {
        Option::None => true,
        Option::Some(f) => is_suffix_of(f, s),
    }
}

/// The subsequence of `entries` passing the filter, in order.
pub open spec fn filter_seq(entries: Seq<Seq<char>>, filt: Option<Seq<char>>) -> Seq<Seq<char>>
    decreases entries.len(),
{
    if entries.len() == 0 {
        Seq::empty()
    } else if keeps(entries.last(), filt) {
        filter_seq(entries.drop_last(), filt).push(entries.last())
    } else {
        filter_seq(entries.drop_last(), filt)
    }
}

/// The view of an optional suffix.
pub open spec fn suffix_view(filt: Option<String>) -> Option<Seq<char>> {
    match filt {
        Option::None => Option::None,
        Option::Some(f) => Option::Some(f@),
    }
}

/// Keeps, in order, the entries that end with the given suffix (all of
/// them when no suffix is given).
pub fn filter_by_suffix(entries: &Vec<String>, suffix: &Option<String>) -> (r: Vec<String>)
    ensures
        r.deep_view() == filter_seq(entries.deep_view(), suffix_view(*suffix)),
{
    let mut r: Vec<String> = Vec::new();
    let mut i: usize = 0;
    while i < entries.len()
        invariant
            0 <= i <= entries@.len(),
            entries.deep_view().len() == entries@.len(),
            r.deep_view() == filter_seq(
                entries.deep_view().subrange(0, i as int),
                suffix_view(*suffix),
            ),
        decreases entries@.len() - i,
    {
        let keep: bool = match suffix {
            Option::None => true,
            Option::Some(f) => ends_with(entries[i].as_str(), f.as_str()),
        };
        proof {
            assert(entries.deep_view().subrange(0, i + 1).drop_last() =~= entries.deep_view()
                .subrange(0, i as int));
            assert(entries.deep_view().subrange(0, i + 1).last() == entries.deep_view()[i as int]);
            assert(entries.deep_view()[i as int] == entries@[i as int]@);
        }
        if keep {
            r.push(entries[i].clone());
            assert(r.deep_view() =~= filter_seq(
                entries.deep_view().subrange(0, i + 1),
                suffix_view(*suffix),
            ));
        } else {
            assert(r.deep_view() =~= filter_seq(
                entries.deep_view().subrange(0, i + 1),
                suffix_view(*suffix),
            ));
        }
        i += 1;
    }
    proof {
        assert(entries.deep_view().subrange(0, entries.deep_view().len() as int) =~= entries
            .deep_view());
    }
    r
}

} // verus!
