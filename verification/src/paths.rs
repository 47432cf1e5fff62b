use vstd::prelude::*;

use crate::utils::chars_to_string;
use crate::utils::sanitized;
use crate::utils::spec_sanitize;

verus! {

/// One path segment appended below `root`: a separator is inserted unless
/// the root already ends in one (or is empty).
pub open spec fn spec_join(root: Seq<char>, seg: Seq<char>) -> Seq<char> {
    if root.len() == 0 {
        seg
    } else if root.last() == '/' {
        root + seg
    } else {
        root + seq!['/'] + seg
    }
}

/// Appends one path segment below `root`.
pub fn join_segment(root: &str, seg: &str) -> (joined: String)
    ensures
        joined@ == spec_join(root@, seg@),
{
    let n = root.unicode_len();
    if n == 0 {
        seg.to_owned()
    } else {
        let last = root.get_char(n - 1);
        let mut out = root.to_owned();
        if last != '/' {
            proof {
                reveal_strlit("/");
            }
            out.append("/");
        }
        out.append(seg);
        proof {
            assert(out@ =~= spec_join(root@, seg@));
        }
        out
    }
}

/// The non-empty `/`-separated segments of `s` from position `i` on, where
/// `cur` holds the partial segment read so far.
pub open spec fn spec_segments_from(s: Seq<char>, i: int, cur: Seq<char>) -> Seq<Seq<char>>
    decreases s.len() - i,
{
    if i < 0 || i >= s.len() {
        if cur.len() > 0 {
            seq![cur]
        } else {
            Seq::empty()
        }
    } else if s[i] == '/' {
        if cur.len() > 0 {
            seq![cur] + spec_segments_from(s, i + 1, Seq::empty())
        } else {
            spec_segments_from(s, i + 1, Seq::empty())
        }
    } else {
        spec_segments_from(s, i + 1, cur.push(s[i]))
    }
}

/// The non-empty segments of a forward-slash separated relative path;
/// empty segments (leading, trailing or doubled slashes) are discarded.
pub open spec fn spec_segments(s: Seq<char>) -> Seq<Seq<char>> {
    spec_segments_from(s, 0, Seq::empty())
}

/// Splits a relative path on `/`, discarding empty segments.
pub fn split_segments(path: &str) -> (segs: Vec<String>)
    ensures
        segs.deep_view() == spec_segments(path@),
{
    let n = path.unicode_len();
    let mut segs: Vec<String> = Vec::new();
    let mut cur: Vec<char> = Vec::new();
    let mut i: usize = 0;
    while i < n
        invariant
            n == path@.len(),
            i <= n,
            spec_segments(path@) == segs.deep_view() + spec_segments_from(path@, i as int, cur@),
        decreases n - i,
    {
        let ghost i0 = i as int;
        let ghost segs0 = segs.deep_view();
        let ghost cur0 = cur@;
        let c = path.get_char(i);
        if c == '/' {
            if cur.len() > 0 {
                let seg = chars_to_string(cur);
                segs.push(seg);
                cur = Vec::new();
                proof {
                    assert(spec_segments_from(path@, i0, cur0) == seq![cur0]
                        + spec_segments_from(path@, i0 + 1, Seq::empty()));
                    assert(segs.deep_view() =~= segs0 + seq![cur0]);
                    assert((segs0 + seq![cur0]) + spec_segments_from(path@, i0 + 1, Seq::empty())
                        =~= segs0 + (seq![cur0] + spec_segments_from(path@, i0 + 1, Seq::empty())));
                }
            } else {
                proof {
                    assert(cur0 =~= Seq::<char>::empty());
                    assert(spec_segments_from(path@, i0, cur0) == spec_segments_from(
                        path@,
                        i0 + 1,
                        Seq::empty(),
                    ));
                }
            }
        } else {
            cur.push(c);
            proof {
                assert(spec_segments_from(path@, i0, cur0) == spec_segments_from(
                    path@,
                    i0 + 1,
                    cur0.push(c),
                ));
            }
        }
        i = i + 1;
    }
    if cur.len() > 0 {
        let ghost old_segs = segs.deep_view();
        let ghost cur_view = cur@;
        segs.push(chars_to_string(cur));
        proof {
            assert(segs.deep_view() =~= old_segs + seq![cur_view]);
        }
    }
    proof {
        assert(segs.deep_view() =~= spec_segments(path@));
    }
    segs
}

/// `root` with every segment of `segs` sanitized and appended, in order.
pub open spec fn spec_append_sanitized(root: Seq<char>, segs: Seq<Seq<char>>) -> Seq<char>
    decreases segs.len(),
{
    if segs.len() == 0 {
        root
    } else {
        spec_append_sanitized(spec_join(root, spec_sanitize(segs[0])), segs.drop_first())
    }
}

/// `root` with the sanitized non-empty segments of `path` appended.
pub open spec fn spec_with_path(root: Seq<char>, path: Seq<char>) -> Seq<char> {
    spec_append_sanitized(root, spec_segments(path))
}

/// Appends every segment of `segs`, sanitized, below `root`.
pub fn append_sanitized(root: &str, segs: &Vec<String>) -> (out: String)
    ensures
        out@ == spec_append_sanitized(root@, segs.deep_view()),
{
    let mut out = root.to_owned();
    let mut i: usize = 0;
    proof {
        assert(segs.deep_view().skip(0) =~= segs.deep_view());
    }
    while i < segs.len()
        invariant
            i <= segs.len(),
            segs.deep_view().len() == segs.len(),
            spec_append_sanitized(root@, segs.deep_view()) == spec_append_sanitized(
                out@,
                segs.deep_view().skip(i as int),
            ),
        decreases segs.len() - i,
    {
        let ghost out0 = out@;
        let ghost rest = segs.deep_view().skip(i as int);
        let clean = sanitized(segs[i].as_str());
        out = join_segment(out.as_str(), clean.as_str());
        i = i + 1;
        proof {
            assert(rest[0] == segs.deep_view()[i - 1]);
            assert(spec_append_sanitized(out0, rest) == spec_append_sanitized(
                spec_join(out0, spec_sanitize(rest[0])),
                rest.drop_first(),
            ));
            assert(rest.drop_first() =~= segs.deep_view().skip(i as int));
        }
    }
    proof {
        assert(segs.deep_view().skip(i as int) =~= Seq::<Seq<char>>::empty());
        assert(spec_append_sanitized(out@, Seq::empty()) == out@);
    }
    out
}

/// A root is always a prefix of the path obtained by appending a segment
/// below it.
pub proof fn lemma_join_prefix(root: Seq<char>, seg: Seq<char>)
    ensures
        root.is_prefix_of(spec_join(root, seg)),
{
    if root.len() == 0 {
    } else if root.last() == '/' {
        assert(root =~= (root + seg).subrange(0, root.len() as int));
    } else {
        assert(root =~= (root + seq!['/'] + seg).subrange(0, root.len() as int));
    }
}

/// Prefixes compose: a prefix of a prefix is a prefix.
pub proof fn lemma_prefix_transitive(a: Seq<char>, b: Seq<char>, c: Seq<char>)
    requires
        a.is_prefix_of(b),
        b.is_prefix_of(c),
    ensures
        a.is_prefix_of(c),
{
    assert(a =~= c.subrange(0, a.len() as int));
}

/// A root is always a prefix of the path obtained by appending any
/// sanitized segments below it.
pub proof fn lemma_append_sanitized_prefix(root: Seq<char>, segs: Seq<Seq<char>>)
    ensures
        root.is_prefix_of(spec_append_sanitized(root, segs)),
    decreases segs.len(),
{
    if segs.len() == 0 {
    } else {
        let joined = spec_join(root, spec_sanitize(segs[0]));
        lemma_join_prefix(root, spec_sanitize(segs[0]));
        lemma_append_sanitized_prefix(joined, segs.drop_first());
        lemma_prefix_transitive(root, joined, spec_append_sanitized(joined, segs.drop_first()));
    }
}

} // verus!
