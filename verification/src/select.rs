use vstd::prelude::*;

verus! {

/// Whether any candidate is flagged as already existing on disk.
pub open spec fn spec_any(flags: Seq<bool>) -> bool {
    exists|i: int| 0 <= i < flags.len() && flags[i]
}

/// The flagged candidates from position `i` on, in their original order.
pub open spec fn spec_keep_from(cands: Seq<Seq<char>>, flags: Seq<bool>, i: int) -> Seq<Seq<char>>
    decreases cands.len() - i,
{
    if i < 0 || i >= cands.len() || i >= flags.len() {
        Seq::empty()
    } else {
        let rest = spec_keep_from(cands, flags, i + 1);
        if flags[i] {
            seq![cands[i]] + rest
        } else {
            rest
        }
    }
}

/// The existence-based narrowing rule: when at least one candidate already
/// exists on disk (its flag is set), only the existing candidates are kept,
/// in their original order; when none exists, the whole list is returned
/// unchanged.
pub open spec fn spec_narrow(cands: Seq<Seq<char>>, flags: Seq<bool>) -> Seq<Seq<char>> {
    if spec_any(flags) {
        spec_keep_from(cands, flags, 0)
    } else {
        cands
    }
}

/// The index of the candidate that heads the narrowed list: the first
/// flagged one, or the first of all when none is flagged.
pub open spec fn spec_first_kept(flags: Seq<bool>, i: int) -> int
    decreases flags.len() - i,
{
    if i < 0 || i >= flags.len() {
        0
    } else if flags[i] {
        i
    } else {
        spec_first_kept(flags, i + 1)
    }
}

/// Applies the narrowing rule to `cands`, where `flags[i]` records whether
/// `cands[i]` already exists on disk.
pub fn narrow_candidates(cands: Vec<String>, flags: &Vec<bool>) -> (kept: Vec<String>)
    requires
        cands@.len() == flags@.len(),
    ensures
        kept.deep_view() == spec_narrow(cands.deep_view(), flags@),
{
    let mut any = false;
    let mut i: usize = 0;
    while i < flags.len()
        invariant
            i <= flags.len(),
            any == spec_any(flags@.take(i as int)),
        decreases flags.len() - i,
    {
        let ghost i0 = i as int;
        let fi = flags[i];
        if fi {
            any = true;
        }
        i = i + 1;
        proof {
            let pre = flags@.take(i0);
            let post = flags@.take(i0 + 1);
            if spec_any(pre) {
                let w = choose|w: int| 0 <= w < pre.len() && pre[w];
                assert(post[w]);
                assert(spec_any(post));
            }
            if fi {
                assert(post[i0]);
                assert(spec_any(post));
            }
            if spec_any(post) {
                let w = choose|w: int| 0 <= w < post.len() && post[w];
                if w < i0 {
                    assert(pre[w]);
                    assert(spec_any(pre));
                }
            }
        }
    }
    proof {
        assert(flags@.take(flags@.len() as int) =~= flags@);
    }
    if !any {
        proof {
            assert(cands.deep_view() == spec_narrow(cands.deep_view(), flags@));
        }
        return cands;
    }
    let ghost cdv = cands.deep_view();
    let mut kept: Vec<String> = Vec::new();
    let mut i: usize = 0;
    while i < cands.len()
        invariant
            i <= cands.len(),
            cands@.len() == flags@.len(),
            cdv == cands.deep_view(),
            cdv.len() == cands@.len(),
            spec_keep_from(cdv, flags@, 0) == kept.deep_view() + spec_keep_from(
                cdv,
                flags@,
                i as int,
            ),
        decreases cands.len() - i,
    {
        let ghost i0 = i as int;
        let ghost kept0 = kept.deep_view();
        if flags[i] {
            let c = cands[i].clone();
            kept.push(c);
            proof {
                assert(kept.deep_view() =~= kept0 + seq![cdv[i0]]);
                assert(spec_keep_from(cdv, flags@, i0) == seq![cdv[i0]] + spec_keep_from(
                    cdv,
                    flags@,
                    i0 + 1,
                ));
                assert((kept0 + seq![cdv[i0]]) + spec_keep_from(cdv, flags@, i0 + 1) =~= kept0 + (
                seq![cdv[i0]] + spec_keep_from(cdv, flags@, i0 + 1)));
            }
        } else {
            proof {
                assert(spec_keep_from(cdv, flags@, i0) == spec_keep_from(cdv, flags@, i0 + 1));
            }
        }
        i = i + 1;
    }
    proof {
        assert(spec_keep_from(cdv, flags@, cands@.len() as int) =~= Seq::<Seq<char>>::empty());
        assert(kept.deep_view() =~= kept.deep_view() + Seq::<Seq<char>>::empty());
    }
    kept
}

/// Narrowing never empties a non-empty candidate list.
pub proof fn lemma_narrow_nonempty(cands: Seq<Seq<char>>, flags: Seq<bool>)
    requires
        cands.len() == flags.len(),
        cands.len() > 0,
    ensures
        spec_narrow(cands, flags).len() > 0,
{
    if spec_any(flags) {
        let w = choose|w: int| 0 <= w < flags.len() && flags[w];
        lemma_keep_from_nonempty(cands, flags, 0, w);
    }
}

/// If some candidate at or after `i` is flagged, the kept list from `i` is
/// non-empty.
proof fn lemma_keep_from_nonempty(cands: Seq<Seq<char>>, flags: Seq<bool>, i: int, w: int)
    requires
        cands.len() == flags.len(),
        0 <= i <= w < flags.len(),
        flags[w],
    ensures
        spec_keep_from(cands, flags, i).len() > 0,
    decreases w - i,
{
    if i < w && !flags[i] {
        lemma_keep_from_nonempty(cands, flags, i + 1, w);
    } else if i < w && flags[i] {
    }
}

/// The head of the narrowed list is the first flagged candidate, or the
/// first candidate overall when none is flagged. This is how the single
/// "best root" accessors relate to the multi-root queries.
pub proof fn lemma_narrow_head(cands: Seq<Seq<char>>, flags: Seq<bool>)
    requires
        cands.len() == flags.len(),
        cands.len() > 0,
    ensures
        spec_narrow(cands, flags).len() > 0,
        spec_narrow(cands, flags)[0] == cands[spec_first_kept(flags, 0)],
        0 <= spec_first_kept(flags, 0) < cands.len(),
{
    lemma_narrow_nonempty(cands, flags);
    if spec_any(flags) {
        let w = choose|w: int| 0 <= w < flags.len() && flags[w];
        lemma_keep_from_head(cands, flags, 0, w);
    } else {
        lemma_first_kept_none(flags, 0);
    }
}

/// When no flag is set at all, the first kept index defaults to zero.
pub proof fn lemma_first_kept_none(flags: Seq<bool>, i: int)
    requires
        forall|j: int| 0 <= j < flags.len() ==> !flags[j],
        0 <= i,
    ensures
        spec_first_kept(flags, i) == 0,
    decreases flags.len() - i,
{
    if i < flags.len() {
        lemma_first_kept_none(flags, i + 1);
    }
}

/// With a flagged candidate at or after `i`, the kept list from `i` starts
/// with the candidate at the first flagged index from `i`.
proof fn lemma_keep_from_head(cands: Seq<Seq<char>>, flags: Seq<bool>, i: int, w: int)
    requires
        cands.len() == flags.len(),
        0 <= i <= w < flags.len(),
        flags[w],
    ensures
        spec_keep_from(cands, flags, i).len() > 0,
        spec_keep_from(cands, flags, i)[0] == cands[spec_first_kept(flags, i)],
        i <= spec_first_kept(flags, i) < flags.len(),
    decreases w - i,
{
    lemma_keep_from_nonempty(cands, flags, i, w);
    if !flags[i] {
        lemma_keep_from_head(cands, flags, i + 1, w);
    }
}

/// The narrowing law for a single survivor: when exactly one candidate is
/// flagged as existing, the narrowed list is exactly that one candidate.
pub proof fn lemma_narrow_unique(cands: Seq<Seq<char>>, flags: Seq<bool>, k: int)
    requires
        cands.len() == flags.len(),
        0 <= k < flags.len(),
        flags[k],
        forall|j: int| 0 <= j < flags.len() && j != k ==> !flags[j],
    ensures
        spec_narrow(cands, flags) =~= seq![cands[k]],
{
    lemma_keep_from_unique(cands, flags, 0, k);
}

/// Helper for `lemma_narrow_unique`: from any position at or before the one
/// flagged index, the kept list is exactly that candidate.
proof fn lemma_keep_from_unique(cands: Seq<Seq<char>>, flags: Seq<bool>, i: int, k: int)
    requires
        cands.len() == flags.len(),
        0 <= i <= k < flags.len(),
        flags[k],
        forall|j: int| 0 <= j < flags.len() && j != k ==> !flags[j],
    ensures
        spec_keep_from(cands, flags, i) =~= seq![cands[k]],
    decreases k - i,
{
    if i < k {
        lemma_keep_from_unique(cands, flags, i + 1, k);
    } else {
        lemma_keep_from_empty(cands, flags, k + 1);
    }
}

/// When no flag is set at or after `i`, nothing is kept from `i` on.
proof fn lemma_keep_from_empty(cands: Seq<Seq<char>>, flags: Seq<bool>, i: int)
    requires
        cands.len() == flags.len(),
        forall|j: int| i <= j < flags.len() ==> !flags[j],
        0 <= i,
    ensures
        spec_keep_from(cands, flags, i) =~= Seq::<Seq<char>>::empty(),
    decreases cands.len() - i,
{
    if i < cands.len() {
        lemma_keep_from_empty(cands, flags, i + 1);
    }
}

/// Narrowing a single-candidate list keeps that candidate: with only one
/// entry, existence evidence cannot change the outcome.
pub proof fn lemma_narrow_singleton(cands: Seq<Seq<char>>, flags: Seq<bool>)
    requires
        cands.len() == 1,
        flags.len() == 1,
    ensures
        spec_narrow(cands, flags) == cands,
{
    if spec_any(flags) {
        let w = choose|w: int| 0 <= w < flags.len() && flags[w];
        assert(w == 0);
        assert(spec_keep_from(cands, flags, 1) =~= Seq::<Seq<char>>::empty());
        assert(spec_keep_from(cands, flags, 0) =~= cands);
    }
}

/// Narrowing invents nothing: every entry of the narrowed list is one of
/// the original candidates.
pub proof fn lemma_narrow_membership(cands: Seq<Seq<char>>, flags: Seq<bool>)
    requires
        cands.len() == flags.len(),
    ensures
        forall|k: int|
            0 <= k < spec_narrow(cands, flags).len() ==> cands.contains(
                #[trigger] spec_narrow(cands, flags)[k],
            ),
{
    if spec_any(flags) {
        lemma_keep_from_membership(cands, flags, 0);
        assert forall|k: int| 0 <= k < spec_narrow(cands, flags).len() implies cands.contains(
            #[trigger] spec_narrow(cands, flags)[k],
        ) by {
            assert(spec_narrow(cands, flags)[k] == spec_keep_from(cands, flags, 0)[k]);
        }
    } else {
        assert forall|k: int| 0 <= k < spec_narrow(cands, flags).len() implies cands.contains(
            #[trigger] spec_narrow(cands, flags)[k],
        ) by {
            assert(spec_narrow(cands, flags)[k] == cands[k]);
        }
    }
}

/// Helper for [`lemma_narrow_membership`]: every entry kept from `i` on is
/// one of the candidates.
proof fn lemma_keep_from_membership(cands: Seq<Seq<char>>, flags: Seq<bool>, i: int)
    requires
        cands.len() == flags.len(),
        0 <= i,
    ensures
        forall|k: int|
            0 <= k < spec_keep_from(cands, flags, i).len() ==> cands.contains(
                #[trigger] spec_keep_from(cands, flags, i)[k],
            ),
    decreases cands.len() - i,
{
    if i < cands.len() {
        lemma_keep_from_membership(cands, flags, i + 1);
        let kept = spec_keep_from(cands, flags, i);
        let rest = spec_keep_from(cands, flags, i + 1);
        assert forall|k: int| 0 <= k < kept.len() implies cands.contains(#[trigger] kept[k]) by {
            if flags[i] {
                if k == 0 {
                    assert(kept[k] == cands[i]);
                } else {
                    assert(kept[k] == rest[k - 1]);
                    assert(cands.contains(rest[k - 1]));
                }
            } else {
                assert(kept[k] == rest[k]);
                assert(cands.contains(rest[k]));
            }
        }
    }
}

/// The narrowing law for no survivor: when no candidate is flagged, the
/// candidate list is returned whole, in its original order.
pub proof fn lemma_narrow_none(cands: Seq<Seq<char>>, flags: Seq<bool>)
    requires
        forall|j: int| 0 <= j < flags.len() ==> !flags[j],
    ensures
        spec_narrow(cands, flags) == cands,
{
}

} // verus!
