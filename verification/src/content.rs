//! Counting and finding the adaptation sets of a manifest by content type,
//! and the check that a manifest has exactly one video and one audio set.

use vstd::prelude::*;
use crate::mpd::{ContentType, InvalidMpd};

verus! {

/// Something that carries a content type (an adaptation set).
pub trait ContentTyped {
    spec fn kind(&self) -> ContentType;

    fn content_type_of(&self) -> (ct: ContentType)
        ensures
            ct == self.kind(),
    ;
}

/// The number of adaptation sets of content type `ct`.
pub open spec fn count_content<A: ContentTyped>(sets: Seq<A>, ct: ContentType) -> nat
    decreases sets.len(),
{
    if sets.len() == 0 {
        0
    } else {
        count_content(sets.drop_last(), ct) + if sets.last().kind() == ct {
            1nat
        } else {
            0nat
        }
    }
}

/// The index of the first adaptation set of content type `ct`
/// (the length of `sets` where there is none).
pub open spec fn first_index<A: ContentTyped>(sets: Seq<A>, ct: ContentType) -> int
    decreases sets.len(),
{
    if sets.len() == 0 {
        0
    } else if sets[0].kind() == ct {
        0
    } else {
        1 + first_index(sets.drop_first(), ct)
    }
}

/// Whether some adaptation set has content type `ct`.
pub open spec fn has_content<A: ContentTyped>(sets: Seq<A>, ct: ContentType) -> bool {
    exists|j: int| 0 <= j < sets.len() && #[trigger] sets[j].kind() == ct
}

/// The error text for a manifest without exactly one video set.
pub open spec fn video_count_error() -> Seq<char> {
    "Manifest does not have exactly 1 'video' element"@
}

/// The error text for a manifest without exactly one audio set.
pub open spec fn audio_count_error() -> Seq<char> {
    "Manifest does not have exactly 1 'audio' element"@
}


/// The sets hold exactly one video and exactly one audio set.
pub open spec fn tracks_valid<A: ContentTyped>(sets: Seq<A>) -> bool {
    &&& count_content(sets, ContentType::VIDEO) == 1
    &&& count_content(sets, ContentType::AUDIO) == 1
}

/// The error text for sets that are not `tracks_valid`: the video count is
/// checked first.
pub open spec fn tracks_error<A: ContentTyped>(sets: Seq<A>) -> Seq<char> {
    if count_content(sets, ContentType::VIDEO) != 1 {
        video_count_error()
    } else {
        audio_count_error()
    }
}

/// The number of sets of content type `ct`.
pub fn count_in<A: ContentTyped>(sets: &Vec<A>, ct: ContentType) -> (n: usize)
    ensures
        n == count_content(sets@, ct),
{
    let mut n: usize = 0;
    for i in 0..sets.len()
        invariant
            n == count_content(sets@.take(i as int), ct),
            n <= i,
    {
        assert(sets@.take(i + 1).drop_last() =~= sets@.take(i as int));
        if sets[i].content_type_of() == ct {
            n = n + 1;
        }
    }
    assert(sets@.take(sets@.len() as int) =~= sets@);
    n
}

/// The position of the first set of content type `ct`.
pub fn find_in<A: ContentTyped>(sets: &Vec<A>, ct: ContentType) -> (i: usize)
    requires
        has_content(sets@, ct),
    ensures
        i == first_index(sets@, ct),
        i < sets@.len(),
        sets@[i as int].kind() == ct,
{
    let mut i: usize = 0;
    while i < sets.len()
        invariant
            i <= sets@.len(),
            forall|j: int| 0 <= j < i ==> sets@[j].kind() != ct,
            has_content(sets@, ct),
        decreases sets@.len() - i,
    {
        if sets[i].content_type_of() == ct {
            proof {
                lemma_first_index(sets@, ct, i as int);
            }
            return i;
        }
        i = i + 1;
    }
    i
}

/// Accepts sets with exactly one video and exactly one audio set.
pub fn check_tracks<A: ContentTyped>(sets: &Vec<A>) -> (r: Result<(), InvalidMpd>)
    ensures
        r is Ok <==> tracks_valid(sets@),
        r matches Err(e) ==> e.error@ == tracks_error(sets@),
{
    if count_in(sets, ContentType::VIDEO) != 1 {
        return Err(
            InvalidMpd {
                error: String::from_str("Manifest does not have exactly 1 'video' element"),
            },
        );
    }
    if count_in(sets, ContentType::AUDIO) != 1 {
        return Err(
            InvalidMpd {
                error: String::from_str("Manifest does not have exactly 1 'audio' element"),
            },
        );
    }
    Ok(())
}

/// `first_index` is the least index of a set of content type `ct`.
pub proof fn lemma_first_index<A: ContentTyped>(sets: Seq<A>, ct: ContentType, i: int)
    requires
        0 <= i < sets.len(),
        sets[i].kind() == ct,
        forall|j: int| 0 <= j < i ==> sets[j].kind() != ct,
    ensures
        first_index(sets, ct) == i,
    decreases i,
{
    if i > 0 {
        assert forall|j: int| 0 <= j < i - 1 implies sets.drop_first()[j].kind() != ct by {
            assert(sets.drop_first()[j] == sets[j + 1]);
        }
        lemma_first_index(sets.drop_first(), ct, i - 1);
    }
}

proof fn lemma_count_has<A: ContentTyped>(sets: Seq<A>, ct: ContentType)
    ensures
        count_content(sets, ct) > 0 <==> has_content(sets, ct),
    decreases sets.len(),
{
    if sets.len() > 0 {
        let p = sets.drop_last();
        lemma_count_has(p, ct);
        if has_content(p, ct) {
            let j = choose|j: int| 0 <= j < p.len() && #[trigger] p[j].kind() == ct;
            assert(sets[j] == p[j]);
        }
        if has_content(sets, ct) && sets.last().kind() != ct {
            let j = choose|j: int| 0 <= j < sets.len() && #[trigger] sets[j].kind() == ct;
            assert(p[j] == sets[j]);
        }
    }
}

proof fn lemma_count_two<A: ContentTyped>(sets: Seq<A>, ct: ContentType, i: int, j: int)
    requires
        0 <= i < j < sets.len(),
        sets[i].kind() == ct,
        sets[j].kind() == ct,
    ensures
        count_content(sets, ct) >= 2,
    decreases sets.len(),
{
    let p = sets.drop_last();
    if j == sets.len() - 1 {
        assert(p[i] == sets[i]);
        lemma_count_has(p, ct);
    } else {
        assert(p[i] == sets[i] && p[j] == sets[j]);
        lemma_count_two(p, ct, i, j);
    }
}

proof fn lemma_first_index_props<A: ContentTyped>(sets: Seq<A>, ct: ContentType)
    requires
        has_content(sets, ct),
    ensures
        0 <= first_index(sets, ct) < sets.len(),
        sets[first_index(sets, ct)].kind() == ct,
    decreases sets.len(),
{
    if sets[0].kind() != ct {
        let t = sets.drop_first();
        let j = choose|j: int| 0 <= j < sets.len() && #[trigger] sets[j].kind() == ct;
        assert(t[j - 1] == sets[j]);
        lemma_first_index_props(t, ct);
    }
}

pub proof fn lemma_unique_content<A: ContentTyped>(sets: Seq<A>, ct: ContentType)
    requires
        count_content(sets, ct) == 1,
    ensures
        has_content(sets, ct),
        forall|j: int|
            0 <= j < sets.len() && #[trigger] sets[j].kind() == ct ==> j == first_index(
                sets,
                ct,
            ),
{
    lemma_count_has(sets, ct);
    lemma_first_index_props(sets, ct);
    let f = first_index(sets, ct);
    assert forall|j: int| 0 <= j < sets.len() && #[trigger] sets[j].kind() == ct implies j
        == f by {
        if j < f {
            lemma_count_two(sets, ct, j, f);
        } else if j > f {
            lemma_count_two(sets, ct, f, j);
        }
    }
}


} // verus!
