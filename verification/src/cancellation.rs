//! Results of work that can be cancelled, and how the results of the two
//! tracks of a download are combined.

use vstd::prelude::*;

verus! {

/// The result of cancellable work: `Err(None)` when it was cancelled,
/// `Err(Some(e))` when it failed with `e`.
pub type CancellableResult<T, E> = Result<T, Option<E>>;

/// The combined result of the video and the audio track: both results when
/// both succeeded; cancelled when either was cancelled (the video track's
/// cancellation is looked at first); otherwise the errors, video first.
pub open spec fn combined<T, E>(
    video: CancellableResult<T, E>,
    audio: CancellableResult<T, E>,
) -> CancellableResult<(T, T), Seq<E>> {
    match (video, audio) {
        (Ok(v), Ok(a)) => Ok((v, a)),
        (Err(None), _) => Err(None),
        (_, Err(None)) => Err(None),
        (Ok(_), Err(Some(e))) => Err(Some(seq![e])),
        (Err(Some(e)), Ok(_)) => Err(Some(seq![e])),
        (Err(Some(e1)), Err(Some(e2))) => Err(Some(seq![e1, e2])),
    }
}

/// 1 where the track failed (not cancelled), 0 otherwise.
pub open spec fn failed_count<T, E>(r: CancellableResult<T, E>) -> nat {
    if r matches Err(Some(_)) {
        1
    } else {
        0
    }
}

/// Law: the combined result succeeds exactly when both tracks succeed, with
/// both values; it is the cancellation exactly when either track was
/// cancelled; otherwise it is a list with one error per failed track, the
/// video track's error first and the audio track's error last.
pub proof fn lemma_combined_results<T, E>(
    video: CancellableResult<T, E>,
    audio: CancellableResult<T, E>,
)
    ensures
        combined(video, audio) is Ok <==> (video is Ok && audio is Ok),
        combined(video, audio) matches Ok((v, a)) ==> video == Ok::<T, Option<E>>(v) && audio
            == Ok::<T, Option<E>>(a),
        (combined(video, audio) matches Err(None)) <==> (video matches Err(None) || audio matches Err(
            None,
        )),
        combined(video, audio) matches Err(Some(es)) ==> es.len() == failed_count(video)
            + failed_count(audio) && es.len() > 0,
        combined(video, audio) matches Err(Some(es)) ==> (video matches Err(Some(e)) ==> es[0] == e),
        combined(video, audio) matches Err(Some(es)) ==> (audio matches Err(Some(e)) ==> es.last()
            == e),
{
}

/// Combines the results of the video and the audio track.
pub fn combine_track_results<T, E>(
    video: CancellableResult<T, E>,
    audio: CancellableResult<T, E>,
) -> (r: CancellableResult<(T, T), Vec<E>>)
    ensures
        match (r, combined(video, audio)) {
            (Ok(p), Ok(q)) => p == q,
            (Err(None), Err(None)) => true,
            (Err(Some(es)), Err(Some(fs))) => es@ == fs,
            _ => false,
        },
        r is Ok <==> (video is Ok && audio is Ok),
        r matches Ok((v, a)) ==> video == Ok::<T, Option<E>>(v) && audio == Ok::<T, Option<E>>(a),
        (r matches Err(None)) <==> (video matches Err(None) || audio matches Err(None)),
        r matches Err(Some(es)) ==> es@.len() == failed_count(video) + failed_count(audio) && es@.len()
            > 0,
        r matches Err(Some(es)) ==> (video matches Err(Some(e)) ==> es@[0] == e),
        r matches Err(Some(es)) ==> (audio matches Err(Some(e)) ==> es@.last() == e),
{
    proof {
        lemma_combined_results(video, audio);
    }
    match (video, audio) {
        (Ok(v), Ok(a)) => Ok((v, a)),
        (Err(None), _) => Err(None),
        (_, Err(None)) => Err(None),
        (Ok(_), Err(Some(e))) => {
            let mut es: Vec<E> = Vec::new();
            es.push(e);
            Err(Some(es))
        },
        (Err(Some(e)), Ok(_)) => {
            let mut es: Vec<E> = Vec::new();
            es.push(e);
            Err(Some(es))
        },
        (Err(Some(e1)), Err(Some(e2))) => {
            let mut es: Vec<E> = Vec::new();
            es.push(e1);
            es.push(e2);
            assert(es@ =~= seq![e1, e2]);
            Err(Some(es))
        },
    }
}

} // verus!
