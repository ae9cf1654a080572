//! What the two ListenBrainz halves pick out of what they are given.

use vstd::prelude::*;
use crate::laws::records;
use crate::listenbrainz;
use crate::listenbrainz::FeedbackEntryView;
use crate::mbid;
use crate::text;
use crate::text::Text;

verus! {

/// The candidates of a feedback page are well-formed recordings that are not settled, each once,
/// and each is loved by a record of the page.
pub proof fn inbound_candidates_are_unsettled_loves(
    feedback: Seq<FeedbackEntryView>,
    settled: Set<Text>,
)
    ensures
        listenbrainz::inbound_wanted(feedback, settled).no_duplicates(),
        forall|mbid: Text| #[trigger]
            listenbrainz::inbound_wanted(feedback, settled).contains(mbid) <==> exists|i: int|
                0 <= i < feedback.len() && listenbrainz::loved(#[trigger] feedback[i], settled)
                    == Some(mbid),
        forall|i: int|
            0 <= i < listenbrainz::inbound_wanted(feedback, settled).len() ==> {
                let mbid = #[trigger] listenbrainz::inbound_wanted(feedback, settled)[i];
                mbid::mbid_shaped(mbid) && !settled.contains(mbid)
            },
{
    let pick = |e: FeedbackEntryView| listenbrainz::loved(e, settled);
    let all = feedback.filter_map(pick);
    let wanted = listenbrainz::inbound_wanted(feedback, settled);
    text::distinct_keeps_each_once(all);
    assert forall|mbid: Text| #[trigger] wanted.contains(mbid) <==> exists|i: int|
        0 <= i < feedback.len() && listenbrainz::loved(#[trigger] feedback[i], settled) == Some(
            mbid,
        ) by {
        if wanted.contains(mbid) {
            assert(all.contains(mbid));
            feedback.lemma_filter_map_contains(pick, mbid);
            let e = choose|e: FeedbackEntryView| #[trigger]
                feedback.contains(e) && pick(e) == Some(mbid);
            let i = choose|i: int| 0 <= i < feedback.len() && feedback[i] == e;
            assert(listenbrainz::loved(feedback[i], settled) == Some(mbid));
        }
        if exists|i: int|
            0 <= i < feedback.len() && listenbrainz::loved(#[trigger] feedback[i], settled)
                == Some(mbid) {
            let i = choose|i: int|
                0 <= i < feedback.len() && listenbrainz::loved(#[trigger] feedback[i], settled)
                    == Some(mbid);
            records::picked_is_kept(feedback, pick, i);
            assert(all.contains(mbid));
        }
    }
    assert forall|i: int| 0 <= i < wanted.len() implies {
        let mbid = #[trigger] wanted[i];
        mbid::mbid_shaped(mbid) && !settled.contains(mbid)
    } by {
        assert(wanted.contains(wanted[i]));
    }
}

/// The candidates among the starred songs are well-formed recordings that are not settled, each
/// once.
pub proof fn outbound_candidates_are_unsettled_stars(starred: Seq<Text>, settled: Set<Text>)
    ensures
        listenbrainz::outbound_wanted(starred, settled).no_duplicates(),
        forall|mbid: Text| #[trigger]
            listenbrainz::outbound_wanted(starred, settled).contains(mbid) <==> starred.contains(
                mbid,
            ) && mbid::mbid_shaped(mbid) && !settled.contains(mbid),
        forall|i: int|
            0 <= i < listenbrainz::outbound_wanted(starred, settled).len() ==> {
                let mbid = #[trigger] listenbrainz::outbound_wanted(starred, settled)[i];
                mbid::mbid_shaped(mbid) && !settled.contains(mbid)
            },
{
    let pick = |mbid: Text| listenbrainz::unloved(mbid, settled);
    let all = starred.filter_map(pick);
    let wanted = listenbrainz::outbound_wanted(starred, settled);
    text::distinct_keeps_each_once(all);
    assert forall|mbid: Text| #[trigger] wanted.contains(mbid) <==> starred.contains(mbid)
        && mbid::mbid_shaped(mbid) && !settled.contains(mbid) by {
        if wanted.contains(mbid) {
            assert(all.contains(mbid));
            starred.lemma_filter_map_contains(pick, mbid);
        }
        if starred.contains(mbid) && mbid::mbid_shaped(mbid) && !settled.contains(mbid) {
            let i = choose|i: int| 0 <= i < starred.len() && starred[i] == mbid;
            assert(pick(starred[i]) == Some(mbid));
            records::picked_is_kept(starred, pick, i);
            assert(all.contains(mbid));
        }
    }
    assert forall|i: int| 0 <= i < wanted.len() implies {
        let mbid = #[trigger] wanted[i];
        mbid::mbid_shaped(mbid) && !settled.contains(mbid)
    } by {
        assert(wanted.contains(wanted[i]));
    }
}

} // verus!
