//! The event streamer: live, unicast push of one job's status.
//!
//! A streaming connection polls the status reader on a fixed cadence. Each
//! poll that returns a snapshot is pushed to the client as one event; the
//! first poll that finds the job absent ends the stream cleanly, with no
//! error event — "job finished" and "job was never there" are
//! indistinguishable by design. This module holds the decision the loop
//! makes at every poll and the meaning of a whole poll sequence; the
//! connection plumbing, the cadence timer and the cancellation on client
//! disconnect live with the transport.

use vstd::prelude::*;
use crate::queue::{status_views, StatusMap};

verus! {

/// What the streamer does after one poll: push one event and keep the
/// connection open, or close it cleanly.
pub enum StreamAction {
    /// Push the polled snapshot to the client as one event and poll again.
    Emit(StatusMap),
    /// The job is absent: end the stream, with no error event.
    Close,
}

/// The decision the streaming loop makes at every poll: a present snapshot
/// is emitted verbatim, an absent one closes the stream.
pub fn stream_step(poll: Option<StatusMap>) -> (a: StreamAction)
    ensures
        poll matches Some(m) ==> (a matches StreamAction::Emit(e) && e@ == m@),
        poll is None ==> a is Close,
{
    match poll {
        Some(m) => StreamAction::Emit(m),
        None => StreamAction::Close,
    }
}

/// The view of one poll outcome.
pub open spec fn poll_view(poll: Option<StatusMap>) -> Option<Map<Seq<char>, Seq<char>>> {
    match poll {
        Some(m) => Some(m@),
        None => None,
    }
}

/// The views of a sequence of poll outcomes, in poll order.
pub open spec fn poll_views(polls: Seq<Option<StatusMap>>) -> Seq<
    Option<Map<Seq<char>, Seq<char>>>,
> {
    polls.map_values(|p: Option<StatusMap>| poll_view(p))
}

/// The events a stream delivers for a sequence of poll outcomes: every
/// snapshot up to, and not including, the first absent poll. Nothing is
/// emitted after absence, and nothing is replayed from before the
/// connection.
pub open spec fn emitted(polls: Seq<Option<Map<Seq<char>, Seq<char>>>>) -> Seq<
    Map<Seq<char>, Seq<char>>,
>
    decreases polls.len(),
{
    if polls.len() == 0 {
        Seq::empty()
    } else {
        match polls[0] {
            Some(m) => seq![m] + emitted(polls.skip(1)),
            None => Seq::empty(),
        }
    }
}

/// Runs one streaming connection over a recorded sequence of poll outcomes,
/// deciding each step with [`stream_step`], and returns the events it
/// delivered: every snapshot before the first absence, in order.
pub fn run_stream(polls: &Vec<Option<StatusMap>>) -> (events: Vec<StatusMap>)
    ensures
        status_views(events@) == emitted(poll_views(polls@)),
{
    let ghost pv = poll_views(polls@);
    let mut events: Vec<StatusMap> = Vec::new();
    let mut open = true;
    let mut i: usize = 0;
    proof {
        assert(pv.skip(0) =~= pv);
        assert(status_views(events@) + emitted(pv) =~= emitted(pv));
    }
    while open && i < polls.len()
        invariant
            i <= polls.len(),
            pv == poll_views(polls@),
            open ==> emitted(pv) == status_views(events@) + emitted(pv.skip(i as int)),
            !open ==> emitted(pv) == status_views(events@),
        decreases polls.len() - i, if open {
            1int
        } else {
            0int
        },
    {
        let poll: Option<StatusMap> = match &polls[i] {
            Some(m) => Some(m.duplicate()),
            None => None,
        };
        proof {
            assert(pv.skip(i as int)[0] == pv[i as int]);
            assert(pv.skip(i as int).skip(1) =~= pv.skip(i + 1));
        }
        match stream_step(poll) {
            StreamAction::Emit(m) => {
                let ghost prev = events@;
                events.push(m);
                proof {
                    assert(status_views(events@) =~= status_views(prev).push(events@.last()@));
                    assert(status_views(events@) + emitted(pv.skip(i + 1)) =~= status_views(prev)
                        + (seq![events@.last()@] + emitted(pv.skip(i + 1))));
                }
                i += 1;
            },
            StreamAction::Close => {
                proof {
                    assert(emitted(pv.skip(i as int)) =~= Seq::<Map<Seq<char>, Seq<char>>>::empty());
                    assert(status_views(events@) + emitted(pv.skip(i as int)) =~= status_views(
                        events@,
                    ));
                }
                open = false;
            },
        }
    }
    proof {
        if open {
            assert(pv.skip(polls@.len() as int) =~= Seq::<Option<Map<Seq<char>, Seq<char>>>>::empty());
            assert(status_views(events@) + emitted(pv.skip(polls@.len() as int)) =~= status_views(
                events@,
            ));
        }
    }
    events
}

/// Law: a stream opened for a job that is already absent terminates without
/// emitting any event.
pub proof fn lemma_stream_absent_silent(polls: Seq<Option<Map<Seq<char>, Seq<char>>>>)
    requires
        polls.len() == 0 || polls[0] is None,
    ensures
        emitted(polls).len() == 0,
{
}

/// Law: a stream opened for an active job emits at least one event, and the
/// first event carries exactly the status fields the first poll saw.
pub proof fn lemma_stream_active_emits(
    polls: Seq<Option<Map<Seq<char>, Seq<char>>>>,
    first: Map<Seq<char>, Seq<char>>,
)
    requires
        polls.len() > 0,
        polls[0] == Some(first),
    ensures
        emitted(polls).len() >= 1,
        emitted(polls)[0] == first,
{
}

/// Law: once a poll finds the job absent, nothing further is emitted: the
/// stream delivers at most one event per poll made before the absence, so
/// it stops within one poll interval of the job disappearing.
pub proof fn lemma_stream_stops_at_absence(
    polls: Seq<Option<Map<Seq<char>, Seq<char>>>>,
    k: int,
)
    requires
        0 <= k < polls.len(),
        polls[k] is None,
    ensures
        emitted(polls).len() <= k,
    decreases k,
{
    if polls[0] is None {
    } else {
        assert(polls.skip(1)[k - 1] == polls[k]);
        lemma_stream_stops_at_absence(polls.skip(1), k - 1);
    }
}

} // verus!
