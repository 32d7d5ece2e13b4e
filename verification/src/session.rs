//! One uplink session: the per-session deduplication of sampled labels and
//! the classification of inbound transport events.
//!
//! A session sends a sampled label as a frame exactly when it differs from the
//! last label the same session has sent; the dedup cursor starts empty, so the
//! first non-empty sample of every session is always sent.

use vstd::prelude::*;

verus! {

/// The label most recently sent over the current session's connection;
/// empty while nothing has been sent yet.
pub struct SessionState {
    pub last_sent: String,
}

/// What one sampling tick asks the transport to do.
pub enum TickOutcome {
    /// The label changed (or is the session's first): send it as a text frame.
    Send(String),
    /// The label equals the last sent one: nothing to send.
    Unchanged,
    /// The sampler could not resolve a foreground application.
    SampleFailed,
}

/// The mathematical sample: the label of one tick, if the sampler resolved one.
pub open spec fn view_sample(s: Option<String>) -> Option<Seq<char>> {
    match s {
        Some(l) => Some(l@),
        None => None,
    }
}

/// Whether a tick with dedup cursor `last` and sample `sample` sends a frame.
pub open spec fn tick_sends(last: Seq<char>, sample: Option<Seq<char>>) -> bool {
    match sample {
        Some(l) => l != last,
        None => false,
    }
}

/// The dedup cursor after such a tick.
pub open spec fn tick_next_last(last: Seq<char>, sample: Option<Seq<char>>) -> Seq<char> {
    match sample {
        Some(l) => if l != last {
            l
        } else {
            last
        },
        None => last,
    }
}

/// The dedup cursor after a whole sequence of ticks, starting from a fresh session.
pub open spec fn last_after(samples: Seq<Option<Seq<char>>>) -> Seq<char>
    decreases samples.len(),
{
    if samples.len() == 0 {
        Seq::empty()
    } else {
        tick_next_last(last_after(samples.drop_last()), samples.last())
    }
}

/// The frames a fresh session actually sends over a sequence of ticks, in order.
pub open spec fn sent_frames(samples: Seq<Option<Seq<char>>>) -> Seq<Seq<char>>
    decreases samples.len(),
{
    if samples.len() == 0 {
        Seq::empty()
    } else {
        let pre = sent_frames(samples.drop_last());
        if tick_sends(last_after(samples.drop_last()), samples.last()) {
            pre.push(samples.last()->Some_0)
        } else {
            pre
        }
    }
}

impl SessionState {
    /// A fresh session: nothing sent yet, so the cursor is empty and the first
    /// non-empty sample will be sent even if it repeats a prior session's last label.
    pub fn new() -> (s: SessionState)
        ensures
            s.last_sent@ == last_after(Seq::<Option<Seq<char>>>::empty()),
            s.last_sent@ == Seq::<char>::empty(),
    {
        SessionState { last_sent: String::new() }
    }

    /// One sampling tick: decide whether to send, and advance the dedup cursor.
    pub fn on_tick(&mut self, sample: Option<String>) -> (r: TickOutcome)
        ensures
            final(self).last_sent@ == tick_next_last(old(self).last_sent@, view_sample(sample)),
            (r is Send) == tick_sends(old(self).last_sent@, view_sample(sample)),
            (r is SampleFailed) == (sample is None),
            r matches TickOutcome::Send(m) ==> m@ == sample->Some_0@,
    {
        match sample {
            None => TickOutcome::SampleFailed,
            Some(label) => {
                if label.eq(&self.last_sent) {
                    TickOutcome::Unchanged
                } else {
                    self.last_sent = label.clone();
                    TickOutcome::Send(label)
                }
            },
        }
    }
}

/// An event observed on the inbound half of the connection.
pub enum ReceiveEvent {
    /// A frame arrived; this client discards every inbound payload.
    Frame,
    /// Reading from the connection failed.
    ReceiveError,
    /// The peer closed the connection cleanly.
    Closed,
}

/// How a session ends, or that it goes on.
#[derive(PartialEq, Eq, Structural, Clone, Copy, Debug)]
pub enum SessionVerdict {
    /// Keep sampling and reading.
    Continue,
    /// The session ended with a transport error.
    EndError,
    /// The session ended because the peer closed normally.
    EndNormal,
}

/// Classify one inbound event: frames are discarded and the session goes on,
/// a read error is a transport failure, a clean close ends the session normally.
pub fn on_receive(e: &ReceiveEvent) -> (r: SessionVerdict)
    ensures
        r == spec_on_receive(*e),
{
    match e {
        ReceiveEvent::Frame => SessionVerdict::Continue,
        ReceiveEvent::ReceiveError => SessionVerdict::EndError,
        ReceiveEvent::Closed => SessionVerdict::EndNormal,
    }
}

/// The verdict for each inbound event.
pub open spec fn spec_on_receive(e: ReceiveEvent) -> SessionVerdict {
    match e {
        ReceiveEvent::Frame => SessionVerdict::Continue,
        ReceiveEvent::ReceiveError => SessionVerdict::EndError,
        ReceiveEvent::Closed => SessionVerdict::EndNormal,
    }
}

/// The dedup cursor always equals the last frame actually sent in this session,
/// or is empty while nothing has been sent.
pub proof fn lemma_cursor_is_last_sent(samples: Seq<Option<Seq<char>>>)
    ensures
        last_after(samples) == if sent_frames(samples).len() == 0 {
            Seq::<char>::empty()
        } else {
            sent_frames(samples).last()
        },
    decreases samples.len(),
{
    if samples.len() > 0 {
        lemma_cursor_is_last_sent(samples.drop_last());
    }
}

/// A frame is sent on a tick exactly when the sampler resolved a label that
/// differs from the last frame this session has sent; in particular the first
/// sample of a session is sent whenever it is non-empty.
pub proof fn lemma_send_iff_differs(samples: Seq<Option<Seq<char>>>, i: int)
    requires
        0 <= i < samples.len(),
    ensures
        ({
            let prior = samples.take(i);
            let prev_sent = if sent_frames(prior).len() == 0 {
                Seq::<char>::empty()
            } else {
                sent_frames(prior).last()
            };
            tick_sends(last_after(prior), samples[i]) <==> (samples[i] matches Some(l)
                && l != prev_sent)
        }),
{
    lemma_cursor_is_last_sent(samples.take(i));
}

/// Frames go out strictly in the order observed: each tick appends exactly
/// the frame it sends, and a non-sending tick appends nothing.
pub proof fn lemma_frames_in_order(samples: Seq<Option<Seq<char>>>, i: int)
    requires
        0 <= i < samples.len(),
    ensures
        sent_frames(samples.take(i + 1)) == if tick_sends(
            last_after(samples.take(i)),
            samples[i],
        ) {
            sent_frames(samples.take(i)).push(samples[i]->Some_0)
        } else {
            sent_frames(samples.take(i))
        },
{
    assert(samples.take(i + 1).drop_last() =~= samples.take(i));
    assert(samples.take(i + 1).last() == samples[i]);
}

/// A tick whose sample could not be resolved sends nothing and changes no dedup state.
pub proof fn lemma_none_tick_inert(samples: Seq<Option<Seq<char>>>, i: int)
    requires
        0 <= i < samples.len(),
        samples[i] is None,
    ensures
        !tick_sends(last_after(samples.take(i)), samples[i]),
        last_after(samples.take(i + 1)) == last_after(samples.take(i)),
        sent_frames(samples.take(i + 1)) == sent_frames(samples.take(i)),
{
    assert(samples.take(i + 1).drop_last() =~= samples.take(i));
    assert(samples.take(i + 1).last() == samples[i]);
}

/// Dedup state does not survive a reconnect: even when the prior session's last
/// frame was exactly `l`, a fresh session sends `l` again on its first resolved tick.
pub proof fn lemma_fresh_session_resends(prior: Seq<Option<Seq<char>>>, l: Seq<char>)
    requires
        l.len() > 0,
        last_after(prior) == l,
    ensures
        tick_sends(last_after(Seq::<Option<Seq<char>>>::empty()), Some(l)),
        sent_frames(seq![Some(l)]) =~= seq![l],
{
    let s1 = seq![Some(l)];
    assert(l != Seq::<char>::empty());
    assert(s1.len() == 1);
    assert(s1.drop_last() =~= Seq::<Option<Seq<char>>>::empty());
    assert(sent_frames(s1.drop_last()) == Seq::<Seq<char>>::empty());
    assert(last_after(s1.drop_last()) == Seq::<char>::empty());
    assert(s1.last() == Some(l));
    assert(tick_sends(last_after(s1.drop_last()), s1.last()));
    assert(sent_frames(s1) == Seq::<Seq<char>>::empty().push(l));
    assert(Seq::<Seq<char>>::empty().push(l) =~= seq![l]);
}

} // verus!
