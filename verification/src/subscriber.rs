//! The subscriber loop's per-event decision: log received messages, treat an
//! empty receive as a liveness probe, and on a detected disconnect either
//! reconnect — resubscribing to the exact same topic — or give up.
use vstd::prelude::*;

use crate::config::Config;
use crate::ident::make_sub_client_id;
use crate::ident::sub_client_id;

verus! {

/// What the receive loop observed: a message, or an empty receive together
/// with the session's liveness at that instant.
pub enum SubscriberEvent {
    Message { topic: String, payload: String },
    Quiet { connected: bool },
}

/// What the subscriber does with the event.
pub enum SubscriberStep {
    /// A message arrived: write this line and keep receiving.
    Log { line: String },
    /// Empty receive but the session is live: keep receiving.
    KeepWaiting,
    /// The session is down: obtain a replacement session under this client
    /// identifier and resubscribe to `topic`.
    Reconnect { client_id: String, topic: String },
    /// Exceeded the maximum retries: terminate with a failure status.
    GiveUp,
}

/// The subscriber loop's state: the failure counter alone. It is monotonic —
/// a received message never lowers it.
pub struct SubscriberState {
    pub failed: i8,
}

/// The log line written for a received message.
pub open spec fn received_line(ts: Seq<char>, topic: Seq<char>, payload: Seq<char>) -> Seq<char> {
    "Received at ["@ + ts + "] topic "@ + topic + " with msg "@ + payload
}

pub fn format_received_line(ts: &str, topic: &str, payload: &str) -> (r: String)
    ensures
        r@ == received_line(ts@, topic@, payload@),
{
    let mut out = String::from_str("Received at [");
    out.append(ts);
    out.append("] topic ");
    out.append(topic);
    out.append(" with msg ");
    out.append(payload);
    proof {
        assert(out@ =~= received_line(ts@, topic@, payload@));
    }
    out
}

impl SubscriberState {
    pub fn start() -> (s: Self)
        ensures
            s.failed == 0,
    {
        SubscriberState { failed: 0 }
    }

    /// Reacts to one receive-loop event. A message only produces a log line;
    /// an empty receive on a live session is a no-op; an empty receive on a
    /// dead session raises the failure counter and either reconnects under
    /// `{prefix}/{micros}` — resubscribing to exactly `topic` — or gives up.
    pub fn on_event(&mut self, ev: SubscriberEvent, now_micros: i64, now_iso: &str, topic: &str,
        cfg: &Config) -> (d: SubscriberStep)
        requires
            old(self).failed < i8::MAX,
        ensures
            (ev matches SubscriberEvent::Message { topic: t, payload: p } ==> final(self).failed
                == old(self).failed && (d matches SubscriberStep::Log { line } && line@
                == received_line(now_iso@, t@, p@))),
            (ev matches SubscriberEvent::Quiet { connected: true } ==> final(self).failed == old(
                self,
            ).failed && (d is KeepWaiting)),
            (ev matches SubscriberEvent::Quiet { connected: false } ==> final(self).failed == old(
                self,
            ).failed + 1),
            (ev matches SubscriberEvent::Quiet { connected: false } && final(self).failed as int
                > cfg.broker.retries as int ==> (d is GiveUp)),
            (ev matches SubscriberEvent::Quiet { connected: false } && final(self).failed as int
                <= cfg.broker.retries as int ==> (d matches SubscriberStep::Reconnect {
                client_id,
                topic: resub,
            } && client_id@ == sub_client_id(cfg.broker.topic@, now_micros as int) && resub@
                == topic@)),
    {
        match ev {
            SubscriberEvent::Message { topic: t, payload: p } => {
                let line = format_received_line(now_iso, t.as_str(), p.as_str());
                SubscriberStep::Log { line }
            },
            SubscriberEvent::Quiet { connected: true } => SubscriberStep::KeepWaiting,
            SubscriberEvent::Quiet { connected: false } => {
                self.failed = self.failed + 1;
                if self.failed > cfg.broker.retries {
                    SubscriberStep::GiveUp
                } else {
                    let client_id = make_sub_client_id(cfg.broker.topic.as_str(), now_micros);
                    SubscriberStep::Reconnect { client_id, topic: String::from_str(topic) }
                }
            },
        }
    }
}

} // verus!
