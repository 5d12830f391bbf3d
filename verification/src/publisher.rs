//! The publisher loop's per-cycle decision: raise the cycle counter, check
//! liveness, and either publish, reconnect under a freshly minted client
//! identifier, or give up once the failure counter exceeds the retry bound.
use vstd::prelude::*;

use crate::config::Config;
use crate::ident::make_pub_client_id;
use crate::ident::pub_client_id;

verus! {

/// What the publisher does in the cycle that has just begun.
pub enum PublisherStep {
    /// The session is live: build and publish this cycle's payload.
    Publish,
    /// The session is down: obtain a replacement session under this client
    /// identifier, then publish as usual.
    Reconnect { client_id: String },
    /// Exceeded the maximum retries: terminate with a failure status.
    GiveUp,
}

/// The publisher loop's state: the cycle counter and the failure counter.
/// The failure counter is monotonic — it is never reset, not even by a
/// successful reconnect.
pub struct PublisherState {
    pub counter: u64,
    pub failed: i8,
}

/// The log line the publisher writes before each publish.
pub open spec fn publish_line(topic: Seq<char>, content: Seq<char>) -> Seq<char> {
    "publish to "@ + topic + " with msg "@ + content + " "@
}

pub fn format_publish_line(topic: &str, content: &str) -> (r: String)
    ensures
        r@ == publish_line(topic@, content@),
{
    let mut out = String::from_str("publish to ");
    out.append(topic);
    out.append(" with msg ");
    out.append(content);
    out.append(" ");
    proof {
        assert(out@ =~= publish_line(topic@, content@));
    }
    out
}

impl PublisherState {
    pub fn start() -> (s: Self)
        ensures
            s.counter == 0,
            s.failed == 0,
    {
        PublisherState { counter: 0, failed: 0 }
    }

    /// Opens one publish cycle: the cycle counter always advances; a live
    /// session publishes; a dead one raises the failure counter and either
    /// reconnects under `{prefix}/{devid}/{micros}` or gives up.
    pub fn begin_cycle(&mut self, connected: bool, now_micros: i64, cfg: &Config) -> (d:
        PublisherStep)
        requires
            old(self).counter < u64::MAX,
            old(self).failed < i8::MAX,
        ensures
            final(self).counter == old(self).counter + 1,
            connected ==> final(self).failed == old(self).failed && (d is Publish),
            !connected ==> final(self).failed == old(self).failed + 1,
            (!connected && final(self).failed as int > cfg.broker.retries as int) ==> (d
                is GiveUp),
            (!connected && final(self).failed as int <= cfg.broker.retries as int) ==> (d matches
                PublisherStep::Reconnect { client_id } && client_id@ == pub_client_id(
                cfg.broker.topic@,
                cfg.general.devid@,
                now_micros as int,
            )),
    {
        self.counter = self.counter + 1;
        if connected {
            PublisherStep::Publish
        } else {
            self.failed = self.failed + 1;
            if self.failed > cfg.broker.retries {
                PublisherStep::GiveUp
            } else {
                let client_id = make_pub_client_id(
                    cfg.broker.topic.as_str(),
                    cfg.general.devid.as_str(),
                    now_micros,
                );
                PublisherStep::Reconnect { client_id }
            }
        }
    }
}

} // verus!
