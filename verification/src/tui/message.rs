//! Messages as they are shown.

use crate::ids;
use crate::types;
use crate::types::{Float64, PerfMetrics};
use vstd::prelude::*;
use vstd::string::*;

verus! {

/// Milliseconds since the start of 1970, in UTC.
pub type Timestamp = i64;

/// The time of `chrono::Utc::now`. Nothing is told of it.
#[verifier::external_body]
pub(crate) fn now() -> Timestamp {
    chrono::Utc::now().timestamp_millis()
}

/// A message as it is stored.
#[derive(Clone, Debug)]
pub struct StoredMessage {
    pub id: u128,
    pub role: String,
    pub content: String,
    pub created_at: Timestamp,
    pub token_count: Option<i32>,
    pub cost: Option<Float64>,
    pub provider_name: Option<String>,
    pub perf_metrics: Option<PerfMetrics>,
}

/// A message as it is shown.
#[derive(Clone, Debug)]
pub struct DisplayMessage {
    pub id: u128,
    pub role: String,
    pub content: String,
    /// The reasoning behind it, if there is any.
    pub thinking_text: Option<String>,
    /// Whether the reasoning is shown.
    pub thinking_expanded: bool,
    pub timestamp: Timestamp,
    pub token_count: Option<i32>,
    pub cost: Option<Float64>,
    pub provider_name: Option<String>,
    pub perf_metrics: Option<PerfMetrics>,
    pub tokens_per_second: Option<Float64>,
}

/// What tells a message from all others: its identifier, and when it came.
pub struct Stamp {
    pub id: u128,
    pub timestamp: Timestamp,
}

/// What a [`DisplayMessage`] holds.
pub struct ShownView {
    pub id: u128,
    pub role: Seq<char>,
    pub content: Seq<char>,
    pub thinking_text: Option<Seq<char>>,
    pub thinking_expanded: bool,
    pub timestamp: Timestamp,
    pub token_count: Option<i32>,
    pub cost: Option<Float64>,
    pub provider_name: Option<Seq<char>>,
    pub perf_metrics: Option<PerfMetrics>,
    pub tokens_per_second: Option<Float64>,
}

impl ShownView {
    /// What tells it from all others.
    pub open spec fn stamp(self) -> Stamp {
        Stamp { id: self.id, timestamp: self.timestamp }
    }
}

impl View for DisplayMessage {
    type V = ShownView;

    open spec fn view(&self) -> ShownView {
        ShownView {
            id: self.id,
            role: self.role@,
            content: self.content@,
            thinking_text: types::opt_text(self.thinking_text),
            thinking_expanded: self.thinking_expanded,
            timestamp: self.timestamp,
            token_count: self.token_count,
            cost: self.cost,
            provider_name: types::opt_text(self.provider_name),
            perf_metrics: self.perf_metrics,
            tokens_per_second: self.tokens_per_second,
        }
    }
}

/// What the messages of a list hold.
pub open spec fn shown(v: Seq<DisplayMessage>) -> Seq<ShownView> {
    Seq::new(v.len(), |i: int| v[i]@)
}

/// What a message with nothing but text holds.
pub open spec fn plain(role: Seq<char>, content: Seq<char>, stamp: Stamp) -> ShownView {
    ShownView {
        id: stamp.id,
        role,
        content,
        thinking_text: None,
        thinking_expanded: false,
        timestamp: stamp.timestamp,
        token_count: None,
        cost: None,
        provider_name: None,
        perf_metrics: None,
        tokens_per_second: None,
    }
}

impl vstd::std_specs::convert::FromSpecImpl<StoredMessage> for DisplayMessage {
    open spec fn obeys_from_spec() -> bool {
        true
    }

    open spec fn from_spec(msg: StoredMessage) -> DisplayMessage {
        DisplayMessage {
            id: msg.id,
            role: msg.role,
            content: msg.content,
            thinking_text: None,
            thinking_expanded: false,
            timestamp: msg.created_at,
            token_count: msg.token_count,
            cost: msg.cost,
            provider_name: msg.provider_name,
            perf_metrics: msg.perf_metrics,
            tokens_per_second: None,
        }
    }
}

impl From<StoredMessage> for DisplayMessage {
    fn from(msg: StoredMessage) -> (r: DisplayMessage) {
        DisplayMessage {
            id: msg.id,
            role: msg.role,
            content: msg.content,
            thinking_text: None,
            thinking_expanded: false,
            timestamp: msg.created_at,
            token_count: msg.token_count,
            cost: msg.cost,
            provider_name: msg.provider_name,
            perf_metrics: msg.perf_metrics,
            tokens_per_second: None,
        }
    }
}

/// What a stored message holds when it is shown.
pub open spec fn stored_shown(m: StoredMessage) -> ShownView {
    ShownView {
        token_count: m.token_count,
        cost: m.cost,
        provider_name: types::opt_text(m.provider_name),
        perf_metrics: m.perf_metrics,
        ..plain(m.role@, m.content@, Stamp { id: m.id, timestamp: m.created_at })
    }
}

/// The messages of a session, as they are shown.
pub fn show_all(stored: Vec<StoredMessage>) -> (r: Vec<DisplayMessage>)
    ensures
        shown(r@) == Seq::new(stored@.len(), |i: int| stored_shown(stored@[i])),
{
    let mut out: Vec<DisplayMessage> = Vec::new();
    let ghost all = stored@;
    let mut rest = stored;
    while rest.len() > 0
        invariant
            rest@.len() + out@.len() == all.len(),
            rest@ == all.take(rest@.len() as int),
            forall|i: int|
                0 <= i < out@.len() ==> (#[trigger] out@[i])@ == stored_shown(
                    all[all.len() - 1 - i],
                ),
        decreases rest@.len(),
    {
        let ghost n = rest@.len() as int;
        if let Some(m) = rest.pop() {
            assert(m == all[n - 1]);
            assert(rest@ =~= all.take(n - 1));
            out.push(DisplayMessage::from(m));
        }
    }
    reverse(out)
}

fn reverse(v: Vec<DisplayMessage>) -> (r: Vec<DisplayMessage>)
    ensures
        r@ == v@.reverse(),
{
    let ghost all = v@;
    let mut from = v;
    let mut out: Vec<DisplayMessage> = Vec::new();
    while from.len() > 0
        invariant
            from@.len() + out@.len() == all.len(),
            from@ == all.take(from@.len() as int),
            out@ == all.reverse().take(out@.len() as int),
        decreases from@.len(),
    {
        let ghost k = out@.len() as int;
        let ghost n = from@.len() as int;
        if let Some(m) = from.pop() {
            assert(from@ =~= all.take(n - 1));
            out.push(m);
            assert(all.reverse().take(k + 1) =~= all.reverse().take(k).push(all.reverse()[k]));
        }
    }
    assert(all.reverse().take(out@.len() as int) =~= all.reverse());
    out
}

/// A message with nothing but text, of now, with an identifier of its own.
/// Nothing is told of the two.
pub fn notice(role: &str, content: String) -> (r: DisplayMessage)
    ensures
        r@ == plain(role@, content@, r@.stamp()),
{
    DisplayMessage {
        id: ids::new_uuid(),
        role: role.to_string(),
        content,
        thinking_text: None,
        thinking_expanded: false,
        timestamp: now(),
        token_count: None,
        cost: None,
        provider_name: None,
        perf_metrics: None,
        tokens_per_second: None,
    }
}

} // verus!
