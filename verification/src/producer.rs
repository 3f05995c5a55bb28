//! The producer: every batch it orders a sector of factory buildings and
//! reports which of them reached the queue.
use vstd::prelude::*;
use crate::models::{agent_event, catalog, predef_components, AgentEvent, ComponentView, PredefComponent};
use crate::text::{decimal, push_decimal};

verus! {

/// The catalog positions of the buildings in batch number `batch`: the solar
/// array, then one of three fixed groups of four, in turn.
pub open spec fn sector_indices(batch: nat) -> Seq<int> {
    if batch % 3 == 0 {
        seq![9, 0, 2, 3, 4]
    } else if batch % 3 == 1 {
        seq![9, 1, 2, 3, 6]
    } else {
        seq![9, 7, 5, 8, 4]
    }
}

/// The buildings of batch number `batch`, in order.
pub open spec fn sector(batch: nat) -> Seq<ComponentView> {
    sector_indices(batch).map_values(|i: int| catalog()[i])
}

/// The buildings of batch number `batch_count`.
pub fn sector_components(batch_count: u64) -> (v: Vec<PredefComponent>)
    ensures
        v.len() == 5,
        forall|i: int| 0 <= i < 5 ==> #[trigger] v[i]@ == sector(batch_count as nat)[i],
{
    let all = predef_components();
    let mut v: Vec<PredefComponent> = Vec::new();
    v.push(all[9]);
    if batch_count % 3 == 0 {
        v.push(all[0]);
        v.push(all[2]);
        v.push(all[3]);
        v.push(all[4]);
    } else if batch_count % 3 == 1 {
        v.push(all[1]);
        v.push(all[2]);
        v.push(all[3]);
        v.push(all[6]);
    } else {
        v.push(all[7]);
        v.push(all[5]);
        v.push(all[8]);
        v.push(all[4]);
    }
    v
}

/// Batches repeat with period three.
pub proof fn lemma_sector_period(batch: nat)
    ensures
        sector(batch + 3) == sector(batch),
{
    assert((batch + 3) % 3 == batch % 3);
}

/// Every batch has five buildings and begins with the solar array.
pub proof fn lemma_sector_shape(batch: nat)
    ensures
        sector(batch).len() == 5,
        sector(batch)[0] == catalog()[9],
        sector(batch)[0].name == "SOLAR ARRAY"@,
{
}

/// How long the producer waits between batches, in seconds.
pub const BATCH_PERIOD_SECS: u64 = 15;

/// How many batches the producer has ordered.
pub struct ProducerState {
    pub batch_count: u64,
}

impl ProducerState {
    /// A producer that has ordered nothing yet.
    pub fn new() -> (s: Self)
        ensures
            s.batch_count == 0,
    {
        ProducerState { batch_count: 0 }
    }

    /// The buildings of the next batch; the count moves on by one.
    pub fn next_batch(&mut self) -> (v: Vec<PredefComponent>)
        requires
            old(self).batch_count < u64::MAX,
        ensures
            final(self).batch_count == old(self).batch_count + 1,
            v.len() == 5,
            forall|i: int| 0 <= i < 5 ==> #[trigger] v[i]@ == sector(old(self).batch_count as nat)[i],
    {
        let v = sector_components(self.batch_count);
        self.batch_count = self.batch_count + 1;
        v
    }
}

/// The summary line of a building that reached the queue:
/// `- NAME (WIDTHxHEIGHT)` and a line break.
pub open spec fn summary_line_text(c: ComponentView) -> Seq<char> {
    "- "@ + c.name + " ("@ + decimal(c.width) + "x"@ + decimal(c.height) + ")\n"@
}

/// The summary line of `c`.
pub fn summary_line(c: &PredefComponent) -> (r: String)
    ensures
        r@ == summary_line_text(c@),
{
    let mut r = String::from_str("- ");
    r.append(c.name);
    r.append(" (");
    push_decimal(&mut r, c.width as u64);
    r.append("x");
    push_decimal(&mut r, c.height as u64);
    r.append(")\n");
    r
}

/// Adds the line of `c` to the batch summary when its push to the queue
/// succeeded, and leaves the summary as it was otherwise.
pub fn record_push(summary: &mut String, c: &PredefComponent, pushed: bool)
    ensures
        final(summary)@ == if pushed {
            old(summary)@ + summary_line_text(c@)
        } else {
            old(summary)@
        },
{
    if pushed {
        let line = summary_line(c);
        summary.append(line.as_str());
    }
}

/// The event that a batch is being prepared.
pub fn working_event() -> (e: AgentEvent)
    ensures
        e.agent_id@ == "Producer"@,
        e.status@ == "working"@,
        e.details@ == "Generating Mechanism Segment..."@,
{
    agent_event("Producer", "working", "Generating Mechanism Segment...")
}

/// The event that a batch is done, carrying its summary.
pub fn done_event(summary: &str) -> (e: AgentEvent)
    ensures
        e.agent_id@ == "Producer"@,
        e.status@ == "done"@,
        e.details@ == summary@,
{
    agent_event("Producer", "done", summary)
}

/// The console line that closes a batch.
pub fn batch_complete_line(summary: &str) -> (r: String)
    ensures
        r@ == "[PRODUCER] \u{2705} Batch Complete:\n"@ + summary@,
{
    let r = String::from_str("[PRODUCER] \u{2705} Batch Complete:\n");
    r.concat(summary)
}

} // verus!
