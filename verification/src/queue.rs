//! Flushing the tool-call queue: replaying each queued call once, in queue order, under a
//! fresh id, and the summary that answers the flush call.
use crate::text::{dec, push_dec};
use crate::tool::{plain_result, result_for, ToolResult, ToolUse};
use vstd::prelude::*;
use vstd::string::*;
use vstd::utf8::{decode_utf8, encode_utf8, encode_utf8_decode_utf8, encode_utf8_valid_utf8, is_char_boundary};

verus! {

/// A queued tool call, as the queue recorded it.
pub struct QueuedCall {
    /// The call's place in the queue.
    pub index: usize,
    /// The id the call had when it was queued.
    pub tool_use_id: String,
    /// The tool's name.
    pub tool_name: String,
    /// The call's arguments, as JSON text.
    pub input: String,
}

/// The answer when the queue is empty.
pub open spec fn empty_queue_text() -> Seq<char> {
    "Queue is empty — nothing to execute."@
}

/// The id a replayed call gets, so that it does not collide with the id answered when the
/// call was queued.
pub open spec fn fresh_id(index: usize, tool_use_id: Seq<char>) -> Seq<char> {
    "flush_"@ + dec(index as nat) + "_"@ + tool_use_id
}

/// The largest character boundary of `b` at or below `k`.
pub open spec fn floor_boundary(b: Seq<u8>, k: int) -> int
    decreases k,
{
    if k <= 0 {
        0
    } else if is_char_boundary(b, k) {
        k
    } else {
        floor_boundary(b, k - 1)
    }
}

/// A result's content for the summary: whole up to 100 bytes, else its first 97 bytes (cut
/// back to a character boundary) and `...`.
pub open spec fn short_content_text(c: Seq<char>) -> Seq<char> {
    let b = encode_utf8(c);
    if b.len() > 100 {
        decode_utf8(b.subrange(0, floor_boundary(b, 97))) + "..."@
    } else {
        c
    }
}

/// One summary line.
pub open spec fn summary_line(call: QueuedCall, is_error: bool, content: Seq<char>) -> Seq<char> {
    dec(call.index as nat) + ". "@ + call.tool_name@ + " → "@ + (if is_error {
        "ERROR"@
    } else {
        "ok"@
    }) + " ("@ + short_content_text(content) + ")\n"@
}

/// The summary lines of calls and their results, pairwise.
pub open spec fn summary_lines(calls: Seq<QueuedCall>, results: Seq<ToolResult>) -> Seq<char>
    decreases calls.len(),
{
    if calls.len() == 0 || results.len() < calls.len() {
        Seq::empty()
    } else {
        let n = calls.len() - 1;
        summary_lines(calls.drop_last(), results.take(n)) + summary_line(
            calls.last(),
            results[n].is_error,
            results[n].content@,
        )
    }
}

/// The flush summary.
pub open spec fn summary_text(calls: Seq<QueuedCall>, results: Seq<ToolResult>) -> Seq<char> {
    "Executed "@ + dec(calls.len()) + " queued action(s):\n"@ + summary_lines(calls, results)
}

/// Law: a replayed call's id never collides with the id it was queued under, and replayed
/// calls with different queue places or queued ids get different ids.
pub proof fn law_fresh_ids_distinct(i1: usize, id1: Seq<char>, i2: usize, id2: Seq<char>)
    ensures
        fresh_id(i1, id1) != id1,
        fresh_id(i1, id1) == fresh_id(i2, id2) ==> i1 == i2 && id1 == id2,
{
    reveal_strlit("flush_");
    reveal_strlit("_");
    let d1 = dec(i1 as nat);
    let n1: int = d1.len() as int;
    let d2 = dec(i2 as nat);
    let n2: int = d2.len() as int;
    crate::download::lemma_dec_parses(i1 as nat);
    crate::download::lemma_dec_parses(i2 as nat);
    let s1 = fresh_id(i1, id1);
    let s2 = fresh_id(i2, id2);
    assert(s1.len() == 7 + n1 + id1.len());
    if s1 == s2 {
        assert(s1[6 + n1] == '_');
        assert(s2[6 + n2] == '_');
        if n1 < n2 {
            assert(s2[6 + n1] == d2[n1]);
            assert(crate::download::is_digit(d2[n1]));
        } else if n2 < n1 {
            assert(s1[6 + n2] == d1[n2]);
            assert(crate::download::is_digit(d1[n2]));
        }
        assert(d1.len() == d2.len());
        assert(d1 =~= s1.subrange(6, 6 + n1));
        assert(d2 =~= s2.subrange(6, 6 + n2));
        assert(id1 =~= s1.skip(7 + n1));
        assert(id2 =~= s2.skip(7 + n2));
    }
}

/// The id under which a queued call is replayed.
pub fn flush_tool_id(call: &QueuedCall) -> (r: String)
    ensures
        r@ == fresh_id(call.index, call.tool_use_id@),
{
    let mut s = String::from_str("flush_");
    push_dec(&mut s, call.index as u64);
    s.append("_");
    s.append(call.tool_use_id.as_str());
    s
}

/// The content of a result as the summary shows it: whole up to 100 bytes, else cut to at
/// most 97 bytes on a character boundary, with `...`.
pub fn short_content(content: &str) -> (r: String)
    ensures
        r@ == short_content_text(content@),
{
    let n = content.as_bytes().len();
    if n <= 100 {
        return String::from_str(content);
    }
    proof {
        encode_utf8_valid_utf8(content@);
    }
    let ghost b = encode_utf8(content@);
    let mut end: usize = 97;
    while end > 0 && !content.is_char_boundary(end)
        invariant
            end <= 97,
            b == content.spec_bytes(),
            b == encode_utf8(content@),
            vstd::utf8::valid_utf8(b),
            floor_boundary(b, end as int) == floor_boundary(b, 97),
        decreases end,
    {
        end = end - 1;
    }
    assert(floor_boundary(b, end as int) == end);
    let (head, _) = content.split_at(end);
    proof {
        encode_utf8_decode_utf8(head@);
    }
    let mut s = String::from_str(head);
    s.append("...");
    s
}

/// The summary line of one replayed call.
pub fn flush_summary_line(call: &QueuedCall, result: &ToolResult) -> (r: String)
    ensures
        r@ == summary_line(*call, result.is_error, result.content@),
{
    let mut s = String::new();
    push_dec(&mut s, call.index as u64);
    s.append(". ");
    s.append(call.tool_name.as_str());
    s.append(" → ");
    if result.is_error {
        s.append("ERROR");
    } else {
        s.append("ok");
    }
    s.append(" (");
    let short = short_content(result.content.as_str());
    s.append(short.as_str());
    s.append(")\n");
    s
}

/// The answer to a flush call when the queue is empty.
pub fn empty_queue_result(tool: &ToolUse) -> (r: ToolResult)
    ensures
        plain_result(*tool, empty_queue_text(), false, r),
{
    result_for(tool, String::from_str("Queue is empty — nothing to execute."), false)
}

// =============================================================================
// Replaying the queue
// =============================================================================

/// The tool-call queue.
pub struct QueueState {
    /// The calls waiting to run, in queue order.
    pub queued_calls: Vec<QueuedCall>,
    /// Whether calls are being queued.
    pub active: bool,
}

/// A queued call as it is replayed: its fresh identity, arguments and queue place.
pub struct Replay {
    /// The call to run: fresh id, same tool.
    pub tool: ToolUse,
    /// The call's arguments, as JSON text.
    pub input: String,
    /// The call's place in the queue.
    pub queue_index: usize,
}

/// A replayed call and the result it gave.
pub struct FlushedTool {
    /// The call that ran.
    pub tool: ToolUse,
    /// Its arguments, as JSON text.
    pub input: String,
    /// What it gave.
    pub result: ToolResult,
    /// Its place in the queue.
    pub queue_index: usize,
}

/// `tool`, `input` and `queue_index` are the replay of `call`.
pub open spec fn replays(call: QueuedCall, tool: ToolUse, input: Seq<char>, queue_index: usize) -> bool {
    &&& tool.id@ == fresh_id(call.index, call.tool_use_id@)
    &&& tool.name@ == call.tool_name@
    &&& input == call.input@
    &&& queue_index == call.index
}

/// The results of replayed calls, in order.
pub open spec fn results_of(flushed: Seq<FlushedTool>) -> Seq<ToolResult> {
    flushed.map_values(|f: FlushedTool| f.result)
}

/// The head of the flush summary.
pub open spec fn summary_head(n: nat) -> Seq<char> {
    "Executed "@ + dec(n) + " queued action(s):\n"@
}

/// A flush under way: the calls taken from the queue, and those replayed so far.
pub struct FlushRun {
    calls: Vec<QueuedCall>,
    flushed: Vec<FlushedTool>,
    summary: String,
}

impl FlushRun {
    /// The calls taken from the queue, in queue order.
    pub closed spec fn calls(&self) -> Seq<QueuedCall> {
        self.calls@
    }

    /// The calls replayed so far, with their results, in order.
    pub closed spec fn flushed(&self) -> Seq<FlushedTool> {
        self.flushed@
    }

    /// The summary written so far.
    pub closed spec fn summary(&self) -> Seq<char> {
        self.summary@
    }

    /// The first calls have been replayed, each once, in queue order, and summarised.
    pub open spec fn wf(&self) -> bool {
        let k = self.flushed().len();
        &&& k <= self.calls().len()
        &&& forall|i: int|
            0 <= i < k ==> replays(
                self.calls()[i],
                (#[trigger] self.flushed()[i]).tool,
                self.flushed()[i].input@,
                self.flushed()[i].queue_index,
            )
        &&& self.summary() == summary_head(self.calls().len()) + summary_lines(
            self.calls().take(k as int),
            results_of(self.flushed()),
        )
    }

    /// The call to run next, or `None` once every call has run.
    pub fn next_call(&self) -> (r: Option<Replay>)
        requires
            self.wf(),
        ensures
            self.flushed().len() == self.calls().len() <==> r is None,
            r matches Some(rep) ==> replays(
                self.calls()[self.flushed().len() as int],
                rep.tool,
                rep.input@,
                rep.queue_index,
            ),
    {
        let k = self.flushed.len();
        if k < self.calls.len() {
            let call = &self.calls[k];
            Some(
                Replay {
                    tool: ToolUse { id: flush_tool_id(call), name: call.tool_name.clone() },
                    input: call.input.clone(),
                    queue_index: call.index,
                },
            )
        } else {
            None
        }
    }

    /// Record the result of the call `next_call` named.
    pub fn record(&mut self, result: ToolResult)
        requires
            old(self).wf(),
            old(self).flushed().len() < old(self).calls().len(),
        ensures
            final(self).wf(),
            final(self).calls() == old(self).calls(),
            final(self).flushed().len() == old(self).flushed().len() + 1,
            final(self).flushed().take(old(self).flushed().len() as int) == old(self).flushed(),
            final(self).flushed().last().result == result,
    {
        let k = self.flushed.len();
        let ghost old_flushed = self.flushed@;
        let ghost calls = self.calls@;
        let ghost old_summary = self.summary@;
        let line = flush_summary_line(&self.calls[k], &result);
        self.summary.append(line.as_str());
        let call = &self.calls[k];
        let f = FlushedTool {
            tool: ToolUse { id: flush_tool_id(call), name: call.tool_name.clone() },
            input: call.input.clone(),
            result,
            queue_index: call.index,
        };
        self.flushed.push(f);
        proof {
            let nf = self.flushed@;
            assert(nf.take(k as int) =~= old_flushed);
            assert(results_of(nf) =~= results_of(old_flushed).push(result));
            assert(calls.take(k + 1).drop_last() =~= calls.take(k as int));
            assert(results_of(nf).take(k as int) =~= results_of(old_flushed));
            assert(calls.take(k + 1).last() == calls[k as int]);
            assert(results_of(nf)[k as int] == result);
            assert(summary_lines(calls.take(k + 1), results_of(nf)) == summary_lines(
                calls.take(k as int),
                results_of(old_flushed),
            ) + summary_line(calls[k as int], result.is_error, result.content@));
            assert(self.summary@ =~= summary_head(calls.len()) + summary_lines(calls.take(k + 1), results_of(nf)));
            assert forall|i: int| 0 <= i < k + 1 implies replays(
                calls[i],
                (#[trigger] nf[i]).tool,
                nf[i].input@,
                nf[i].queue_index,
            ) by {
                if i < k {
                    assert(nf[i] == old_flushed[i]);
                }
            }
        }
    }
}

/// Start a flush: `None`, leaving the queue as it is, when nothing is queued; else every
/// queued call, in order, taken out of the queue, which is left empty and inactive.
pub fn start_flush(queue: &mut QueueState) -> (r: Option<FlushRun>)
    ensures
        old(queue).queued_calls@.len() == 0 ==> r is None && *final(queue) == *old(queue),
        old(queue).queued_calls@.len() > 0 ==> (r matches Some(run) && run.wf() && run.calls()
            == old(queue).queued_calls@ && run.flushed().len() == 0),
        old(queue).queued_calls@.len() > 0 ==> final(queue).queued_calls@.len() == 0 && !final(queue).active,
{
    if queue.queued_calls.len() == 0 {
        return None;
    }
    let mut calls: Vec<QueuedCall> = Vec::new();
    std::mem::swap(&mut calls, &mut queue.queued_calls);
    queue.active = false;
    let mut summary = String::from_str("Executed ");
    push_dec(&mut summary, calls.len() as u64);
    summary.append(" queued action(s):\n");
    let run = FlushRun { calls, flushed: Vec::new(), summary };
    proof {
        assert(results_of(run.flushed()) =~= Seq::<ToolResult>::empty());
        assert(summary_lines(run.calls().take(0), Seq::<ToolResult>::empty()) =~= Seq::<char>::empty());
        assert(run.summary() =~= summary_head(run.calls().len()) + summary_lines(
            run.calls().take(0),
            results_of(run.flushed()),
        ));
    }
    Some(run)
}

/// End a flush once every call ran: the answer to the flush call (its summary, not an
/// error, keeping the tempo), and the replayed calls with their results in queue order.
pub fn finish_flush(tool: &ToolUse, run: FlushRun) -> (r: (ToolResult, Vec<FlushedTool>))
    requires
        run.wf(),
        run.flushed().len() == run.calls().len(),
    ensures
        r.0.tool_use_id@ == tool.id@,
        r.0.tool_name@ == tool.name@,
        r.0.content@ == summary_text(run.calls(), results_of(run.flushed())),
        !r.0.is_error,
        r.0.preserves_tempo,
        r.0.display is None,
        r.0.tldr is None,
        r.1@ == run.flushed(),
{
    proof {
        assert(run.calls().take(run.calls().len() as int) =~= run.calls());
    }
    let FlushRun { calls, flushed, summary } = run;
    let mut w = result_for(tool, summary, false);
    w.preserves_tempo = true;
    (w, flushed)
}

/// Law: a finished flush replayed every queued call exactly once, in queue order, each under
/// its fresh id with its own tool and arguments; the answer summarises them in that order.
pub proof fn law_flush_replays_queue_in_order(run: FlushRun)
    requires
        run.wf(),
        run.flushed().len() == run.calls().len(),
    ensures
        forall|i: int|
            0 <= i < run.calls().len() ==> (#[trigger] run.flushed()[i]).queue_index == run.calls()[i].index
                && run.flushed()[i].tool.id@ == fresh_id(run.calls()[i].index, run.calls()[i].tool_use_id@)
                && run.flushed()[i].tool.name@ == run.calls()[i].tool_name@ && run.flushed()[i].input@
                == run.calls()[i].input@,
        results_of(run.flushed()).len() == run.calls().len(),
{
    assert forall|i: int| 0 <= i < run.calls().len() implies (#[trigger] run.flushed()[i]).queue_index
        == run.calls()[i].index && run.flushed()[i].tool.id@ == fresh_id(
        run.calls()[i].index,
        run.calls()[i].tool_use_id@,
    ) && run.flushed()[i].tool.name@ == run.calls()[i].tool_name@ && run.flushed()[i].input@
        == run.calls()[i].input@ by {
        assert(replays(run.calls()[i], run.flushed()[i].tool, run.flushed()[i].input@, run.flushed()[i].queue_index));
    }
}

/// The identities of the compact message that records a replayed call.
pub struct FlushedCallIds {
    /// Message id, `T<n>`.
    pub tool_id: String,
    /// Global message uid, `UID_<n>_T`.
    pub uid: String,
    /// The next tool id after this one (saturating).
    pub next_tool_id: usize,
    /// The next global uid after this one (saturating).
    pub next_global_uid: usize,
}

/// The identities for the message recording a replayed call, from the current counters:
/// the message takes both counters' values, and both counters move on by one.
pub fn flushed_call_ids(next_tool_id: usize, global_next_uid: usize) -> (r: FlushedCallIds)
    ensures
        r.tool_id@ == "T"@ + dec(next_tool_id as nat),
        r.uid@ == "UID_"@ + dec(global_next_uid as nat) + "_T"@,
        r.next_tool_id == if next_tool_id < usize::MAX {
            next_tool_id + 1
        } else {
            next_tool_id as int
        },
        r.next_global_uid == if global_next_uid < usize::MAX {
            global_next_uid + 1
        } else {
            global_next_uid as int
        },
{
    let mut tool_id = String::from_str("T");
    push_dec(&mut tool_id, next_tool_id as u64);
    let mut uid = String::from_str("UID_");
    push_dec(&mut uid, global_next_uid as u64);
    uid.append("_T");
    FlushedCallIds {
        tool_id,
        uid,
        next_tool_id: next_tool_id.saturating_add(1),
        next_global_uid: global_next_uid.saturating_add(1),
    }
}

} // verus!
