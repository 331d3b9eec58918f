//! Traces: a record of each round of a run, and the transcript that is printed of it.
use vstd::prelude::*;
use crate::chat::{
    copy_text_or_empty, text_or_empty, ChatMessage, ChatMessageView, ToolCall, ToolCallView,
};
use crate::executor::ExecutionStats;
use crate::json::{Json, JsonView};
use crate::text::{decimal, render_unsigned, texts};

pub mod laws;

verus! {

/// One call that was run, and its answer.
#[derive(Debug, PartialEq, Eq)]
pub struct ExecutionStep {
    pub call: ToolCall,
    pub result: ChatMessage,
}

/// What an [`ExecutionStep`] says.
pub struct ExecutionStepView {
    pub call: ToolCallView,
    pub result: ChatMessageView,
}

impl View for ExecutionStep {
    type V = ExecutionStepView;

    open spec fn view(&self) -> ExecutionStepView {
        ExecutionStepView { call: self.call@, result: self.result@ }
    }
}

/// What a list of steps says.
pub open spec fn steps_view(steps: Seq<ExecutionStep>) -> Seq<ExecutionStepView> {
    Seq::new(steps.len(), |i: int| steps[i]@)
}

impl Clone for ExecutionStep {
    fn clone(&self) -> (copy: Self)
        ensures
            copy@ == self@,
    {
        ExecutionStep { call: self.call.clone(), result: self.result.clone() }
    }
}

/// The same steps once more.
fn copy_steps(steps: &Vec<ExecutionStep>) -> (copy: Vec<ExecutionStep>)
    ensures
        steps_view(copy@) == steps_view(steps@),
{
    let mut copy: Vec<ExecutionStep> = Vec::new();
    let mut i: usize = 0;
    while i < steps.len()
        invariant
            i <= steps@.len(),
            copy@.len() == i,
            forall|k: int| 0 <= k < i ==> (#[trigger] copy@[k])@ == steps@[k]@,
        decreases steps@.len() - i,
    {
        copy.push(steps[i].clone());
        i += 1;
    }
    assert(steps_view(copy@) =~= steps_view(steps@));
    copy
}

/// One round of a run: a request was sent, and the model replied.
#[derive(Debug, PartialEq, Eq)]
pub struct IterationTrace {
    /// The number of the round in its run, from one on.
    pub iteration: usize,
    /// The request that was sent, with the tools that the model saw.
    pub request: Json,
    /// The raw body of the response, with all that it holds.
    pub response: Json,
    pub finish_reason: String,
    /// The calls that were run in this round, with their answers.
    pub executed: Vec<ExecutionStep>,
    /// How the calls were run, if there were any.
    pub stats: Option<ExecutionStats>,
}

/// What an [`IterationTrace`] says.
pub struct IterationTraceView {
    pub iteration: nat,
    pub request: JsonView,
    pub response: JsonView,
    pub finish_reason: Seq<char>,
    pub executed: Seq<ExecutionStepView>,
    pub stats: Option<ExecutionStats>,
}

impl View for IterationTrace {
    type V = IterationTraceView;

    open spec fn view(&self) -> IterationTraceView {
        IterationTraceView {
            iteration: self.iteration as nat,
            request: self.request@,
            response: self.response@,
            finish_reason: self.finish_reason@,
            executed: steps_view(self.executed@),
            stats: self.stats,
        }
    }
}

/// What a list of traces says.
pub open spec fn traces_view(traces: Seq<IterationTrace>) -> Seq<IterationTraceView> {
    Seq::new(traces.len(), |i: int| traces[i]@)
}

impl Clone for IterationTrace {
    fn clone(&self) -> (copy: Self)
        ensures
            copy@ == self@,
    {
        IterationTrace {
            iteration: self.iteration,
            request: self.request.clone(),
            response: self.response.clone(),
            finish_reason: self.finish_reason.clone(),
            executed: copy_steps(&self.executed),
            stats: self.stats,
        }
    }
}

/// The same traces once more.
pub fn copy_traces(traces: &Vec<IterationTrace>) -> (copy: Vec<IterationTrace>)
    ensures
        traces_view(copy@) == traces_view(traces@),
{
    let mut copy: Vec<IterationTrace> = Vec::new();
    let mut i: usize = 0;
    while i < traces.len()
        invariant
            i <= traces@.len(),
            copy@.len() == i,
            forall|k: int| 0 <= k < i ==> (#[trigger] copy@[k])@ == traces@[k]@,
        decreases traces@.len() - i,
    {
        copy.push(traces[i].clone());
        i += 1;
    }
    assert(traces_view(copy@) =~= traces_view(traces@));
    copy
}

// ---------------------------------------------------------------------------
// The transcript
// ---------------------------------------------------------------------------

/// The line on how the calls of a round were run, where `time` is how many milliseconds that
/// took, in print.
pub open spec fn stats_line(stats: Option<ExecutionStats>, time: Seq<char>) -> Seq<char> {
    match stats {
        Some(stats) => "   tools: "@ + decimal(stats.n_calls as nat) + " ("@ + (if stats.parallel {
            "parallel"@
        } else {
            "sequential"@
        }) + " in "@ + time + " ms)\n"@,
        None => Seq::empty(),
    }
}

/// The lines on one call: what was called, and what came of it.
pub open spec fn step_lines(step: ExecutionStepView) -> Seq<char> {
    "   · ["@ + step.call.id + "] "@ + step.call.name + " "@ + step.call.arguments + "\n"@
        + "       ⇠ "@ + text_or_empty(step.result.content) + "\n"@
}

/// The lines on the calls of a round, in order.
pub open spec fn steps_lines(steps: Seq<ExecutionStepView>) -> Seq<char>
    decreases steps.len(),
{
    if steps.len() == 0 {
        Seq::empty()
    } else {
        steps_lines(steps.drop_last()) + step_lines(steps.last())
    }
}

/// The line that opens a round.
pub open spec fn header_line(t: IterationTraceView) -> Seq<char> {
    "── iteration "@ + decimal(t.iteration) + " · finish="@ + t.finish_reason
        + " ──────────────────────\n"@
}

/// The lines on one round, where `time` is how long its calls took, in print.
pub open spec fn trace_lines(t: IterationTraceView, time: Seq<char>) -> Seq<char> {
    header_line(t) + stats_line(t.stats, time) + steps_lines(t.executed)
}

/// The lines on all rounds, in order, where `times` are how long their calls took, in print.
pub open spec fn transcript_text(traces: Seq<IterationTraceView>, times: Seq<Seq<char>>) -> Seq<char>
    decreases traces.len(),
{
    if traces.len() == 0 {
        Seq::empty()
    } else {
        transcript_text(traces.drop_last(), times.drop_last()) + trace_lines(
            traces.last(),
            times.last(),
        )
    }
}

/// A transcript of several runs is the transcripts of the runs, one after the other.
pub proof fn transcripts_are_joined(
    a: Seq<IterationTraceView>,
    b: Seq<IterationTraceView>,
    s: Seq<Seq<char>>,
    t: Seq<Seq<char>>,
)
    requires
        s.len() == a.len(),
        t.len() == b.len(),
    ensures
        transcript_text(a + b, s + t) == transcript_text(a, s) + transcript_text(b, t),
    decreases b.len(),
{
    if b.len() == 0 {
        assert(a + b =~= a);
        assert(s + t =~= s);
        assert(transcript_text(a, s) + transcript_text(b, t) =~= transcript_text(a, s));
    } else {
        transcripts_are_joined(a, b.drop_last(), s, t.drop_last());
        assert((a + b).drop_last() =~= a + b.drop_last());
        assert((s + t).drop_last() =~= s + t.drop_last());
        assert(transcript_text(a + b, s + t) =~= transcript_text(a, s) + transcript_text(b, t));
    }
}

/// A round has a header that starts with its number, a line on its calls just where there is
/// a record of how they were run, and lines just for the calls that were run.
pub proof fn rounds_have_their_lines(t: IterationTraceView, time: Seq<char>)
    ensures
        trace_lines(t, time) == header_line(t) + stats_line(t.stats, time) + steps_lines(
            t.executed,
        ),
        ("── iteration "@ + decimal(t.iteration)).is_prefix_of(header_line(t)),
        header_line(t).len() > 0,
        stats_line(t.stats, time).len() > 0 <==> t.stats is Some,
        steps_lines(t.executed).len() > 0 <==> t.executed.len() > 0,
{
    reveal_strlit("── iteration ");
    reveal_strlit("   tools: ");
    reveal_strlit("   · [");
    assert(header_line(t) =~= ("── iteration "@ + decimal(t.iteration)) + (" · finish="@
        + t.finish_reason + " ──────────────────────\n"@));
}

/// The transcript holds the lines of each round between those of the rounds before it and
/// those of the rounds behind it.
pub proof fn rounds_are_transcribed_in_order(
    traces: Seq<IterationTraceView>,
    times: Seq<Seq<char>>,
    i: int,
)
    requires
        times.len() == traces.len(),
        0 <= i < traces.len(),
    ensures
        transcript_text(traces, times) == transcript_text(traces.take(i), times.take(i))
            + trace_lines(traces[i], times[i]) + transcript_text(
            traces.skip(i + 1),
            times.skip(i + 1),
        ),
{
    let a = traces.take(i + 1);
    let s = times.take(i + 1);
    assert(a.drop_last() =~= traces.take(i));
    assert(s.drop_last() =~= times.take(i));
    assert(traces =~= a + traces.skip(i + 1));
    assert(times =~= s + times.skip(i + 1));
    transcripts_are_joined(a, traces.skip(i + 1), s, times.skip(i + 1));
}

/// A transcript is empty just where there are no rounds.
pub proof fn only_no_rounds_have_no_transcript(
    traces: Seq<IterationTraceView>,
    times: Seq<Seq<char>>,
)
    requires
        times.len() == traces.len(),
    ensures
        transcript_text(traces, times) == Seq::<char>::empty() <==> traces.len() == 0,
{
    if traces.len() > 0 {
        rounds_have_their_lines(traces.last(), times.last());
        assert(transcript_text(traces, times).len() > 0);
    }
}

/// The transcript of rounds is the start of that of more rounds, where the printed times of
/// the former are the same.
pub proof fn transcripts_only_grow(
    a: Seq<IterationTraceView>,
    b: Seq<IterationTraceView>,
    s: Seq<Seq<char>>,
    t: Seq<Seq<char>>,
)
    requires
        s.len() == a.len(),
        t.len() == b.len(),
        a.is_prefix_of(b),
        s.is_prefix_of(t),
    ensures
        transcript_text(a, s).is_prefix_of(transcript_text(b, t)),
{
    let n = a.len() as int;
    assert(b =~= a + b.skip(n));
    assert(t =~= s + t.skip(n));
    transcripts_are_joined(a, b.skip(n), s, t.skip(n));
}

/// Whether `times` may be what `show_ms` prints for the times of these traces, which it is
/// given in nanoseconds; nothing where no calls were run.
pub open spec fn timed<M: Fn(u128) -> String>(
    show_ms: M,
    traces: Seq<IterationTraceView>,
    times: Seq<Seq<char>>,
) -> bool {
    &&& times.len() == traces.len()
    &&& forall|i: int|
        0 <= i < traces.len() ==> is_time(show_ms, traces[i].stats, #[trigger] times[i])
}

/// Whether `time` may be what `show_ms` prints for the time of a round.
pub open spec fn is_time<M: Fn(u128) -> String>(
    show_ms: M,
    stats: Option<ExecutionStats>,
    time: Seq<char>,
) -> bool {
    match stats {
        Some(stats) => exists|text: String| #[trigger]
            call_ensures(show_ms, (stats.elapsed_ns,), text) && text@ == time,
        None => time == Seq::<char>::empty(),
    }
}

/// Whether `show_ms` accepts the times of these traces.
pub open spec fn can_show<M: Fn(u128) -> String>(
    show_ms: M,
    traces: Seq<IterationTraceView>,
) -> bool {
    forall|i: int|
        0 <= i < traces.len() ==> match (#[trigger] traces[i]).stats {
            Some(stats) => call_requires(show_ms, (stats.elapsed_ns,)),
            None => true,
        }
}

/// The times of traces in print.
pub fn print_times<M: Fn(u128) -> String>(traces: &Vec<IterationTrace>, show_ms: &M) -> (times: Vec<
    String,
>)
    requires
        can_show(*show_ms, traces_view(traces@)),
    ensures
        timed(*show_ms, traces_view(traces@), texts(times@)),
{
    let mut times: Vec<String> = Vec::new();
    let mut i: usize = 0;
    while i < traces.len()
        invariant
            i <= traces@.len(),
            can_show(*show_ms, traces_view(traces@)),
            times@.len() == i,
            forall|k: int|
                0 <= k < i ==> is_time(*show_ms, traces@[k].stats, (#[trigger] times@[k])@),
        decreases traces@.len() - i,
    {
        let time = match &traces[i].stats {
            Some(stats) => {
                assert(traces_view(traces@)[i as int].stats == Some(*stats));
                let text = show_ms(stats.elapsed_ns);
                assert(call_ensures(*show_ms, (stats.elapsed_ns,), text));
                text
            },
            None => String::new(),
        };
        times.push(time);
        i += 1;
    }
    times
}

/// Appends the line on how the calls of a round were run.
fn append_stats(out: &mut String, stats: &Option<ExecutionStats>, time: &str)
    ensures
        final(out)@ == old(out)@ + stats_line(*stats, time@),
{
    let ghost before = out@;
    match stats {
        Some(stats) => {
            out.append("   tools: ");
            out.append(render_unsigned(stats.n_calls as u128).as_str());
            out.append(" (");
            out.append(
                if stats.parallel {
                    "parallel"
                } else {
                    "sequential"
                },
            );
            out.append(" in ");
            out.append(time);
            out.append(" ms)\n");
        },
        None => {},
    }
    assert(out@ =~= before + stats_line(*stats, time@));
}

/// Appends the lines on the calls of a round.
fn append_steps(out: &mut String, steps: &Vec<ExecutionStep>)
    ensures
        final(out)@ == old(out)@ + steps_lines(steps_view(steps@)),
{
    let ghost before = out@;
    let ghost all = steps_view(steps@);
    let mut i: usize = 0;
    assert(out@ =~= before + steps_lines(all.take(0)));
    while i < steps.len()
        invariant
            i <= steps@.len(),
            all == steps_view(steps@),
            out@ == before + steps_lines(all.take(i as int)),
        decreases steps@.len() - i,
    {
        let step = &steps[i];
        let ghost so_far = out@;
        out.append("   · [");
        out.append(step.call.id.as_str());
        out.append("] ");
        out.append(step.call.name.as_str());
        out.append(" ");
        out.append(step.call.arguments.as_str());
        out.append("\n");
        out.append("       ⇠ ");
        out.append(copy_text_or_empty(&step.result.content).as_str());
        out.append("\n");
        proof {
            assert(out@ =~= so_far + step_lines(step@));
            assert(all.take(i + 1).drop_last() =~= all.take(i as int));
            assert(all.take(i + 1).last() == step@);
            assert(out@ =~= before + steps_lines(all.take(i + 1)));
        }
        i += 1;
    }
    assert(all.take(i as int) =~= all);
}

/// The transcript of traces, where `times` are how long their calls took, in print.
pub fn render_traces(traces: &Vec<IterationTrace>, times: &Vec<String>) -> (out: String)
    requires
        times@.len() == traces@.len(),
    ensures
        out@ == transcript_text(traces_view(traces@), texts(times@)),
{
    let mut out = String::new();
    let ghost all = traces_view(traces@);
    let ghost shown = texts(times@);
    let mut i: usize = 0;
    assert(all.take(0) =~= Seq::<IterationTraceView>::empty());
    while i < traces.len()
        invariant
            i <= traces@.len(),
            times@.len() == traces@.len(),
            all == traces_view(traces@),
            shown == texts(times@),
            out@ == transcript_text(all.take(i as int), shown.take(i as int)),
        decreases traces@.len() - i,
    {
        let t = &traces[i];
        let ghost so_far = out@;
        out.append("── iteration ");
        out.append(render_unsigned(t.iteration as u128).as_str());
        out.append(" · finish=");
        out.append(t.finish_reason.as_str());
        out.append(" ──────────────────────\n");
        append_stats(&mut out, &t.stats, times[i].as_str());
        append_steps(&mut out, &t.executed);
        proof {
            assert(out@ =~= so_far + trace_lines(t@, times@[i as int]@));
            assert(all.take(i + 1).drop_last() =~= all.take(i as int));
            assert(all.take(i + 1).last() == t@);
            assert(shown.take(i + 1).drop_last() =~= shown.take(i as int));
            assert(shown.take(i + 1).last() == times@[i as int]@);
        }
        i += 1;
    }
    assert(all.take(i as int) =~= all);
    assert(shown.take(i as int) =~= shown);
    out
}

} // verus!
