//! What the transcript of a round holds.
use vstd::prelude::*;
use crate::text::{decimal, texts};
use crate::trace::{
    header_line, is_time, print_times, render_traces, stats_line, step_lines, steps_lines,
    trace_lines, traces_view, transcript_text, transcripts_are_joined, ExecutionStepView,
    IterationTrace, IterationTraceView,
};

verus! {

/// The lines on calls in two lots are those on the one lot, then those on the other.
pub proof fn steps_are_told_in_order(a: Seq<ExecutionStepView>, b: Seq<ExecutionStepView>)
    ensures
        steps_lines(a + b) == steps_lines(a) + steps_lines(b),
    decreases b.len(),
{
    if b.len() == 0 {
        assert(a + b =~= a);
        assert(steps_lines(a) + steps_lines(b) =~= steps_lines(a));
    } else {
        steps_are_told_in_order(a, b.drop_last());
        assert((a + b).drop_last() =~= a + b.drop_last());
        assert((a + b).last() == b.last());
        assert(steps_lines(a + b) =~= steps_lines(a) + steps_lines(b));
    }
}

/// One call is told by its id, the name of the tool and the arguments as they are, and on a
/// line of its own by the text of its answer.
pub proof fn steps_are_told_part_by_part(step: ExecutionStepView)
    ensures
        steps_lines(seq![step]) == "   · ["@ + step.call.id + "] "@ + step.call.name + " "@
            + step.call.arguments + "\n"@ + "       ⇠ "@ + (match step.result.content {
            Some(text) => text,
            None => Seq::empty(),
        }) + "\n"@,
{
    let one = seq![step];
    assert(one.drop_last() =~= Seq::<ExecutionStepView>::empty());
    assert(one.last() == step);
    assert(steps_lines(one.drop_last()) =~= Seq::<char>::empty());
    assert(steps_lines(one) =~= step_lines(step));
}

/// One round is told by its number and why the response ended, then, where calls were run,
/// by how many there were, how they were run and how long that took, then by the calls.
pub proof fn rounds_are_told_part_by_part(t: IterationTraceView, time: Seq<char>)
    ensures
        trace_lines(t, time) == "── iteration "@ + decimal(t.iteration) + " · finish="@
            + t.finish_reason + " ──────────────────────\n"@ + (match t.stats {
            Some(stats) => "   tools: "@ + decimal(stats.n_calls as nat) + " ("@ + (
            if stats.parallel {
                "parallel"@
            } else {
                "sequential"@
            }) + " in "@ + time + " ms)\n"@,
            None => Seq::empty(),
        }) + steps_lines(t.executed),
{
    assert(header_line(t) + stats_line(t.stats, time) + steps_lines(t.executed)
        =~= trace_lines(t, time));
}

/// The transcript of rounds in two lots is that of the one lot, then that of the other; the
/// transcript of one round is its lines, and that of none is empty.
pub proof fn transcripts_are_told_in_order(
    a: Vec<IterationTrace>,
    s: Vec<String>,
    b: Vec<IterationTrace>,
    t: Vec<String>,
    both: Vec<IterationTrace>,
    times: Vec<String>,
    of_a: String,
    of_b: String,
    of_both: String,
)
    requires
        s@.len() == a@.len(),
        t@.len() == b@.len(),
        both@ == a@ + b@,
        times@ == s@ + t@,
        call_ensures(render_traces, (&a, &s), of_a),
        call_ensures(render_traces, (&b, &t), of_b),
        call_ensures(render_traces, (&both, &times), of_both),
    ensures
        of_both@ == of_a@ + of_b@,
        a@.len() == 0 ==> of_a@.len() == 0,
        a@.len() == 1 ==> of_a@ == trace_lines(a@[0]@, s@[0]@),
{
    assert(traces_view(both@) =~= traces_view(a@) + traces_view(b@));
    assert(texts(times@) =~= texts(s@) + texts(t@));
    transcripts_are_joined(traces_view(a@), traces_view(b@), texts(s@), texts(t@));
    if a@.len() == 1 {
        let one = traces_view(a@);
        assert(one.drop_last() =~= Seq::<IterationTraceView>::empty());
        assert(one.last() == a@[0]@);
        assert(texts(s@).last() == s@[0]@);
        assert(transcript_text(one.drop_last(), texts(s@).drop_last()) =~= Seq::<char>::empty());
        assert(transcript_text(one, texts(s@)) =~= trace_lines(a@[0]@, s@[0]@));
    }
}

/// Times are printed round by round: what `show_ms` gives for the nanoseconds of a round in
/// which calls were run, and nothing for any other.
pub proof fn times_are_printed_round_by_round<M: Fn(u128) -> String>(
    traces: Vec<IterationTrace>,
    show_ms: M,
    times: Vec<String>,
)
    requires
        call_ensures(print_times::<M>, (&traces, &show_ms), times),
    ensures
        times@.len() == traces@.len(),
        forall|i: int|
            0 <= i < traces@.len() ==> match (#[trigger] traces@[i]).stats {
                Some(stats) => exists|text: String| #[trigger]
                    call_ensures(show_ms, (stats.elapsed_ns,), text) && times@[i]@
                        == text@,
                None => times@[i]@.len() == 0,
            },
{
    assert(texts(times@).len() == times@.len());
    assert forall|i: int| 0 <= i < traces@.len() implies match (#[trigger] traces@[i]).stats {
        Some(stats) => exists|text: String| #[trigger]
            call_ensures(show_ms, (stats.elapsed_ns,), text) && times@[i]@ == text@,
        None => times@[i]@.len() == 0,
    } by {
        assert(texts(times@)[i] == times@[i]@);
        assert(traces_view(traces@)[i].stats == traces@[i].stats);
        assert(is_time(show_ms, traces_view(traces@)[i].stats, texts(times@)[i]));
    }
}

/// A trace says what it holds.
pub proof fn traces_say_what_they_hold(t: IterationTrace)
    ensures
        t@.iteration == t.iteration,
        t@.request == t.request@,
        t@.response == t.response@,
        t@.finish_reason == t.finish_reason@,
        t@.stats == t.stats,
        t@.executed.len() == t.executed@.len(),
        forall|i: int|
            0 <= i < t.executed@.len() ==> (#[trigger] t@.executed[i]).call == t.executed@[i].call@
                && t@.executed[i].result == t.executed@[i].result@,
{
}

} // verus!
