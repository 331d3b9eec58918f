//! What hooks are told, and what they leave in the log.
use vstd::prelude::*;
use crate::hooks::{
    called, detached, entries_view, event_name, log_after, noted, Handler, HookEvent, HookLogEntry,
    HookLogEntryView, HookPayload, HookPayloadView, Hooks, Reaction,
};

verus! {

/// Each event is called by its own name.
pub proof fn events_are_called_by_name(event: HookEvent, name: &str)
    requires
        call_ensures(HookEvent::as_str, (&event,), name),
    ensures
        name@ == (match event {
            HookEvent::PreToolUse => "pretooluse"@,
            HookEvent::PostToolUse => "posttooluse"@,
            HookEvent::UserPromptSubmit => "userpromptsubmit"@,
            HookEvent::Stop => "stop"@,
            HookEvent::SubAgentStart => "subagentstart"@,
            HookEvent::SubAgentStop => "subagentstop"@,
        }),
{
}

/// A payload belongs to the event that it is named after.
pub proof fn payloads_belong_to_their_events(payload: HookPayload, event: HookEvent)
    requires
        call_ensures(HookPayload::event, (&payload,), event),
    ensures
        match payload {
            HookPayload::PreToolUse { .. } => event == HookEvent::PreToolUse,
            HookPayload::PostToolUse { .. } => event == HookEvent::PostToolUse,
            HookPayload::UserPromptSubmit { .. } => event == HookEvent::UserPromptSubmit,
            HookPayload::Stop { .. } => event == HookEvent::Stop,
            HookPayload::SubAgentStart { .. } => event == HookEvent::SubAgentStart,
            HookPayload::SubAgentStop { .. } => event == HookEvent::SubAgentStop,
        },
{
}

/// The notes of hooks in two lots are those of the one lot, then those of the other.
pub proof fn notes_are_written_in_order<H>(
    a: Seq<Handler<H>>,
    b: Seq<Handler<H>>,
    event: HookEvent,
)
    ensures
        noted(a + b, event) == noted(a, event) + noted(b, event),
    decreases b.len(),
{
    if b.len() == 0 {
        assert(a + b =~= a);
        assert(noted(a, event) + noted(b, event) =~= noted(a, event));
    } else {
        notes_are_written_in_order(a, b.drop_last(), event);
        assert((a + b).drop_last() =~= a + b.drop_last());
        assert((a + b).last() == b.last());
        assert(noted(a + b, event) =~= noted(a, event) + noted(b, event));
    }
}

/// One hook writes one note if it is attached and observes the event, and nothing else.
pub proof fn single_notes_are_written<H>(handler: Handler<H>, event: HookEvent)
    ensures
        noted(seq![handler], event) == (match handler.reaction {
            Reaction::Note { message, attached } => if attached && handler.event == event {
                seq![HookLogEntryView { event: handler.event, message: message@ }]
            } else {
                Seq::empty()
            },
            Reaction::Call(_) => Seq::empty(),
        }),
{
    let one = seq![handler];
    assert(one.drop_last() =~= Seq::<Handler<H>>::empty());
    assert(one.last() == handler);
    assert(noted(one.drop_last(), event) =~= Seq::<HookLogEntryView>::empty());
    if let Reaction::Note { message, attached } = handler.reaction {
        assert(Seq::<HookLogEntryView>::empty().push(HookLogEntryView { event, message: message@ })
            =~= seq![HookLogEntryView { event, message: message@ }]);
    }
}

/// An event that fires keeps the log, adds the notes for it, and at the very end its own
/// name. Without a log nothing is kept.
pub proof fn events_are_logged_last<H>(
    handlers: Seq<Handler<H>>,
    log: Option<Seq<HookLogEntryView>>,
    event: HookEvent,
)
    ensures
        match log {
            Some(lines) => log_after(handlers, log, event) matches Some(after) && {
                &&& lines.is_prefix_of(after)
                &&& after.len() == lines.len() + noted(handlers, event).len() + 1
                &&& after.drop_last() == lines + noted(handlers, event)
                &&& after.last().event == event
                &&& after.last().message == event_name(event)
            },
            None => log_after(handlers, log, event) is None,
        },
{
    if let Some(lines) = log {
        let after = log_after(handlers, log, event)->0;
        assert(after.drop_last() =~= lines + noted(handlers, event));
    }
}

/// Every note in the log is one of a hook that is attached and observes the event.
pub proof fn notes_come_of_hooks<H>(handlers: Seq<Handler<H>>, event: HookEvent, k: int)
    requires
        0 <= k < noted(handlers, event).len(),
    ensures
        noted(handlers, event)[k].event == event,
        exists|i: int|
            0 <= i < handlers.len() && (#[trigger] handlers[i]).event == event && (
            handlers[i].reaction matches Reaction::Note { message, attached } && attached
                && message@ == noted(handlers, event)[k].message),
    decreases handlers.len(),
{
    let fewer = handlers.drop_last();
    let before = noted(fewer, event);
    if k < before.len() {
        notes_come_of_hooks(fewer, event, k);
        let i = choose|i: int|
            0 <= i < fewer.len() && (#[trigger] fewer[i]).event == event && (
            fewer[i].reaction matches Reaction::Note { message, attached } && attached && message@
                == noted(fewer, event)[k].message);
        assert(handlers[i] == fewer[i]);
        assert(noted(handlers, event)[k] == before[k]);
    } else {
        assert(handlers.last() == handlers[handlers.len() - 1]);
    }
}

/// Every callback for an event is called with the payload, whichever other hooks there are.
pub proof fn every_callback_is_called<H: Fn(&HookPayload)>(
    handlers: Seq<Handler<H>>,
    event: HookEvent,
    payload: HookPayload,
    i: int,
)
    requires
        called(handlers, event, payload),
        0 <= i < handlers.len(),
        handlers[i].event == event,
    ensures
        handlers[i].reaction matches Reaction::Call(f) ==> call_ensures(f, (&payload,), ()),
{
}

/// New hooks observe nothing and keep no log.
pub proof fn new_hooks_are_empty<H>(hooks: Hooks<H>, n: usize, entries: Vec<HookLogEntry>)
    requires
        call_ensures(Hooks::<H>::new, (), hooks),
        call_ensures(Hooks::<H>::count, (&hooks,), n),
        call_ensures(Hooks::<H>::log_entries, (&hooks,), entries),
    ensures
        n == 0,
        entries@.len() == 0,
        hooks.log() is None,
{
    assert(entries_view(entries@).len() == entries@.len());
}

/// The lines of the log are given as they are, from the oldest on, and none without a log.
pub proof fn the_log_is_given_as_it_is<H>(hooks: Hooks<H>, entries: Vec<HookLogEntry>)
    requires
        call_ensures(Hooks::<H>::log_entries, (&hooks,), entries),
    ensures
        match hooks.log() {
            Some(lines) => entries@.len() == lines.len() && forall|i: int|
                0 <= i < lines.len() ==> (#[trigger] entries@[i]).event == lines[i].event
                    && entries@[i].message@ == lines[i].message,
            None => entries@.len() == 0,
        },
{
    let views = entries_view(entries@);
    assert(views.len() == entries@.len());
    assert forall|i: int| 0 <= i < entries@.len() implies views[i] == (#[trigger] entries@[i])@ by {
    }
}

/// A new log is empty. Callbacks are kept; notes are kept too, but write nothing any more.
pub proof fn new_logs_are_empty<H>(hooks: Hooks<H>, logged: Hooks<H>, event: HookEvent)
    requires
        call_ensures(Hooks::<H>::with_log, (hooks,), logged),
    ensures
        logged.log() == Some(Seq::<HookLogEntryView>::empty()),
        logged.handlers().len() == hooks.handlers().len(),
        forall|i: int|
            0 <= i < hooks.handlers().len() ==> {
                let before = hooks.handlers()[i];
                let after = #[trigger] logged.handlers()[i];
                &&& after.event == before.event
                &&& match before.reaction {
                    Reaction::Call(f) => after.reaction == before.reaction,
                    Reaction::Note { message, .. } => after.reaction matches Reaction::Note {
                        message: kept,
                        attached,
                    } && kept == message && !attached,
                }
            },
        noted(logged.handlers(), event) == Seq::<HookLogEntryView>::empty(),
{
    lemma_detached(hooks.handlers(), event);
}

/// Detached notes write nothing.
proof fn lemma_detached<H>(handlers: Seq<Handler<H>>, event: HookEvent)
    ensures
        noted(handlers.map_values(|h: Handler<H>| detached(h)), event)
            == Seq::<HookLogEntryView>::empty(),
    decreases handlers.len(),
{
    let all = handlers.map_values(|h: Handler<H>| detached(h));
    if handlers.len() > 0 {
        let fewer = handlers.drop_last();
        lemma_detached(fewer, event);
        assert(all.drop_last() =~= fewer.map_values(|h: Handler<H>| detached(h)));
        assert(all.last() == detached(handlers.last()));
    }
}

/// A hook that notes goes behind those that are there, and is attached just where a log is
/// kept.
pub proof fn notes_are_attached_to_the_log<H>(
    hooks: Hooks<H>,
    event: HookEvent,
    message: String,
    more: Hooks<H>,
)
    requires
        call_ensures(Hooks::<H>::log_hook, (hooks, event, message), more),
    ensures
        more.log() == hooks.log(),
        more.handlers().len() == hooks.handlers().len() + 1,
        more.handlers().drop_last() == hooks.handlers(),
        more.handlers().last().event == event,
        more.handlers().last().reaction matches Reaction::Note { message: kept, attached } && kept@
            == message@ && (attached <==> hooks.log() is Some),
{
    assert(more.handlers().drop_last() =~= hooks.handlers());
}

/// Whether a callback has been registered for an event behind all hooks that were there.
pub open spec fn registers<H>(before: Hooks<H>, event: HookEvent, f: H, after: Hooks<H>) -> bool {
    &&& after.log() == before.log()
    &&& after.handlers().len() == before.handlers().len() + 1
    &&& after.handlers().drop_last() == before.handlers()
    &&& after.handlers().last().event == event
    &&& after.handlers().last().reaction == Reaction::Call(f)
}

/// A callback is registered for the event that is asked for, behind all hooks that are there.
pub proof fn callbacks_are_registered_last<H>(event: HookEvent, f: H)
    ensures
        forall|hooks: &mut Hooks<H>| #[trigger]
            call_ensures(Hooks::<H>::register, (hooks, event, f), ()) ==> registers(
                *hooks,
                event,
                f,
                *final(hooks),
            ),
{
    assert forall|hooks: &mut Hooks<H>| #[trigger]
        call_ensures(Hooks::<H>::register, (hooks, event, f), ()) implies registers(
        *hooks,
        event,
        f,
        *final(hooks),
    ) by {
        assert((*final(hooks)).handlers().drop_last() =~= (*hooks).handlers());
    }
}

/// Each way to register a callback for an event does so for the event of its name.
pub proof fn callbacks_are_registered_by_name<H>(f: H)
    ensures
        forall|hooks: &mut Hooks<H>| #[trigger]
            call_ensures(Hooks::<H>::on_pre_tool_use, (hooks, f), ()) ==> registers(
                *hooks,
                HookEvent::PreToolUse,
                f,
                *final(hooks),
            ),
        forall|hooks: &mut Hooks<H>| #[trigger]
            call_ensures(Hooks::<H>::on_post_tool_use, (hooks, f), ()) ==> registers(
                *hooks,
                HookEvent::PostToolUse,
                f,
                *final(hooks),
            ),
        forall|hooks: &mut Hooks<H>| #[trigger]
            call_ensures(Hooks::<H>::on_user_prompt_submit, (hooks, f), ()) ==> registers(
                *hooks,
                HookEvent::UserPromptSubmit,
                f,
                *final(hooks),
            ),
        forall|hooks: &mut Hooks<H>| #[trigger]
            call_ensures(Hooks::<H>::on_stop, (hooks, f), ()) ==> registers(
                *hooks,
                HookEvent::Stop,
                f,
                *final(hooks),
            ),
        forall|hooks: &mut Hooks<H>| #[trigger]
            call_ensures(Hooks::<H>::on_sub_agent_start, (hooks, f), ()) ==> registers(
                *hooks,
                HookEvent::SubAgentStart,
                f,
                *final(hooks),
            ),
        forall|hooks: &mut Hooks<H>| #[trigger]
            call_ensures(Hooks::<H>::on_sub_agent_stop, (hooks, f), ()) ==> registers(
                *hooks,
                HookEvent::SubAgentStop,
                f,
                *final(hooks),
            ),
{
    assert forall|hooks: &mut Hooks<H>| #[trigger]
        call_ensures(Hooks::<H>::on_pre_tool_use, (hooks, f), ()) implies registers(
        *hooks,
        HookEvent::PreToolUse,
        f,
        *final(hooks),
    ) by {
        assert((*final(hooks)).handlers().drop_last() =~= (*hooks).handlers());
    }
    assert forall|hooks: &mut Hooks<H>| #[trigger]
        call_ensures(Hooks::<H>::on_post_tool_use, (hooks, f), ()) implies registers(
        *hooks,
        HookEvent::PostToolUse,
        f,
        *final(hooks),
    ) by {
        assert((*final(hooks)).handlers().drop_last() =~= (*hooks).handlers());
    }
    assert forall|hooks: &mut Hooks<H>| #[trigger]
        call_ensures(Hooks::<H>::on_user_prompt_submit, (hooks, f), ()) implies registers(
        *hooks,
        HookEvent::UserPromptSubmit,
        f,
        *final(hooks),
    ) by {
        assert((*final(hooks)).handlers().drop_last() =~= (*hooks).handlers());
    }
    assert forall|hooks: &mut Hooks<H>| #[trigger]
        call_ensures(Hooks::<H>::on_stop, (hooks, f), ()) implies registers(
        *hooks,
        HookEvent::Stop,
        f,
        *final(hooks),
    ) by {
        assert((*final(hooks)).handlers().drop_last() =~= (*hooks).handlers());
    }
    assert forall|hooks: &mut Hooks<H>| #[trigger]
        call_ensures(Hooks::<H>::on_sub_agent_start, (hooks, f), ()) implies registers(
        *hooks,
        HookEvent::SubAgentStart,
        f,
        *final(hooks),
    ) by {
        assert((*final(hooks)).handlers().drop_last() =~= (*hooks).handlers());
    }
    assert forall|hooks: &mut Hooks<H>| #[trigger]
        call_ensures(Hooks::<H>::on_sub_agent_stop, (hooks, f), ()) implies registers(
        *hooks,
        HookEvent::SubAgentStop,
        f,
        *final(hooks),
    ) by {
        assert((*final(hooks)).handlers().drop_last() =~= (*hooks).handlers());
    }
}

/// Whether a payload is one for an event.
pub open spec fn is_for(payload: HookPayload, event: HookEvent) -> bool {
    match event {
        HookEvent::PreToolUse => payload is PreToolUse,
        HookEvent::PostToolUse => payload is PostToolUse,
        HookEvent::UserPromptSubmit => payload is UserPromptSubmit,
        HookEvent::Stop => payload is Stop,
        HookEvent::SubAgentStart => payload is SubAgentStart,
        HookEvent::SubAgentStop => payload is SubAgentStop,
    }
}

/// An event that fires calls back every hook that observes it with the payload, and no hook
/// is lost. The log keeps what it has, and ends in the line of the event. A payload of
/// another event leaves no trace.
pub proof fn firing_calls_back_and_logs<H: Fn(&HookPayload)>(
    event: HookEvent,
    payload: HookPayload,
)
    ensures
        forall|hooks: &mut Hooks<H>| #[trigger]
            call_ensures(Hooks::<H>::fire, (hooks, event, &payload), ()) ==> {
                &&& (*final(hooks)).handlers() == (*hooks).handlers()
                &&& !is_for(payload, event) ==> (*final(hooks)).log() == (*hooks).log()
                &&& is_for(payload, event) ==> {
                    &&& forall|i: int|
                        #![trigger (*hooks).handlers()[i]]
                        0 <= i < (*hooks).handlers().len() && (*hooks).handlers()[i].event == event
                            ==> ((*hooks).handlers()[i].reaction matches Reaction::Call(f)
                            ==> call_ensures(f, (&payload,), ()))
                    &&& match (*hooks).log() {
                        None => (*final(hooks)).log() is None,
                        Some(lines) => (*final(hooks)).log() matches Some(after) && {
                            &&& lines.is_prefix_of(after)
                            &&& after.len() > lines.len()
                            &&& after.last().event == event
                            &&& after.last().message == event_name(event)
                            &&& after.drop_last() == lines + noted((*hooks).handlers(), event)
                        },
                    }
                }
            },
{
    assert forall|hooks: &mut Hooks<H>| #[trigger]
        call_ensures(Hooks::<H>::fire, (hooks, event, &payload), ()) implies {
        &&& (*final(hooks)).handlers() == (*hooks).handlers()
        &&& !is_for(payload, event) ==> (*final(hooks)).log() == (*hooks).log()
        &&& is_for(payload, event) ==> {
            &&& forall|i: int|
                #![trigger (*hooks).handlers()[i]]
                0 <= i < (*hooks).handlers().len() && (*hooks).handlers()[i].event == event ==> ((
                *hooks).handlers()[i].reaction matches Reaction::Call(f) ==> call_ensures(
                    f,
                    (&payload,),
                    (),
                ))
            &&& match (*hooks).log() {
                None => (*final(hooks)).log() is None,
                Some(lines) => (*final(hooks)).log() matches Some(after) && {
                    &&& lines.is_prefix_of(after)
                    &&& after.len() > lines.len()
                    &&& after.last().event == event
                    &&& after.last().message == event_name(event)
                    &&& after.drop_last() == lines + noted((*hooks).handlers(), event)
                },
            }
        }
    } by {
        assert(is_for(payload, event) <==> payload@.event() == event);
        events_are_logged_last((*hooks).handlers(), (*hooks).log(), event);
    }
}

/// A payload says what it holds.
pub proof fn payloads_say_what_they_hold(payload: HookPayload)
    ensures
        match payload {
            HookPayload::PreToolUse { tool, args } => payload@ == (HookPayloadView::PreToolUse {
                tool: tool@,
                args: args@,
            }),
            HookPayload::PostToolUse { tool, output, is_error } => payload@ == (
            HookPayloadView::PostToolUse { tool: tool@, output: output@, is_error }),
            HookPayload::UserPromptSubmit { prompt } => payload@ == (
            HookPayloadView::UserPromptSubmit { prompt: prompt@ }),
            HookPayload::Stop { reason } => payload@ == (HookPayloadView::Stop {
                reason: reason@,
            }),
            HookPayload::SubAgentStart { name, prompt } => payload@ == (
            HookPayloadView::SubAgentStart { name: name@, prompt: prompt@ }),
            HookPayload::SubAgentStop { name, result } => payload@ == (
            HookPayloadView::SubAgentStop { name: name@, result: result@ }),
        },
{
}

/// A copy of hooks has the same log, and for each hook one for the same event: the same
/// note, or a copy of the callback.
pub proof fn copies_of_hooks_observe_the_same<H: Clone>(hooks: Hooks<H>, copy: Hooks<H>)
    requires
        call_ensures(Hooks::<H>::clone, (&hooks,), copy),
    ensures
        copy.log() == hooks.log(),
        copy.handlers().len() == hooks.handlers().len(),
        forall|i: int|
            0 <= i < hooks.handlers().len() ==> {
                let before = hooks.handlers()[i];
                let after = #[trigger] copy.handlers()[i];
                &&& after.event == before.event
                &&& match before.reaction {
                    Reaction::Call(f) => after.reaction matches Reaction::Call(g) && cloned(f, g),
                    Reaction::Note { message, attached } => after.reaction matches Reaction::Note {
                        message: kept,
                        attached: still,
                    } && kept@ == message@ && still == attached,
                }
            },
{
}

} // verus!
