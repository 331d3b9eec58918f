//! Hooks: callbacks that observe the boundaries of the agent loop.
//!
//! A loop is a series of events: the user submits a prompt, a tool is about to be used,
//! a tool has produced a result, a sub-agent starts or stops, and the turn stops. Hooks
//! observe those events without changing the wiring of the loop. Several hooks may
//! subscribe to one event; they run in the order in which they were registered.
use vstd::prelude::*;
use crate::json::{Json, JsonView};

pub mod laws;

verus! {

/// The six lifecycle events that hooks can observe.
#[derive(Debug, Clone, Copy, PartialEq, Eq, Structural, Hash)]
pub enum HookEvent {
    /// Fired before a tool runs.
    PreToolUse,
    /// Fired after a tool has returned.
    PostToolUse,
    /// Fired when the user's message enters the loop.
    UserPromptSubmit,
    /// Fired when the turn ends.
    Stop,
    /// Fired when a sub-agent is spawned.
    SubAgentStart,
    /// Fired when a sub-agent has finished.
    SubAgentStop,
}

/// The name of an event in logs.
pub open spec fn event_name(event: HookEvent) -> Seq<char> {
    match event {
        HookEvent::PreToolUse => "pretooluse"@,
        HookEvent::PostToolUse => "posttooluse"@,
        HookEvent::UserPromptSubmit => "userpromptsubmit"@,
        HookEvent::Stop => "stop"@,
        HookEvent::SubAgentStart => "subagentstart"@,
        HookEvent::SubAgentStop => "subagentstop"@,
    }
}

impl HookEvent {
    /// Every event.
    pub const ALL: [HookEvent; 6] = [
        HookEvent::PreToolUse,
        HookEvent::PostToolUse,
        HookEvent::UserPromptSubmit,
        HookEvent::Stop,
        HookEvent::SubAgentStart,
        HookEvent::SubAgentStop,
    ];

    /// The canonical name of the event.
    pub fn as_str(&self) -> (name: &'static str)
        ensures
            name@ == event_name(*self),
    {
        match self {
            HookEvent::PreToolUse => "pretooluse",
            HookEvent::PostToolUse => "posttooluse",
            HookEvent::UserPromptSubmit => "userpromptsubmit",
            HookEvent::Stop => "stop",
            HookEvent::SubAgentStart => "subagentstart",
            HookEvent::SubAgentStop => "subagentstop",
        }
    }
}

/// No two events have the same name.
pub proof fn event_names_are_distinct(a: HookEvent, b: HookEvent)
    ensures
        event_name(a) == event_name(b) ==> a == b,
{
    reveal_strlit("pretooluse");
    reveal_strlit("posttooluse");
    reveal_strlit("userpromptsubmit");
    reveal_strlit("stop");
    reveal_strlit("subagentstart");
    reveal_strlit("subagentstop");
    assert(event_name(a).len() == event_name(b).len() ==> a == b);
}

/// `HookEvent::ALL` holds every event.
pub proof fn all_holds_every_event(event: HookEvent)
    ensures
        HookEvent::ALL@.contains(event),
{
    let all = HookEvent::ALL@;
    assert(all[0] == HookEvent::PreToolUse);
    assert(all[1] == HookEvent::PostToolUse);
    assert(all[2] == HookEvent::UserPromptSubmit);
    assert(all[3] == HookEvent::Stop);
    assert(all[4] == HookEvent::SubAgentStart);
    assert(all[5] == HookEvent::SubAgentStop);
}

/// What a hook is told. Each variant belongs to one event and carries what the event is
/// about.
#[derive(Debug)]
pub enum HookPayload {
    PreToolUse { tool: String, args: Json },
    PostToolUse { tool: String, output: String, is_error: bool },
    UserPromptSubmit { prompt: String },
    Stop { reason: String },
    SubAgentStart { name: String, prompt: String },
    SubAgentStop { name: String, result: String },
}

/// What a [`HookPayload`] says.
pub enum HookPayloadView {
    PreToolUse { tool: Seq<char>, args: JsonView },
    PostToolUse { tool: Seq<char>, output: Seq<char>, is_error: bool },
    UserPromptSubmit { prompt: Seq<char> },
    Stop { reason: Seq<char> },
    SubAgentStart { name: Seq<char>, prompt: Seq<char> },
    SubAgentStop { name: Seq<char>, result: Seq<char> },
}

impl View for HookPayload {
    type V = HookPayloadView;

    open spec fn view(&self) -> HookPayloadView {
        match self {
            HookPayload::PreToolUse { tool, args } => HookPayloadView::PreToolUse {
                tool: tool@,
                args: args@,
            },
            HookPayload::PostToolUse { tool, output, is_error } => HookPayloadView::PostToolUse {
                tool: tool@,
                output: output@,
                is_error: *is_error,
            },
            HookPayload::UserPromptSubmit { prompt } => HookPayloadView::UserPromptSubmit {
                prompt: prompt@,
            },
            HookPayload::Stop { reason } => HookPayloadView::Stop { reason: reason@ },
            HookPayload::SubAgentStart { name, prompt } => HookPayloadView::SubAgentStart {
                name: name@,
                prompt: prompt@,
            },
            HookPayload::SubAgentStop { name, result } => HookPayloadView::SubAgentStop {
                name: name@,
                result: result@,
            },
        }
    }
}

impl Clone for HookPayload {
    fn clone(&self) -> (copy: Self)
        ensures
            copy@ == self@,
    {
        match self {
            HookPayload::PreToolUse { tool, args } => HookPayload::PreToolUse {
                tool: tool.clone(),
                args: args.clone(),
            },
            HookPayload::PostToolUse { tool, output, is_error } => HookPayload::PostToolUse {
                tool: tool.clone(),
                output: output.clone(),
                is_error: *is_error,
            },
            HookPayload::UserPromptSubmit { prompt } => HookPayload::UserPromptSubmit {
                prompt: prompt.clone(),
            },
            HookPayload::Stop { reason } => HookPayload::Stop { reason: reason.clone() },
            HookPayload::SubAgentStart { name, prompt } => HookPayload::SubAgentStart {
                name: name.clone(),
                prompt: prompt.clone(),
            },
            HookPayload::SubAgentStop { name, result } => HookPayload::SubAgentStop {
                name: name.clone(),
                result: result.clone(),
            },
        }
    }
}

impl HookPayloadView {
    /// The event that a payload belongs to.
    pub open spec fn event(self) -> HookEvent {
        match self {
            HookPayloadView::PreToolUse { .. } => HookEvent::PreToolUse,
            HookPayloadView::PostToolUse { .. } => HookEvent::PostToolUse,
            HookPayloadView::UserPromptSubmit { .. } => HookEvent::UserPromptSubmit,
            HookPayloadView::Stop { .. } => HookEvent::Stop,
            HookPayloadView::SubAgentStart { .. } => HookEvent::SubAgentStart,
            HookPayloadView::SubAgentStop { .. } => HookEvent::SubAgentStop,
        }
    }
}

impl HookPayload {
    /// The event that the payload belongs to.
    pub fn event(&self) -> (event: HookEvent)
        ensures
            event == self@.event(),
    {
        match self {
            HookPayload::PreToolUse { .. } => HookEvent::PreToolUse,
            HookPayload::PostToolUse { .. } => HookEvent::PostToolUse,
            HookPayload::UserPromptSubmit { .. } => HookEvent::UserPromptSubmit,
            HookPayload::Stop { .. } => HookEvent::Stop,
            HookPayload::SubAgentStart { .. } => HookEvent::SubAgentStart,
            HookPayload::SubAgentStop { .. } => HookEvent::SubAgentStop,
        }
    }
}

/// One line of the log.
#[derive(Debug, PartialEq, Eq)]
pub struct HookLogEntry {
    pub event: HookEvent,
    pub message: String,
}

/// What a [`HookLogEntry`] says.
pub struct HookLogEntryView {
    pub event: HookEvent,
    pub message: Seq<char>,
}

impl View for HookLogEntry {
    type V = HookLogEntryView;

    open spec fn view(&self) -> HookLogEntryView {
        HookLogEntryView { event: self.event, message: self.message@ }
    }
}

impl Clone for HookLogEntry {
    fn clone(&self) -> (copy: Self)
        ensures
            copy == *self,
    {
        HookLogEntry { event: self.event, message: self.message.clone() }
    }
}

/// What the lines of a log say.
pub open spec fn entries_view(entries: Seq<HookLogEntry>) -> Seq<HookLogEntryView> {
    Seq::new(entries.len(), |i: int| entries[i]@)
}

/// What a hook does when its event fires.
pub enum Reaction<H> {
    /// Calls back.
    Call(H),
    /// Writes a line into the log that was there when the hook was registered. It is
    /// attached as long as that log has not been replaced.
    Note { message: String, attached: bool },
}

/// A hook with the event that it observes.
pub struct Handler<H> {
    pub event: HookEvent,
    pub reaction: Reaction<H>,
}

/// The hooks, and the log of what fired, if it is kept.
pub struct Hooks<H> {
    handlers: Vec<Handler<H>>,
    log: Option<Vec<HookLogEntry>>,
}

/// A handler after its log has been replaced.
pub open spec fn detached<H>(handler: Handler<H>) -> Handler<H> {
    match handler.reaction {
        Reaction::Note { message, attached } => Handler {
            reaction: Reaction::Note { message, attached: false },
            ..handler
        },
        _ => handler,
    }
}

/// The lines that the attached notes of `event` write, in the order of registration.
pub open spec fn noted<H>(handlers: Seq<Handler<H>>, event: HookEvent) -> Seq<HookLogEntryView>
    decreases handlers.len(),
{
    if handlers.len() == 0 {
        Seq::empty()
    } else {
        let before = noted(handlers.drop_last(), event);
        let last = handlers.last();
        match last.reaction {
            Reaction::Note { message, attached } => if last.event == event && attached {
                before.push(HookLogEntryView { event, message: message@ })
            } else {
                before
            },
            _ => before,
        }
    }
}

/// The log after `event` has fired once: the lines of its notes, then the event itself.
pub open spec fn log_after<H>(
    handlers: Seq<Handler<H>>,
    log: Option<Seq<HookLogEntryView>>,
    event: HookEvent,
) -> Option<Seq<HookLogEntryView>> {
    match log {
        Some(entries) => Some(
            (entries + noted(handlers, event)).push(
                HookLogEntryView { event, message: event_name(event) },
            ),
        ),
        None => None,
    }
}

/// Whether every callback for `event` accepts `payload`.
pub open spec fn accept<H: Fn(&HookPayload)>(
    handlers: Seq<Handler<H>>,
    event: HookEvent,
    payload: HookPayload,
) -> bool {
    forall|i: int|
        #![trigger handlers[i]]
        0 <= i < handlers.len() && handlers[i].event == event ==> match handlers[i].reaction {
            Reaction::Call(f) => call_requires(f, (&payload,)),
            _ => true,
        }
}

/// Whether every callback for `event` has been called with `payload`.
pub open spec fn called<H: Fn(&HookPayload)>(
    handlers: Seq<Handler<H>>,
    event: HookEvent,
    payload: HookPayload,
) -> bool {
    forall|i: int|
        #![trigger handlers[i]]
        0 <= i < handlers.len() && handlers[i].event == event ==> match handlers[i].reaction {
            Reaction::Call(f) => call_ensures(f, (&payload,), ()),
            _ => true,
        }
}

impl<H> Hooks<H> {
    /// The hooks, in the order of registration.
    pub closed spec fn handlers(&self) -> Seq<Handler<H>> {
        self.handlers@
    }

    /// What the log says, if one is kept.
    pub closed spec fn log(&self) -> Option<Seq<HookLogEntryView>> {
        match self.log {
            Some(entries) => Some(entries_view(entries@)),
            None => None,
        }
    }

    /// No hooks and no log.
    pub fn new() -> (hooks: Hooks<H>)
        ensures
            hooks.handlers() == Seq::<Handler<H>>::empty(),
            hooks.log() is None,
    {
        Hooks { handlers: Vec::new(), log: None }
    }

    /// The same hooks with an empty log in place of the one they had, if any.
    pub fn with_log(self) -> (hooks: Hooks<H>)
        ensures
            hooks.handlers() == self.handlers().map_values(|h: Handler<H>| detached(h)),
            hooks.log() == Some(Seq::<HookLogEntryView>::empty()),
    {
        let mut hooks = self;
        let ghost before = hooks.handlers@;
        let mut i: usize = 0;
        while i < hooks.handlers.len()
            invariant
                i <= hooks.handlers@.len(),
                hooks.handlers@.len() == before.len(),
                forall|k: int| 0 <= k < i ==> #[trigger] hooks.handlers@[k] == detached(before[k]),
                forall|k: int| i <= k < before.len() ==> #[trigger] hooks.handlers@[k] == before[k],
            decreases hooks.handlers@.len() - i,
        {
            match &mut hooks.handlers[i].reaction {
                Reaction::Note { attached, .. } => {
                    *attached = false;
                },
                _ => {},
            }
            i += 1;
        }
        hooks.log = Some(Vec::new());
        assert(hooks.handlers@ =~= before.map_values(|h: Handler<H>| detached(h)));
        assert(entries_view(Seq::<HookLogEntry>::empty()) =~= Seq::<HookLogEntryView>::empty());
        hooks
    }

    /// Registers a callback for an event, behind those that are there.
    pub fn register(&mut self, event: HookEvent, f: H)
        ensures
            final(self).handlers() == old(self).handlers().push(
                (Handler { event, reaction: Reaction::Call(f) }),
            ),
            final(self).log() == old(self).log(),
    {
        self.handlers.push(Handler { event, reaction: Reaction::Call(f) });
    }

    /// Registers a hook for [`HookEvent::PreToolUse`].
    pub fn on_pre_tool_use(&mut self, f: H)
        ensures
            final(self).handlers() == old(self).handlers().push(
                (Handler { event: HookEvent::PreToolUse, reaction: Reaction::Call(f) }),
            ),
            final(self).log() == old(self).log(),
    {
        self.register(HookEvent::PreToolUse, f);
    }

    /// Registers a hook for [`HookEvent::PostToolUse`].
    pub fn on_post_tool_use(&mut self, f: H)
        ensures
            final(self).handlers() == old(self).handlers().push(
                (Handler { event: HookEvent::PostToolUse, reaction: Reaction::Call(f) }),
            ),
            final(self).log() == old(self).log(),
    {
        self.register(HookEvent::PostToolUse, f);
    }

    /// Registers a hook for [`HookEvent::UserPromptSubmit`].
    pub fn on_user_prompt_submit(&mut self, f: H)
        ensures
            final(self).handlers() == old(self).handlers().push(
                (Handler { event: HookEvent::UserPromptSubmit, reaction: Reaction::Call(f) }),
            ),
            final(self).log() == old(self).log(),
    {
        self.register(HookEvent::UserPromptSubmit, f);
    }

    /// Registers a hook for [`HookEvent::Stop`].
    pub fn on_stop(&mut self, f: H)
        ensures
            final(self).handlers() == old(self).handlers().push(
                (Handler { event: HookEvent::Stop, reaction: Reaction::Call(f) }),
            ),
            final(self).log() == old(self).log(),
    {
        self.register(HookEvent::Stop, f);
    }

    /// Registers a hook for [`HookEvent::SubAgentStart`].
    pub fn on_sub_agent_start(&mut self, f: H)
        ensures
            final(self).handlers() == old(self).handlers().push(
                (Handler { event: HookEvent::SubAgentStart, reaction: Reaction::Call(f) }),
            ),
            final(self).log() == old(self).log(),
    {
        self.register(HookEvent::SubAgentStart, f);
    }

    /// Registers a hook for [`HookEvent::SubAgentStop`].
    pub fn on_sub_agent_stop(&mut self, f: H)
        ensures
            final(self).handlers() == old(self).handlers().push(
                (Handler { event: HookEvent::SubAgentStop, reaction: Reaction::Call(f) }),
            ),
            final(self).log() == old(self).log(),
    {
        self.register(HookEvent::SubAgentStop, f);
    }

    /// The same hooks and one more, which writes `message` into the log when `event`
    /// fires. It never writes anything if there is no log yet.
    pub fn log_hook(self, event: HookEvent, message: String) -> (hooks: Hooks<H>)
        ensures
            hooks.handlers() == self.handlers().push(
                (Handler {
                    event,
                    reaction: Reaction::Note { message, attached: self.log() is Some },
                }),
            ),
            hooks.log() == self.log(),
    {
        let attached = self.log.is_some();
        let mut hooks = self;
        hooks.handlers.push(Handler { event, reaction: Reaction::Note { message, attached } });
        hooks
    }

    /// How many hooks are registered, over all events.
    pub fn count(&self) -> (n: usize)
        ensures
            n == self.handlers().len(),
    {
        self.handlers.len()
    }

    /// The lines of the log, from the oldest on; none if no log is kept.
    pub fn log_entries(&self) -> (entries: Vec<HookLogEntry>)
        ensures
            entries_view(entries@) == (match self.log() {
                Some(log) => log,
                None => Seq::empty(),
            }),
    {
        let mut entries: Vec<HookLogEntry> = Vec::new();
        match &self.log {
            Some(log) => {
                let mut i: usize = 0;
                while i < log.len()
                    invariant
                        i <= log@.len(),
                        entries@.len() == i,
                        forall|k: int| 0 <= k < i ==> (#[trigger] entries@[k])@ == log@[k]@,
                    decreases log@.len() - i,
                {
                    entries.push(log[i].clone());
                    i += 1;
                }
                assert(entries_view(entries@) =~= entries_view(log@));
            },
            None => {
                assert(entries_view(entries@) =~= Seq::<HookLogEntryView>::empty());
            },
        }
        entries
    }
}

/// Whether a reaction is a copy of another: the same note, or a copy of the callback.
pub open spec fn copied<H: Clone>(of: Reaction<H>, copy: Reaction<H>) -> bool {
    match of {
        Reaction::Call(f) => copy matches Reaction::Call(g) && cloned(f, g),
        Reaction::Note { .. } => copy == of,
    }
}

/// Whether hooks are copies of others: for the same events, with copies of the reactions.
pub open spec fn handlers_copied<H: Clone>(of: Seq<Handler<H>>, copy: Seq<Handler<H>>) -> bool {
    &&& copy.len() == of.len()
    &&& forall|i: int|
        0 <= i < of.len() ==> (#[trigger] copy[i]).event == of[i].event && copied(
            of[i].reaction,
            copy[i].reaction,
        )
}

impl<H: Clone> Clone for Hooks<H> {
    /// The same hooks and the same lines in the log. From then on each has a log of its own.
    fn clone(&self) -> (copy: Self)
        ensures
            copy.log() == self.log(),
            handlers_copied(self.handlers(), copy.handlers()),
    {
        let mut handlers: Vec<Handler<H>> = Vec::new();
        let mut i: usize = 0;
        while i < self.handlers.len()
            invariant
                i <= self.handlers@.len(),
                handlers@.len() == i,
                forall|k: int|
                    0 <= k < i ==> (#[trigger] handlers@[k]).event == self.handlers@[k].event
                        && copied(self.handlers@[k].reaction, handlers@[k].reaction),
            decreases self.handlers@.len() - i,
        {
            let reaction = match &self.handlers[i].reaction {
                Reaction::Call(f) => Reaction::Call(f.clone()),
                Reaction::Note { message, attached } => Reaction::Note {
                    message: message.clone(),
                    attached: *attached,
                },
            };
            handlers.push(Handler { event: self.handlers[i].event, reaction });
            i += 1;
        }
        let log = match &self.log {
            Some(_) => Some(self.log_entries()),
            None => None,
        };
        Hooks { handlers, log }
    }
}

impl<H> Default for Hooks<H> {
    fn default() -> (hooks: Self)
        ensures
            hooks.handlers() == Seq::<Handler<H>>::empty(),
            hooks.log() is None,
    {
        Hooks::new()
    }
}

impl<H: Fn(&HookPayload)> Hooks<H> {
    /// Fires an event: calls back every hook that observes it, in the order of
    /// registration, then writes the event into the log if one is kept. A payload that
    /// belongs to another event is ignored: nothing is asked of the hooks then, so none can
    /// be called.
    pub fn fire(&mut self, event: HookEvent, payload: &HookPayload)
        requires
            payload@.event() == event ==> accept(old(self).handlers(), event, *payload),
        ensures
            final(self).handlers() == old(self).handlers(),
            payload@.event() == event ==> {
                &&& called(old(self).handlers(), event, *payload)
                &&& final(self).log() == log_after(old(self).handlers(), old(self).log(), event)
            },
            payload@.event() != event ==> final(self).log() == old(self).log(),
    {
        if payload.event() != event {
            return ;
        }
        let ghost handlers = self.handlers@;
        let ghost before = self.log();
        let mut i: usize = 0;
        assert(before matches Some(l) ==> l + noted(handlers.take(0), event) =~= l);
        while i < self.handlers.len()
            invariant
                i <= self.handlers@.len(),
                self.handlers@ == handlers,
                accept(handlers, event, *payload),
                called(handlers.take(i as int), event, *payload),
                before is Some <==> self.log is Some,
                before matches Some(l) ==> self.log() == Some(
                    l + noted(handlers.take(i as int), event),
                ),
                before is None ==> self.log() is None,
            decreases self.handlers@.len() - i,
        {
            let ghost so_far = handlers.take(i as int);
            let ghost next = handlers.take(i + 1);
            assert(next.drop_last() =~= so_far);
            if self.handlers[i].event == event {
                match &self.handlers[i].reaction {
                    Reaction::Call(f) => {
                        f(payload);
                    },
                    Reaction::Note { message, attached } => if *attached {
                        match &mut self.log {
                            Some(log) => {
                                let ghost was = log@;
                                log.push(HookLogEntry { event, message: message.clone() });
                                assert(entries_view(log@) =~= entries_view(was).push(
                                    HookLogEntryView { event, message: message@ },
                                ));
                            },
                            None => {},
                        }
                    },
                }
            }
            proof {
                assert forall|k: int|
                    #![trigger next[k]]
                    0 <= k < next.len() && next[k].event == event implies match next[k].reaction {
                    Reaction::Call(f) => call_ensures(f, (payload,), ()),
                    _ => true,
                } by {
                    if k < i {
                        assert(so_far[k] == next[k]);
                    } else {
                        assert(handlers[k] == next[k]);
                    }
                }
                if before is Some {
                    let l = before->0;
                    assert(self.log()->0 =~= l + noted(next, event));
                }
            }
            i += 1;
        }
        assert(handlers.take(i as int) =~= handlers);
        match &mut self.log {
            Some(log) => {
                let ghost was = log@;
                let entry = HookLogEntry { event, message: event.as_str().to_owned() };
                let ghost line = entry@;
                log.push(entry);
                assert(entries_view(log@) =~= entries_view(was).push(line));
            },
            None => {},
        }
    }
}

} // verus!
