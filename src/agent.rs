use vstd::prelude::*;

use crate::catalog::{Tool, describes, tool_names};
use crate::config::AgentConfig;
use crate::llm::LlmClient;
use crate::session::{SessionError, SessionManager, SessionRecord, stores};
use crate::context::{Context, ContextView, PromptSources, system_message_spec, system_prompt_spec};
use crate::message::{Message, MessageView, Role, ToolCall, clone_calls, views};
use crate::text::{decimal, decimal_spec, join2};
use crate::tools::{
    ARGUMENT_ERROR_PREFIX, CallPlan, CallPlanView, ToolExecutor, ToolRequest, arguments_source,
    json_object_fields, outcome_text_spec, plan_spec, starts_with, tool_answer_text,
};

verus! {

pub const APOLOGY_PREFIX: &'static str = "抱歉，AI 服务暂时不可用：";

pub const TIMEOUT_MESSAGE: &'static str = "对话已达到最大处理次数，请简化您的问题或重新开始对话";

pub const TOO_MANY_PREFIX: &'static str = "检测到过多的工具调用 (";

pub const TOO_MANY_SUFFIX: &'static str = "个)，可能存在问题";

/// The warning that replaces a burst of `n` tool calls.
pub open spec fn too_many_text(n: nat) -> Seq<char> {
    TOO_MANY_PREFIX@ + decimal_spec(n) + TOO_MANY_SUFFIX@
}

/// Where one chat turn stands.
#[derive(Debug, PartialEq, Eq, Structural, Clone, Copy)]
pub enum ChatPhase {
    /// No turn is under way.
    Idle,
    /// The transcript went to the model; its reply is awaited.
    AwaitingModel,
    /// The calls of the last reply are being answered, one at a time.
    ExecutingTools,
    /// The model gave a plain answer.
    Done,
    /// The iteration budget ran out.
    TimedOut,
    /// The model could not be reached.
    ModelUnavailable,
}

/// What the outside world reports back to a turn.
#[derive(Debug)]
pub enum ChatEvent {
    /// The model answered with this message.
    ModelReplied(Message),
    /// Every attempt to reach the model failed; the text says why.
    ModelFailed(String),
    /// The requested tool ran, with this result or this failure.
    ToolFinished(Result<String, String>),
}

/// What a turn asks the outside world to do next.
#[derive(Debug)]
pub enum ChatAction {
    /// Send this transcript, with the tool catalog, to the model.
    CallModel(Vec<Message>),
    /// Run this tool request.
    RunTool(ToolRequest),
    /// The turn is over: this is its answer, and the session is to be saved
    /// where `save` holds.
    Finish { answer: String, save: bool },
    /// The event did not fit the state of the turn; nothing changed.
    Unexpected,
}

/// The answers that follow the call request at `at`: the first `k` calls are
/// answered, one tool message each, in the order of the calls.
pub open spec fn answers_calls(msgs: Seq<MessageView>, at: int, calls: Seq<ToolCall>, k: int) -> bool {
    &&& 0 <= at
    &&& at + 1 + k <= msgs.len()
    &&& msgs[at].role == Role::Assistant
    &&& msgs[at].tool_calls == Some(calls)
    &&& msgs[at].tool_call_id is None
    &&& forall|j: int|
        0 <= j < k ==> {
            &&& (#[trigger] msgs[at + 1 + j]).role == Role::Tool
            &&& msgs[at + 1 + j].tool_call_id == Some(calls[j].id@)
            &&& msgs[at + 1 + j].tool_calls is None
        }
}

/// Whether a reply asks for at least one tool call; one without is the answer.
pub open spec fn has_calls(reply: Message) -> bool {
    reply.tool_calls matches Some(c) && c@.len() > 0
}

/// Whether `content` is what a call answered without running a tool says.
pub open spec fn immediate_answer(call: ToolCall, content: Seq<char>) -> bool {
    match json_object_fields(arguments_source(call.function.arguments)) {
        None => starts_with(content, ARGUMENT_ERROR_PREFIX@),
        Some(fields) => plan_spec(call.function.name@, fields) == CallPlanView::Answer(content),
    }
}

/// Whether the call is to be run as the request `q`.
pub open spec fn runs_as(call: ToolCall, q: ToolRequest) -> bool {
    match json_object_fields(arguments_source(call.function.arguments)) {
        None => false,
        Some(fields) => plan_spec(call.function.name@, fields) == CallPlanView::Run(q@),
    }
}

/// The state of one chat turn.
pub struct ChatRun {
    phase: ChatPhase,
    iteration: usize,
    max_iterations: usize,
    max_tool_calls: usize,
    calls: Vec<ToolCall>,
    next: usize,
    request_at: usize,
    in_batch: bool,
}

impl ChatRun {
    pub closed spec fn phase(&self) -> ChatPhase {
        self.phase
    }

    /// How many iterations the turn has begun.
    pub closed spec fn iteration(&self) -> nat {
        self.iteration as nat
    }

    pub closed spec fn max_iterations(&self) -> nat {
        self.max_iterations as nat
    }

    pub closed spec fn max_tool_calls(&self) -> nat {
        self.max_tool_calls as nat
    }

    /// Whether a batch of calls has been accepted in this turn.
    pub closed spec fn in_batch(&self) -> bool {
        self.in_batch
    }

    /// The calls of the last accepted batch.
    pub closed spec fn batch_calls(&self) -> Seq<ToolCall> {
        self.calls@
    }

    /// Where in the history the last accepted batch was requested.
    pub closed spec fn batch_start(&self) -> int {
        self.request_at as int
    }

    /// How many calls of the last accepted batch have their answer.
    pub closed spec fn answered(&self) -> int {
        self.next as int
    }

    /// The state of a turn and the history it writes to agree.
    pub closed spec fn inv(&self, ctx: ContextView) -> bool {
        &&& self.iteration <= self.max_iterations
        &&& (self.phase == ChatPhase::AwaitingModel ==> 1 <= self.iteration)
        &&& (self.phase == ChatPhase::ExecutingTools ==> {
            &&& self.in_batch
            &&& 1 <= self.iteration
            &&& self.next < self.calls@.len()
            &&& self.request_at + 1 + self.next == ctx.messages.len()
        })
        &&& (self.in_batch ==> {
            &&& self.calls@.len() <= self.max_tool_calls
            &&& self.next <= self.calls@.len()
            &&& (self.phase != ChatPhase::ExecutingTools ==> self.next == self.calls@.len())
            &&& answers_calls(ctx.messages, self.request_at as int, self.calls@, self.next as int)
        })
    }

    /// A run with no turn under way.
    pub fn idle() -> (r: ChatRun)
        ensures
            r.phase() == ChatPhase::Idle,
            !r.in_batch(),
            forall|ctx: ContextView| r.inv(ctx),
    {
        ChatRun {
            phase: ChatPhase::Idle,
            iteration: 0,
            max_iterations: 0,
            max_tool_calls: 0,
            calls: Vec::new(),
            next: 0,
            request_at: 0,
            in_batch: false,
        }
    }

    /// What `start_iteration` does: begin one more iteration with the transcript,
    /// or, with the budget spent, close the turn with the timeout message.
    pub open spec fn moved_on(
        iteration: nat,
        max_iterations: nat,
        max_tool_calls: nat,
        new_run: ChatRun,
        before: ContextView,
        after: ContextView,
        action: ChatAction,
    ) -> bool {
        &&& new_run.max_iterations() == max_iterations
        &&& new_run.max_tool_calls() == max_tool_calls
        &&& if iteration < max_iterations {
            &&& new_run.iteration() == iteration + 1
            &&& new_run.phase() == ChatPhase::AwaitingModel
            &&& after == before
            &&& action matches ChatAction::CallModel(t) && views(t@) == seq![
                system_message_spec(after.system_prompt),
            ] + after.messages
        } else {
            &&& new_run.iteration() == iteration
            &&& new_run.phase() == ChatPhase::TimedOut
            &&& after.system_prompt == before.system_prompt
            &&& after.messages == before.messages.push(
                MessageView {
                    role: Role::Assistant,
                    content: TIMEOUT_MESSAGE@,
                    tool_calls: None,
                    tool_call_id: None,
                },
            )
            &&& action matches ChatAction::Finish { answer, save } && answer@ == TIMEOUT_MESSAGE@
                && !save
        }
    }

    /// Begins the next iteration, or ends the turn where the budget is spent.
    fn start_iteration(&mut self, ctx: &mut Context) -> (action: ChatAction)
        requires
            old(self).inv(old(ctx)@),
            old(self).phase != ChatPhase::ExecutingTools,
        ensures
            final(self).inv(final(ctx)@),
            ChatRun::moved_on(
                old(self).iteration(),
                old(self).max_iterations(),
                old(self).max_tool_calls(),
                *final(self),
                old(ctx)@,
                final(ctx)@,
                action,
            ),
            final(self).in_batch == old(self).in_batch,
            final(self).calls@ == old(self).calls@,
            final(self).request_at == old(self).request_at,
            final(self).next == old(self).next,
    {
        if self.iteration < self.max_iterations {
            self.iteration = self.iteration + 1;
            self.phase = ChatPhase::AwaitingModel;
            ChatAction::CallModel(ctx.messages())
        } else {
            ctx.add_assistant(TIMEOUT_MESSAGE, None);
            self.phase = ChatPhase::TimedOut;
            proof {
                let m = ctx@.messages;
                assert(m =~= old(ctx)@.messages.push(m.last()));
                if self.in_batch {
                    assert forall|j: int| 0 <= j < self.next as int implies {
                        &&& (#[trigger] m[self.request_at + 1 + j]).role == Role::Tool
                        &&& m[self.request_at + 1 + j].tool_call_id == Some(self.calls@[j].id@)
                        &&& m[self.request_at + 1 + j].tool_calls is None
                    } by {
                        assert(m[self.request_at + 1 + j] == old(ctx)@.messages[self.request_at
                            + 1 + j]);
                    }
                }
            }
            ChatAction::Finish { answer: TIMEOUT_MESSAGE.to_string(), save: false }
        }
    }

    /// Begins a turn: the user's text joins the history and the first iteration
    /// starts.
    pub fn start(config: &AgentConfig, ctx: &mut Context, user_input: &str) -> (r: (
        ChatRun,
        ChatAction,
    ))
        ensures
            r.0.inv(final(ctx)@),
            r.0.max_iterations() == config.max_iterations,
            r.0.max_tool_calls() == config.max_tool_calls,
            !r.0.in_batch(),
            final(ctx)@.system_prompt == old(ctx)@.system_prompt,
            final(ctx)@.messages.len() >= old(ctx)@.messages.len() + 1,
            final(ctx)@.messages.subrange(0, old(ctx)@.messages.len() as int) == old(ctx)@.messages,
            final(ctx)@.messages[old(ctx)@.messages.len() as int].is_plain(Role::User, user_input@),
            ({
                let with_user = ContextView {
                    system_prompt: old(ctx)@.system_prompt,
                    messages: old(ctx)@.messages.push(
                        MessageView {
                            role: Role::User,
                            content: user_input@,
                            tool_calls: None,
                            tool_call_id: None,
                        },
                    ),
                };
                ChatRun::moved_on(
                    0,
                    config.max_iterations as nat,
                    config.max_tool_calls as nat,
                    r.0,
                    with_user,
                    final(ctx)@,
                    r.1,
                )
            }),
    {
        ctx.add_user(user_input);
        let ghost with_user = ctx@;
        let mut run = ChatRun {
            phase: ChatPhase::Idle,
            iteration: 0,
            max_iterations: config.max_iterations,
            max_tool_calls: config.max_tool_calls,
            calls: Vec::new(),
            next: 0,
            request_at: 0,
            in_batch: false,
        };
        let action = run.start_iteration(ctx);
        proof {
            assert(with_user.messages =~= old(ctx)@.messages.push(with_user.messages.last()));
            assert(final(ctx)@.messages.subrange(0, old(ctx)@.messages.len() as int)
                =~= old(ctx)@.messages);
        }
        (run, action)
    }

    /// What the dispatch of a batch did, from call `from` on: the calls answered
    /// at once got the answer their plan gives; then either the next call is to
    /// run, or the batch is complete and the turn moved on.
    pub open spec fn dispatched(
        iteration: nat,
        run: ChatRun,
        from: int,
        after: ContextView,
        action: ChatAction,
    ) -> bool {
        let calls = run.batch_calls();
        let at = run.batch_start();
        &&& run.in_batch()
        &&& from <= run.answered() <= calls.len()
        &&& forall|j: int|
            from <= j < run.answered() ==> immediate_answer(
                calls[j],
                (#[trigger] after.messages[at + 1 + j]).content,
            )
        &&& match action {
            ChatAction::RunTool(q) => {
                &&& run.phase() == ChatPhase::ExecutingTools
                &&& run.iteration() == iteration
                &&& run.answered() < calls.len()
                &&& after.messages.len() == at + 1 + run.answered()
                &&& runs_as(calls[run.answered()], q)
            },
            _ => {
                &&& run.answered() == calls.len()
                &&& at + 1 + calls.len() <= after.messages.len()
                &&& ChatRun::moved_on(
                    iteration,
                    run.max_iterations(),
                    run.max_tool_calls(),
                    run,
                    ContextView {
                        system_prompt: after.system_prompt,
                        messages: after.messages.subrange(0, at + 1 + calls.len()),
                    },
                    after,
                    action,
                )
            },
        }
    }

    /// Answers the calls of the batch in order, until one is to run.
    fn dispatch(&mut self, ctx: &mut Context, tools: &ToolExecutor) -> (action: ChatAction)
        requires
            old(self).in_batch,
            old(self).phase == ChatPhase::ExecutingTools,
            1 <= old(self).iteration <= old(self).max_iterations,
            old(self).calls@.len() <= old(self).max_tool_calls,
            old(self).next <= old(self).calls@.len(),
            old(self).request_at + 1 + old(self).next == old(ctx)@.messages.len(),
            answers_calls(
                old(ctx)@.messages,
                old(self).request_at as int,
                old(self).calls@,
                old(self).next as int,
            ),
        ensures
            final(self).inv(final(ctx)@),
            final(self).calls@ == old(self).calls@,
            final(self).request_at == old(self).request_at,
            final(self).max_iterations == old(self).max_iterations,
            final(self).max_tool_calls == old(self).max_tool_calls,
            final(ctx)@.system_prompt == old(ctx)@.system_prompt,
            old(ctx)@.messages.len() <= final(ctx)@.messages.len(),
            final(ctx)@.messages.subrange(0, old(ctx)@.messages.len() as int) == old(ctx)@.messages,
            ChatRun::dispatched(
                old(self).iteration(),
                *final(self),
                old(self).next as int,
                final(ctx)@,
                action,
            ),
    {
        let ghost start = old(ctx)@.messages;
        let ghost from = self.next as int;
        let ghost at = self.request_at as int;
        while self.next < self.calls.len()
            invariant
                self.in_batch,
                self.phase == ChatPhase::ExecutingTools,
                1 <= self.iteration <= self.max_iterations,
                self.iteration == old(self).iteration,
                self.max_iterations == old(self).max_iterations,
                self.max_tool_calls == old(self).max_tool_calls,
                self.calls@ == old(self).calls@,
                self.request_at == old(self).request_at,
                self.calls@.len() <= self.max_tool_calls,
                from <= self.next <= self.calls@.len(),
                from == old(self).next,
                at == self.request_at,
                self.request_at + 1 + self.next == ctx@.messages.len(),
                answers_calls(ctx@.messages, at, self.calls@, self.next as int),
                ctx@.system_prompt == old(ctx)@.system_prompt,
                start.len() <= ctx@.messages.len(),
                ctx@.messages.subrange(0, start.len() as int) == start,
                start == old(ctx)@.messages,
                forall|j: int|
                    from <= j < self.next ==> immediate_answer(
                        self.calls@[j],
                        (#[trigger] ctx@.messages[at + 1 + j]).content,
                    ),
            decreases self.calls@.len() - self.next,
        {
            let plan = tools.plan(&self.calls[self.next]);
            match plan {
                CallPlan::Run(q) => {
                    assert(runs_as(self.calls@[self.next as int], q));
                    return ChatAction::RunTool(q);
                },
                CallPlan::Answer(t) => {
                    let ghost before = ctx@.messages;
                    let id = self.calls[self.next].id.clone();
                    ctx.add_tool_result(id.as_str(), t.as_str());
                    proof {
                        let m = ctx@.messages;
                        assert(m =~= before.push(m.last()));
                        assert(m.subrange(0, start.len() as int) =~= before.subrange(
                            0,
                            start.len() as int,
                        ));
                        assert forall|j: int| 0 <= j < self.next + 1 implies {
                            &&& (#[trigger] m[at + 1 + j]).role == Role::Tool
                            &&& m[at + 1 + j].tool_call_id == Some(self.calls@[j].id@)
                            &&& m[at + 1 + j].tool_calls is None
                            &&& (from <= j ==> immediate_answer(self.calls@[j], m[at + 1 + j].content))
                        } by {
                            if j < self.next {
                                assert(m[at + 1 + j] == before[at + 1 + j]);
                            }
                        }
                    }
                    self.next = self.next + 1;
                },
            }
        }
        let ghost done = ctx@;
        self.phase = ChatPhase::AwaitingModel;
        let action = self.start_iteration(ctx);
        proof {
            let m = ctx@.messages;
            assert(done.messages.subrange(0, at + 1 + self.calls@.len()) =~= done.messages);
            if m != done.messages {
                assert(m.subrange(0, done.messages.len() as int) =~= done.messages);
                assert forall|j: int| from <= j < self.next implies immediate_answer(
                    self.calls@[j],
                    (#[trigger] m[at + 1 + j]).content,
                ) by {
                    assert(m[at + 1 + j] == done.messages[at + 1 + j]);
                }
            }
            assert(m.subrange(0, start.len() as int) =~= done.messages.subrange(
                0,
                start.len() as int,
            ));
        }
        action
    }

    /// Whether an event fits the phase: a model outcome while the model is
    /// awaited, a tool outcome while a tool runs.
    pub open spec fn fits(phase: ChatPhase, event: ChatEvent) -> bool {
        match event {
            ChatEvent::ToolFinished(_) => phase == ChatPhase::ExecutingTools,
            _ => phase == ChatPhase::AwaitingModel,
        }
    }

    /// Advances the turn by one event.
    pub fn step(&mut self, ctx: &mut Context, tools: &ToolExecutor, event: ChatEvent) -> (action:
        ChatAction)
        requires
            old(self).inv(old(ctx)@),
        ensures
            final(self).inv(final(ctx)@),
            final(self).max_iterations() == old(self).max_iterations(),
            final(self).max_tool_calls() == old(self).max_tool_calls(),
            final(ctx)@.system_prompt == old(ctx)@.system_prompt,
            old(ctx)@.messages.len() <= final(ctx)@.messages.len(),
            final(ctx)@.messages.subrange(0, old(ctx)@.messages.len() as int) == old(ctx)@.messages,
            !ChatRun::fits(old(self).phase(), event) ==> {
                &&& action is Unexpected
                &&& final(ctx)@ == old(ctx)@
                &&& final(self).phase() == old(self).phase()
                &&& final(self).iteration() == old(self).iteration()
            },
            ChatRun::fits(old(self).phase(), event) ==> ChatRun::stepped(
                *old(self),
                *final(self),
                old(ctx)@,
                final(ctx)@,
                event,
                action,
            ),
    {
        let ghost before = ctx@;
        match event {
            ChatEvent::ModelFailed(detail) => {
                if self.phase != ChatPhase::AwaitingModel {
                    return ChatAction::Unexpected;
                }
                let apology = join2(APOLOGY_PREFIX, detail.as_str());
                ctx.add_assistant(apology.as_str(), None);
                self.phase = ChatPhase::ModelUnavailable;
                proof {
                    assert(ctx@.messages =~= before.messages.push(ctx@.messages.last()));
                    assert(ctx@.messages.subrange(0, before.messages.len() as int) =~= before.messages);
                    self.lemma_appended_keeps_batch(before, ctx@);
                }
                ChatAction::Finish { answer: apology, save: false }
            },
            ChatEvent::ModelReplied(reply) => {
                if self.phase != ChatPhase::AwaitingModel {
                    return ChatAction::Unexpected;
                }
                match reply.tool_calls {
                    Some(calls) if calls.len() > 0 => {
                        let n = calls.len();
                        if n > self.max_tool_calls {
                            let count = decimal(n);
                            let head = join2(TOO_MANY_PREFIX, count.as_str());
                            let warning = join2(head.as_str(), TOO_MANY_SUFFIX);
                            ctx.add_assistant(warning.as_str(), None);
                            proof {
                                assert(ctx@.messages.subrange(0, before.messages.len() as int)
                                    =~= before.messages);
                                self.lemma_appended_keeps_batch(before, ctx@);
                            }
                            let ghost warned = ctx@;
                            self.phase = ChatPhase::Idle;
                            let action = self.start_iteration(ctx);
                            proof {
                                let k = before.messages.len() as int;
                                assert(warning@ == too_many_text(calls@.len()));
                                assert(warned.messages[k] == ctx@.messages[k]);
                                assert(ctx@.messages.subrange(0, k) =~= before.messages);
                                assert(ctx@.messages.subrange(0, k + 1) =~= warned.messages);
                                assert(warned == ContextView {
                                    system_prompt: before.system_prompt,
                                    messages: ctx@.messages.subrange(0, k + 1),
                                });
                            }
                            action
                        } else {
                            let at = ctx.len();
                            ctx.add_assistant(reply.content.as_str(), Some(clone_calls(&calls)));
                            self.calls = calls;
                            self.next = 0;
                            self.request_at = at;
                            self.in_batch = true;
                            self.phase = ChatPhase::ExecutingTools;
                            let ghost requested = ctx@;
                            let action = self.dispatch(ctx, tools);
                            proof {
                                assert(ctx@.messages.subrange(0, before.messages.len() as int)
                                    =~= requested.messages.subrange(0, before.messages.len() as int));
                                assert(requested.messages.subrange(0, before.messages.len() as int)
                                    =~= before.messages);
                                assert(ctx@.messages[at as int] == requested.messages[at as int]);
                            }
                            action
                        }
                    },
                    _ => {
                        ctx.add_assistant(reply.content.as_str(), None);
                        self.phase = ChatPhase::Done;
                        proof {
                            assert(ctx@.messages =~= before.messages.push(ctx@.messages.last()));
                            assert(ctx@.messages.subrange(0, before.messages.len() as int)
                                =~= before.messages);
                            self.lemma_appended_keeps_batch(before, ctx@);
                        }
                        ChatAction::Finish { answer: reply.content, save: true }
                    },
                }
            },
            ChatEvent::ToolFinished(outcome) => {
                if self.phase != ChatPhase::ExecutingTools {
                    return ChatAction::Unexpected;
                }
                let text = tool_answer_text(&outcome);
                let id = self.calls[self.next].id.clone();
                ctx.add_tool_result(id.as_str(), text.as_str());
                proof {
                    let m = ctx@.messages;
                    let at = self.request_at as int;
                    assert(m =~= before.messages.push(m.last()));
                    assert forall|j: int| 0 <= j < self.next + 1 implies {
                        &&& (#[trigger] m[at + 1 + j]).role == Role::Tool
                        &&& m[at + 1 + j].tool_call_id == Some(self.calls@[j].id@)
                        &&& m[at + 1 + j].tool_calls is None
                    } by {
                        if j < self.next {
                            assert(m[at + 1 + j] == before.messages[at + 1 + j]);
                        }
                    }
                }
                self.next = self.next + 1;
                let ghost answered = ctx@;
                let action = self.dispatch(ctx, tools);
                proof {
                    assert(ctx@.messages.subrange(0, before.messages.len() as int)
                        =~= answered.messages.subrange(0, before.messages.len() as int));
                    assert(answered.messages.subrange(0, before.messages.len() as int)
                        =~= before.messages);
                    assert(ctx@.messages[before.messages.len() as int]
                        == answered.messages[before.messages.len() as int]);
                }
                action
            },
        }
    }

    /// A message appended after the answers of a batch leaves them in place.
    proof fn lemma_appended_keeps_batch(&self, before: ContextView, after: ContextView)
        requires
            self.in_batch ==> answers_calls(
                before.messages,
                self.request_at as int,
                self.calls@,
                self.next as int,
            ),
            before.messages.len() <= after.messages.len(),
            after.messages.subrange(0, before.messages.len() as int) == before.messages,
        ensures
            self.in_batch ==> answers_calls(
                after.messages,
                self.request_at as int,
                self.calls@,
                self.next as int,
            ),
    {
        if self.in_batch {
            let at = self.request_at as int;
            assert(after.messages[at] == before.messages[at]);
            assert forall|j: int| 0 <= j < self.next implies {
                &&& (#[trigger] after.messages[at + 1 + j]).role == Role::Tool
                &&& after.messages[at + 1 + j].tool_call_id == Some(self.calls@[j].id@)
                &&& after.messages[at + 1 + j].tool_calls is None
            } by {
                assert(after.messages[at + 1 + j] == before.messages[at + 1 + j]);
            }
        }
    }

    /// What one fitting event does to the turn and the history.
    pub open spec fn stepped(
        old_run: ChatRun,
        new_run: ChatRun,
        before: ContextView,
        after: ContextView,
        event: ChatEvent,
        action: ChatAction,
    ) -> bool {
        let n = before.messages.len() as int;
        match event {
            ChatEvent::ModelFailed(detail) => {
                &&& new_run.phase() == ChatPhase::ModelUnavailable
                &&& after.messages == before.messages.push(
                    MessageView {
                        role: Role::Assistant,
                        content: APOLOGY_PREFIX@ + detail@,
                        tool_calls: None,
                        tool_call_id: None,
                    },
                )
                &&& action matches ChatAction::Finish { answer, save } && answer@ == APOLOGY_PREFIX@
                    + detail@ && !save
            },
            ChatEvent::ModelReplied(reply) => if has_calls(reply) {
                let calls = reply.tool_calls->Some_0;
                if calls@.len() > old_run.max_tool_calls() {
                    &&& !(action is RunTool)
                    &&& n < after.messages.len()
                    &&& after.messages[n as int] == MessageView {
                        role: Role::Assistant,
                        content: too_many_text(calls@.len()),
                        tool_calls: None,
                        tool_call_id: None,
                    }
                    &&& ChatRun::moved_on(
                        old_run.iteration(),
                        old_run.max_iterations(),
                        old_run.max_tool_calls(),
                        new_run,
                        ContextView {
                            system_prompt: before.system_prompt,
                            messages: after.messages.subrange(0, n + 1),
                        },
                        after,
                        action,
                    )
                } else {
                    &&& new_run.batch_calls() == calls@
                    &&& new_run.batch_start() == n
                    &&& after.messages[n as int] == MessageView {
                        role: Role::Assistant,
                        content: reply.content@,
                        tool_calls: Some(calls@),
                        tool_call_id: None,
                    }
                    &&& ChatRun::dispatched(old_run.iteration(), new_run, 0, after, action)
                }
            } else {
                &&& new_run.phase() == ChatPhase::Done
                &&& after.messages == before.messages.push(
                    MessageView {
                        role: Role::Assistant,
                        content: reply.content@,
                        tool_calls: None,
                        tool_call_id: None,
                    },
                )
                &&& action matches ChatAction::Finish { answer, save } && answer@ == reply.content@
                    && save
            },
            ChatEvent::ToolFinished(outcome) => {
                let call = old_run.batch_calls()[old_run.answered()];
                &&& new_run.batch_calls() == old_run.batch_calls()
                &&& new_run.batch_start() == old_run.batch_start()
                &&& n < after.messages.len()
                &&& after.messages[n as int].is_tool_answer(
                    call.id@,
                    match outcome {
                        Ok(t) => outcome_text_spec(true, t@),
                        Err(e) => outcome_text_spec(false, e@),
                    },
                )
                &&& ChatRun::dispatched(
                    old_run.iteration(),
                    new_run,
                    old_run.answered() + 1,
                    after,
                    action,
                )
            },
        }
    }
}

/// A reply that asks for more tool calls than allowed runs none of them and
/// answers none, yet uses up its iteration: the next one begins, or the turn
/// times out.
pub proof fn lemma_excess_calls_run_nothing(
    old_run: ChatRun,
    new_run: ChatRun,
    before: ContextView,
    after: ContextView,
    reply: Message,
    action: ChatAction,
)
    requires
        reply.tool_calls matches Some(c) && c@.len() > old_run.max_tool_calls(),
        ChatRun::stepped(old_run, new_run, before, after, ChatEvent::ModelReplied(reply), action),
    ensures
        !(action is RunTool),
        new_run.iteration() == old_run.iteration() + 1 || new_run.phase() == ChatPhase::TimedOut,
        forall|p: int|
            before.messages.len() <= p < after.messages.len() ==> (#[trigger] after.messages[p]).role
                == Role::Assistant && after.messages[p].tool_call_id is None,
{
    let n = before.messages.len() as int;
    let mid = after.messages.subrange(0, n + 1);
    assert forall|p: int| n <= p < after.messages.len() implies (#[trigger] after.messages[p]).role
        == Role::Assistant && after.messages[p].tool_call_id is None by {
        if p > n {
            assert(after.messages == mid.push(after.messages.last()));
        }
    }
}

/// Each answered call of an accepted batch has exactly one tool message: they
/// follow the request in the order of the calls and carry the calls' ids. Once
/// the turn has moved past the batch, every call of it is answered.
pub proof fn lemma_answers_follow_calls(run: ChatRun, ctx: ContextView)
    requires
        run.inv(ctx),
        run.in_batch(),
    ensures
        answers_calls(ctx.messages, run.batch_start(), run.batch_calls(), run.answered()),
        run.phase() != ChatPhase::ExecutingTools ==> run.answered() == run.batch_calls().len(),
        run.phase() == ChatPhase::ExecutingTools ==> ctx.messages.len() == run.batch_start() + 1
            + run.answered(),
{
}

/// The agent: the sessions, the model client, the tool dispatcher, and the turn
/// under way in the current session.
pub struct Agent {
    session_manager: SessionManager,
    llm_client: LlmClient,
    tool_executor: ToolExecutor,
    config: AgentConfig,
    run: ChatRun,
}

impl Agent {
    pub closed spec fn manager(&self) -> SessionManager {
        self.session_manager
    }

    pub closed spec fn run(&self) -> ChatRun {
        self.run
    }

    pub closed spec fn config_view(&self) -> AgentConfig {
        self.config
    }

    /// The history of the current session.
    pub open spec fn current_context(&self) -> ContextView {
        self.manager().sessions()[self.manager().current_id()->Some_0].context_view()
    }

    /// The sessions are well formed, and a turn under way agrees with the
    /// current session's history.
    pub closed spec fn wf(&self) -> bool {
        &&& self.session_manager.wf()
        &&& self.llm_client.config_view() == self.config
        &&& match self.session_manager.current_id() {
            Some(c) => self.run.inv(self.session_manager.sessions()[c].context_view()),
            None => self.run.phase == ChatPhase::Idle && !self.run.in_batch,
        }
    }

    /// An agent over the sessions that were read from storage, with a fresh
    /// session made current.
    pub fn new(
        config: AgentConfig,
        storage_path: String,
        workspace_root: String,
        found: Vec<(String, Option<SessionRecord>)>,
        sources: &PromptSources,
    ) -> (r: Agent)
        ensures
            r.wf(),
            r.config_view() == config,
            r.manager().current_id() is Some,
            r.current_context().messages.len() == 0,
            r.current_context().system_prompt == system_prompt_spec(
                sources.agent@,
                sources.soul@,
                sources.user@,
            ),
            r.run().phase() == ChatPhase::Idle,
            forall|i: int|
                0 <= i < found@.len() && (#[trigger] found@[i]).1 is Some ==> r.manager().sessions().contains_key(
                    found@[i].0@,
                ),
    {
        let mut session_manager = SessionManager::new(storage_path);
        let ghost all = found@;
        session_manager.load_all(found);
        let ghost loaded = session_manager.sessions();
        let made_id = session_manager.create(None, config.clone(), sources).id().to_string();
        proof {
            assert forall|k: Seq<char>| #[trigger] loaded.contains_key(k) implies session_manager.sessions().contains_key(k) by {
                if k != made_id@ {
                    assert(loaded.remove(made_id@).contains_key(k));
                    assert(session_manager.sessions().remove(made_id@).contains_key(k));
                }
            }
            assert(forall|i: int|
                0 <= i < all.len() && (#[trigger] all[i]).1 is Some ==> loaded.contains_key(all[i].0@));
        }
        let run = ChatRun::idle();
        Agent {
            session_manager,
            llm_client: LlmClient::new(config.clone()),
            tool_executor: ToolExecutor::new(workspace_root),
            config,
            run,
        }
    }

    pub fn current_session_id(&self) -> (r: Option<&str>)
        ensures
            match r {
                Some(s) => self.manager().current_id() == Some(s@),
                None => self.manager().current_id() is None,
            },
    {
        self.session_manager.current_session_id()
    }

    pub fn session_manager(&self) -> (r: &SessionManager)
        ensures
            *r == self.manager(),
    {
        &self.session_manager
    }

    /// The sessions, to be changed in place; a turn under way is dropped.
    pub fn session_manager_mut(&mut self) -> (r: &mut SessionManager)
        requires
            old(self).wf(),
        ensures
            *r == old(self).manager(),
            final(self).manager() == *final(r),
            final(self).run().phase() == ChatPhase::Idle,
            final(r).wf() ==> final(self).wf(),
    {
        self.run = ChatRun::idle();
        &mut self.session_manager
    }

    pub fn llm_client(&self) -> (r: &LlmClient)
        requires
            self.wf(),
        ensures
            r.config_view() == self.config_view(),
    {
        &self.llm_client
    }

    pub fn tool_executor(&self) -> &ToolExecutor {
        &self.tool_executor
    }

    /// The catalog the model is offered.
    pub fn tools(&self) -> (r: Vec<Tool>)
        ensures
            r@.len() == tool_names().len(),
            forall|i: int| 0 <= i < r@.len() ==> describes(#[trigger] r@[i], tool_names()[i]),
    {
        self.tool_executor.get_tools()
    }

    /// Begins a turn with the user's text in the current session; an error
    /// where no session is current.
    pub fn chat(&mut self, user_input: &str) -> (r: Result<ChatAction, SessionError>)
        requires
            old(self).wf(),
        ensures
            final(self).wf(),
            final(self).config_view() == old(self).config_view(),
            final(self).manager().current_id() == old(self).manager().current_id(),
            old(self).manager().current_id() matches Some(c) ==> final(self).manager().sessions().remove(c)
                == old(self).manager().sessions().remove(c),
            old(self).manager().current_id() is None ==> (r matches Err(SessionError::NoCurrent)
                && final(self).manager().sessions() == old(self).manager().sessions()),
            old(self).manager().current_id() is Some ==> ({
                let before = old(self).current_context();
                let after = final(self).current_context();
                &&& final(self).manager().current_id() == old(self).manager().current_id()
                &&& after.system_prompt == before.system_prompt
                &&& after.messages.len() >= before.messages.len() + 1
                &&& after.messages.subrange(0, before.messages.len() as int) == before.messages
                &&& after.messages[before.messages.len() as int].is_plain(Role::User, user_input@)
                &&& r matches Ok(action) && ChatRun::moved_on(
                    0,
                    old(self).config_view().max_iterations as nat,
                    old(self).config_view().max_tool_calls as nat,
                    final(self).run(),
                    ContextView {
                        system_prompt: before.system_prompt,
                        messages: before.messages.push(
                            MessageView {
                                role: Role::User,
                                content: user_input@,
                                tool_calls: None,
                                tool_call_id: None,
                            },
                        ),
                    },
                    after,
                    action,
                )
            }),
    {
        proof {
            self.session_manager.lemma_current_wf();
        }
        match self.session_manager.current_mut() {
            Some(session) => {
                let ctx = session.context_mut();
                let (run, action) = ChatRun::start(&self.config, ctx, user_input);
                self.run = run;
                Ok(action)
            },
            None => Err(SessionError::NoCurrent),
        }
    }

    /// Hands an event to the turn under way in the current session.
    pub fn advance(&mut self, event: ChatEvent) -> (action: ChatAction)
        requires
            old(self).wf(),
        ensures
            final(self).wf(),
            final(self).manager().current_id() == old(self).manager().current_id(),
            final(self).config_view() == old(self).config_view(),
            final(self).run().max_iterations() == old(self).run().max_iterations(),
            final(self).run().max_tool_calls() == old(self).run().max_tool_calls(),
            old(self).manager().current_id() matches Some(c) ==> final(self).manager().sessions().remove(c)
                == old(self).manager().sessions().remove(c),
            old(self).manager().current_id() is None ==> action is Unexpected && final(self).manager().sessions() == old(self).manager().sessions(),
            old(self).manager().current_id() is Some && !ChatRun::fits(old(self).run().phase(), event)
                ==> action is Unexpected && final(self).current_context() == old(self).current_context(),
            old(self).manager().current_id() is Some && ChatRun::fits(old(self).run().phase(), event)
                ==> ChatRun::stepped(
                old(self).run(),
                final(self).run(),
                old(self).current_context(),
                final(self).current_context(),
                event,
                action,
            ),
    {
        proof {
            self.session_manager.lemma_current_wf();
        }
        match self.session_manager.current_mut() {
            Some(session) => {
                let ctx = session.context_mut();
                self.run.step(ctx, &self.tool_executor, event)
            },
            None => ChatAction::Unexpected,
        }
    }

    /// The record to store the current session under.
    pub fn save_current_session(&self) -> (r: Result<SessionRecord, SessionError>)
        requires
            self.wf(),
        ensures
            match self.manager().current_id() {
                Some(c) => self.manager().sessions().contains_key(c) && (r matches Ok(rec) && stores(
                    rec,
                    self.manager().sessions()[c],
                )),
                None => r matches Err(SessionError::NoCurrent),
            },
    {
        self.session_manager.save_current()
    }

    /// Empties the current session's history; a turn under way is dropped.
    pub fn clear_history(&mut self)
        requires
            old(self).wf(),
        ensures
            final(self).wf(),
            final(self).manager().current_id() == old(self).manager().current_id(),
            old(self).manager().current_id() is Some ==> final(self).current_context()
                == (ContextView {
                system_prompt: old(self).current_context().system_prompt,
                messages: Seq::empty(),
            }),
    {
        proof {
            self.session_manager.lemma_current_wf();
        }
        self.run = ChatRun::idle();
        match self.session_manager.current_mut() {
            Some(session) => {
                session.context_mut().clear();
            },
            None => {},
        }
    }

    /// The turn under way agrees with the current session's history.
    pub proof fn lemma_run_agrees(&self)
        requires
            self.wf(),
            self.manager().current_id() is Some,
        ensures
            self.run().inv(self.current_context()),
    {
    }
}

} // verus!
