use vstd::prelude::*;

use crate::message::{Message, MessageView, Role, ToolCall, views};
use crate::text::{join2, trim, trim_spec};

verus! {

/// The three optional text fragments from which a system prompt is composed.
pub struct PromptSources {
    /// The role definition.
    pub agent: String,
    /// The conversational style.
    pub soul: String,
    /// What is known of the user.
    pub user: String,
}

pub const AGENT_HEADING: &'static str = "## 角色定义\n";

pub const SOUL_HEADING: &'static str = "## 对话风格\n";

pub const USER_HEADING: &'static str = "## 用户信息\n";

pub const SECTION_END: &'static str = "\n\n";

pub const DEFAULT_SYSTEM_PROMPT: &'static str = "你是一个有用的助手。你可以使用工具来帮助用户。\n当你调用工具后，请根据工具返回的结果直接回答用户的问题，不要编造信息。\n如果工具已经给出了完整答案，请简洁地转述给用户，不要添加多余的自我介绍。";

/// A fragment under its heading, or nothing when the fragment is empty.
pub open spec fn section_spec(heading: Seq<char>, text: Seq<char>) -> Seq<char> {
    if text.len() == 0 {
        Seq::empty()
    } else {
        heading + trim_spec(text) + SECTION_END@
    }
}

/// The three fragments in their fixed order: role, style, user.
pub open spec fn composed_spec(agent: Seq<char>, soul: Seq<char>, user: Seq<char>) -> Seq<char> {
    section_spec(AGENT_HEADING@, agent) + section_spec(SOUL_HEADING@, soul) + section_spec(
        USER_HEADING@,
        user,
    )
}

/// The system prompt made of three fragments, or the default one where all are empty.
pub open spec fn system_prompt_spec(agent: Seq<char>, soul: Seq<char>, user: Seq<char>) -> Seq<
    char,
> {
    let c = composed_spec(agent, soul, user);
    if c.len() == 0 {
        trim_spec(DEFAULT_SYSTEM_PROMPT@)
    } else {
        trim_spec(c)
    }
}

/// The transcript of one conversation: a system prompt and the history after it.
pub struct Context {
    system_prompt: String,
    messages: Vec<Message>,
}

pub struct ContextView {
    pub system_prompt: Seq<char>,
    pub messages: Seq<MessageView>,
}

impl View for Context {
    type V = ContextView;

    closed spec fn view(&self) -> ContextView {
        ContextView { system_prompt: self.system_prompt@, messages: views(self.messages@) }
    }
}

/// Appends one section to a prompt under construction.
fn push_section(prompt: &mut String, heading: &str, text: &str)
    ensures
        final(prompt)@ == old(prompt)@ + section_spec(heading@, text@),
{
    if text.unicode_len() > 0 {
        let body = join2(heading, trim(text));
        prompt.append(body.as_str());
        prompt.append(SECTION_END);
    }
}

impl Context {
    pub fn new(system_prompt: String) -> (c: Context)
        ensures
            c@.system_prompt == system_prompt@,
            c@.messages == Seq::<MessageView>::empty(),
    {
        let c = Context { system_prompt, messages: Vec::new() };
        assert(views(c.messages@) =~= Seq::<MessageView>::empty());
        c
    }

    /// Composes the system prompt from its three fragments, stores it and returns it.
    pub fn load_system_prompt(&mut self, sources: &PromptSources) -> (r: String)
        ensures
            r@ == system_prompt_spec(sources.agent@, sources.soul@, sources.user@),
            final(self)@.system_prompt == r@,
            final(self)@.messages == old(self)@.messages,
    {
        let mut prompt = String::new();
        push_section(&mut prompt, AGENT_HEADING, sources.agent.as_str());
        push_section(&mut prompt, SOUL_HEADING, sources.soul.as_str());
        push_section(&mut prompt, USER_HEADING, sources.user.as_str());
        let stored = if prompt.as_str().unicode_len() == 0 {
            trim(DEFAULT_SYSTEM_PROMPT).to_string()
        } else {
            trim(prompt.as_str()).to_string()
        };
        self.system_prompt = stored.clone();
        stored
    }

    pub fn add_user(&mut self, content: &str)
        ensures
            final(self)@.system_prompt == old(self)@.system_prompt,
            final(self)@.messages.len() == old(self)@.messages.len() + 1,
            final(self)@.messages.drop_last() == old(self)@.messages,
            final(self)@.messages.last().is_plain(Role::User, content@),
    {
        self.push(Message::plain(Role::User, content));
    }

    /// Appends an assistant message; it carries calls when `tool_calls` holds some.
    pub fn add_assistant(&mut self, content: &str, tool_calls: Option<Vec<ToolCall>>)
        ensures
            final(self)@.system_prompt == old(self)@.system_prompt,
            final(self)@.messages.len() == old(self)@.messages.len() + 1,
            final(self)@.messages.drop_last() == old(self)@.messages,
            final(self)@.messages.last() == (MessageView {
                role: Role::Assistant,
                content: content@,
                tool_calls: match tool_calls {
                    Some(c) => Some(c@),
                    None => None,
                },
                tool_call_id: None,
            }),
    {
        self.push(
            Message { role: Role::Assistant, content: content.to_string(), tool_calls, tool_call_id: None },
        );
    }

    /// Appends the answer of the tool call with id `tool_call_id`.
    pub fn add_tool_result(&mut self, tool_call_id: &str, content: &str)
        ensures
            final(self)@.system_prompt == old(self)@.system_prompt,
            final(self)@.messages.len() == old(self)@.messages.len() + 1,
            final(self)@.messages.drop_last() == old(self)@.messages,
            final(self)@.messages.last().is_tool_answer(tool_call_id@, content@),
    {
        self.push(
            Message {
                role: Role::Tool,
                content: content.to_string(),
                tool_calls: None,
                tool_call_id: Some(tool_call_id.to_string()),
            },
        );
    }

    fn push(&mut self, m: Message)
        ensures
            final(self)@.system_prompt == old(self)@.system_prompt,
            final(self)@.messages == old(self)@.messages.push(m@),
    {
        self.messages.push(m);
        assert(views(self.messages@) =~= views(old(self).messages@).push(m@));
    }

    /// The model-ready transcript: the system message, then the history.
    pub fn messages(&self) -> (r: Vec<Message>)
        ensures
            views(r@) == seq![system_message_spec(self@.system_prompt)] + self@.messages,
    {
        let mut all: Vec<Message> = Vec::new();
        all.push(
            Message {
                role: Role::System,
                content: self.system_prompt.clone(),
                tool_calls: None,
                tool_call_id: None,
            },
        );
        let mut i: usize = 0;
        while i < self.messages.len()
            invariant
                i <= self.messages@.len(),
                views(all@) == seq![system_message_spec(self@.system_prompt)] + views(
                    self.messages@.subrange(0, i as int),
                ),
            decreases self.messages@.len() - i,
        {
            let m = self.messages[i].clone();
            proof {
                let sub = self.messages@.subrange(0, i as int);
                assert(self.messages@.subrange(0, i + 1) == sub.push(self.messages@[i as int]));
                assert(views(sub.push(self.messages@[i as int])) =~= views(sub).push(m@));
                assert(views(all@.push(m)) =~= views(all@).push(m@));
            }
            all.push(m);
            i = i + 1;
        }
        assert(self.messages@.subrange(0, self.messages@.len() as int) == self.messages@);
        all
    }

    /// A copy of the history without the system message.
    pub fn history(&self) -> (r: Vec<Message>)
        ensures
            views(r@) == self@.messages,
    {
        let mut all: Vec<Message> = Vec::new();
        let mut i: usize = 0;
        while i < self.messages.len()
            invariant
                i <= self.messages@.len(),
                views(all@) == views(self.messages@.subrange(0, i as int)),
            decreases self.messages@.len() - i,
        {
            let m = self.messages[i].clone();
            proof {
                let sub = self.messages@.subrange(0, i as int);
                assert(self.messages@.subrange(0, i + 1) == sub.push(self.messages@[i as int]));
                assert(views(sub.push(self.messages@[i as int])) =~= views(sub).push(m@));
                assert(views(all@.push(m)) =~= views(all@).push(m@));
            }
            all.push(m);
            i = i + 1;
        }
        assert(self.messages@.subrange(0, self.messages@.len() as int) == self.messages@);
        all
    }

    /// The history without the system message.
    pub fn raw_messages(&self) -> (r: &[Message])
        ensures
            views(r@) == self@.messages,
    {
        self.messages.as_slice()
    }

    /// The history, to be changed in place.
    pub fn raw_messages_mut(&mut self) -> (r: &mut Vec<Message>)
        ensures
            views(r@) == old(self)@.messages,
            final(self)@.system_prompt == old(self)@.system_prompt,
            final(self)@.messages == views(final(r)@),
    {
        &mut self.messages
    }

    /// Keeps only the last `max_messages` messages, in their order.
    pub fn truncate(&mut self, max_messages: usize)
        ensures
            final(self)@.system_prompt == old(self)@.system_prompt,
            old(self)@.messages.len() > max_messages ==> final(self)@.messages
                == old(self)@.messages.subrange(
                old(self)@.messages.len() - max_messages,
                old(self)@.messages.len() as int,
            ),
            old(self)@.messages.len() <= max_messages ==> final(self)@.messages
                == old(self)@.messages,
    {
        let n = self.messages.len();
        if n > max_messages {
            let kept = self.messages.split_off(n - max_messages);
            self.messages = kept;
            assert(views(self.messages@) =~= views(old(self).messages@).subrange(
                n - max_messages,
                n as int,
            ));
        }
    }

    /// Empties the history and keeps the system prompt.
    pub fn clear(&mut self)
        ensures
            final(self)@.system_prompt == old(self)@.system_prompt,
            final(self)@.messages == Seq::<MessageView>::empty(),
    {
        self.messages.clear();
        assert(views(self.messages@) =~= Seq::<MessageView>::empty());
    }

    pub fn system_prompt(&self) -> (r: &str)
        ensures
            r@ == self@.system_prompt,
    {
        self.system_prompt.as_str()
    }

    pub fn len(&self) -> (r: usize)
        ensures
            r == self@.messages.len(),
    {
        self.messages.len()
    }

    pub fn is_empty(&self) -> (r: bool)
        ensures
            r == (self@.messages.len() == 0),
    {
        self.messages.len() == 0
    }
}

/// The message that opens every transcript.
pub open spec fn system_message_spec(prompt: Seq<char>) -> MessageView {
    MessageView { role: Role::System, content: prompt, tool_calls: None, tool_call_id: None }
}

} // verus!
