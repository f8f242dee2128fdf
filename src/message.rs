use vstd::prelude::*;

verus! {

/// Who wrote a message of the transcript.
#[derive(Debug, PartialEq, Eq, Structural, Clone, Copy)]
pub enum Role {
    System,
    User,
    Assistant,
    Tool,
}

/// The wire name of each role.
pub open spec fn role_name_spec(r: Role) -> Seq<char> {
    match r {
        Role::System => "system"@,
        Role::User => "user"@,
        Role::Assistant => "assistant"@,
        Role::Tool => "tool"@,
    }
}

impl Role {
    /// The name under which the role travels to the backend and to disk.
    pub fn name(&self) -> (r: &'static str)
        ensures
            r@ == role_name_spec(*self),
    {
        match self {
            Role::System => "system",
            Role::User => "user",
            Role::Assistant => "assistant",
            Role::Tool => "tool",
        }
    }

    /// Reads a role back from its wire name; any other text is no role.
    pub fn from_name(s: &str) -> (r: Option<Role>)
        ensures
            r matches Some(role) ==> role_name_spec(role) == s@,
            r is None ==> forall|role: Role| role_name_spec(role) != s@,
    {
        proof {
            reveal_strlit("system");
            reveal_strlit("user");
            reveal_strlit("assistant");
            reveal_strlit("tool");
        }
        let system = "system";
        let user = "user";
        let assistant = "assistant";
        let tool = "tool";
        if str_eq(s, system) {
            Some(Role::System)
        } else if str_eq(s, user) {
            Some(Role::User)
        } else if str_eq(s, assistant) {
            Some(Role::Assistant)
        } else if str_eq(s, tool) {
            Some(Role::Tool)
        } else {
            None
        }
    }
}

/// Compares two strings character by character.
pub fn str_eq(a: &str, b: &str) -> (r: bool)
    ensures
        r == (a@ == b@),
{
    let n = a.unicode_len();
    let m = b.unicode_len();
    if n != m {
        return false;
    }
    let mut i: usize = 0;
    while i < n
        invariant
            n == a@.len(),
            m == b@.len(),
            n == m,
            i <= n,
            a@.subrange(0, i as int) == b@.subrange(0, i as int),
        decreases n - i,
    {
        if a.get_char(i) != b.get_char(i) {
            assert(a@[i as int] != b@[i as int]);
            return false;
        }
        assert(a@.subrange(0, i + 1) == a@.subrange(0, i as int).push(a@[i as int]));
        assert(b@.subrange(0, i + 1) == b@.subrange(0, i as int).push(b@[i as int]));
        i = i + 1;
    }
    assert(a@ == a@.subrange(0, n as int));
    assert(b@ == b@.subrange(0, n as int));
    true
}

/// Whether `s` begins with `prefix`, character by character.
pub fn str_starts_with(s: &str, prefix: &str) -> (r: bool)
    ensures
        r == (prefix@.len() <= s@.len() && s@.subrange(0, prefix@.len() as int) == prefix@),
{
    let n = s.unicode_len();
    let m = prefix.unicode_len();
    if m > n {
        return false;
    }
    let mut i: usize = 0;
    while i < m
        invariant
            n == s@.len(),
            m == prefix@.len(),
            m <= n,
            i <= m,
            s@.subrange(0, i as int) == prefix@.subrange(0, i as int),
        decreases m - i,
    {
        if s.get_char(i) != prefix.get_char(i) {
            assert(s@.subrange(0, m as int)[i as int] != prefix@[i as int]);
            return false;
        }
        assert(s@.subrange(0, i + 1) == s@.subrange(0, i as int).push(s@[i as int]));
        assert(prefix@.subrange(0, i + 1) == prefix@.subrange(0, i as int).push(prefix@[i as int]));
        i = i + 1;
    }
    assert(prefix@ == prefix@.subrange(0, m as int));
    true
}

/// The arguments of a tool call as the backend sent them, kept as JSON text.
#[derive(Debug)]
pub enum ToolArguments {
    /// A JSON object, held as its JSON text.
    Object(String),
    /// A JSON string, held as its content, which should itself hold a JSON object.
    Encoded(String),
    /// Any other JSON value, held as its JSON text.
    Other(String),
}

impl Clone for ToolArguments {
    fn clone(&self) -> (r: Self)
        ensures
            r == *self,
    {
        match self {
            ToolArguments::Object(s) => ToolArguments::Object(s.clone()),
            ToolArguments::Encoded(s) => ToolArguments::Encoded(s.clone()),
            ToolArguments::Other(s) => ToolArguments::Other(s.clone()),
        }
    }
}

/// The function part of a tool call: which tool, and with what arguments.
#[derive(Debug)]
pub struct FunctionCall {
    pub name: String,
    pub index: Option<u32>,
    pub arguments: ToolArguments,
}

impl Clone for FunctionCall {
    fn clone(&self) -> (r: Self)
        ensures
            r == *self,
    {
        FunctionCall {
            name: self.name.clone(),
            index: self.index,
            arguments: self.arguments.clone(),
        }
    }
}

/// A tool invocation requested by the model; its id comes back on the tool's answer.
#[derive(Debug)]
pub struct ToolCall {
    pub id: String,
    pub kind: Option<String>,
    pub function: FunctionCall,
}

impl Clone for ToolCall {
    fn clone(&self) -> (r: Self)
        ensures
            r == *self,
    {
        let kind = match &self.kind {
            Some(k) => Some(k.clone()),
            None => None,
        };
        ToolCall { id: self.id.clone(), kind, function: self.function.clone() }
    }
}

/// Clones a list of tool calls, keeping every element as it is.
pub fn clone_calls(v: &Vec<ToolCall>) -> (r: Vec<ToolCall>)
    ensures
        r@ == v@,
{
    let mut r: Vec<ToolCall> = Vec::new();
    let mut i: usize = 0;
    while i < v.len()
        invariant
            i <= v@.len(),
            r@ == v@.subrange(0, i as int),
        decreases v@.len() - i,
    {
        r.push(v[i].clone());
        assert(v@.subrange(0, i + 1) == v@.subrange(0, i as int).push(v@[i as int]));
        i = i + 1;
    }
    assert(v@ == v@.subrange(0, v@.len() as int));
    r
}

/// One entry of a transcript.
#[derive(Debug)]
pub struct Message {
    pub role: Role,
    pub content: String,
    pub tool_calls: Option<Vec<ToolCall>>,
    pub tool_call_id: Option<String>,
}

/// What a message says, as mathematical values.
pub struct MessageView {
    pub role: Role,
    pub content: Seq<char>,
    pub tool_calls: Option<Seq<ToolCall>>,
    pub tool_call_id: Option<Seq<char>>,
}

impl View for Message {
    type V = MessageView;

    open spec fn view(&self) -> MessageView {
        MessageView {
            role: self.role,
            content: self.content@,
            tool_calls: match self.tool_calls {
                Some(c) => Some(c@),
                None => None,
            },
            tool_call_id: match self.tool_call_id {
                Some(id) => Some(id@),
                None => None,
            },
        }
    }
}

/// The views of a sequence of messages.
pub open spec fn views(s: Seq<Message>) -> Seq<MessageView> {
    s.map_values(|m: Message| m@)
}

impl Clone for Message {
    fn clone(&self) -> (r: Self)
        ensures
            r@ == self@,
    {
        let tool_calls = match &self.tool_calls {
            Some(calls) => Some(clone_calls(calls)),
            None => None,
        };
        let tool_call_id = match &self.tool_call_id {
            Some(id) => Some(id.clone()),
            None => None,
        };
        Message { role: self.role, content: self.content.clone(), tool_calls, tool_call_id }
    }
}

impl MessageView {
    /// The shape rule of a message: only a tool message answers a call, and only
    /// an assistant message makes calls.
    pub open spec fn well_formed(&self) -> bool {
        &&& (self.tool_call_id is Some <==> self.role == Role::Tool)
        &&& (self.tool_calls is Some ==> self.role == Role::Assistant)
    }

    /// A message with the given role and text, without calls.
    pub open spec fn is_plain(&self, role: Role, content: Seq<char>) -> bool {
        &&& self.role == role
        &&& self.content == content
        &&& self.tool_calls is None
        &&& self.tool_call_id is None
    }

    /// An assistant message with the given text that carries the given calls.
    pub open spec fn is_call_request(&self, content: Seq<char>, calls: Seq<ToolCall>) -> bool {
        &&& self.role == Role::Assistant
        &&& self.content == content
        &&& self.tool_calls == Some(calls)
        &&& self.tool_call_id is None
    }

    /// A tool message that answers the call with the given id.
    pub open spec fn is_tool_answer(&self, call_id: Seq<char>, content: Seq<char>) -> bool {
        &&& self.role == Role::Tool
        &&& self.content == content
        &&& self.tool_calls is None
        &&& self.tool_call_id == Some(call_id)
    }
}

impl Message {
    /// A message with the given role and text, without calls.
    pub fn plain(role: Role, content: &str) -> (m: Message)
        ensures
            m@.is_plain(role, content@),
    {
        Message { role, content: content.to_string(), tool_calls: None, tool_call_id: None }
    }
}

} // verus!
