use vstd::prelude::*;

use crate::catalog::Tool;
use crate::config::AgentConfig;
use crate::message::{Message, views};
use crate::text::{decimal, decimal_spec, join2};

verus! {

/// The body of a chat request to the backend.
#[derive(Debug)]
pub struct OllamaRequest {
    pub model: String,
    pub messages: Vec<Message>,
    pub tools: Option<Vec<Tool>>,
    pub stream: bool,
}

/// The body of a chat reply from the backend.
#[derive(Debug)]
pub struct OllamaResponse {
    pub message: Message,
    pub done: bool,
    pub error: Option<String>,
}

/// What to do after a failed attempt.
#[derive(Debug)]
pub enum RetryStep {
    /// Wait this many milliseconds, then try again.
    Retry { delay_ms: u64 },
    /// Stop trying; the text says why.
    GiveUp(String),
}

pub const CHAT_PATH: &'static str = "/api/chat";

pub const BASE_DELAY_MS: u64 = 100;

pub const GIVE_UP_PREFIX: &'static str = "LLM 调用在 ";

pub const GIVE_UP_MIDDLE: &'static str = " 次尝试后仍然失败：";

pub const NO_ERROR_TEXT: &'static str = "None";

pub const API_ERROR_PREFIX: &'static str = "Ollama API 错误：";

pub const API_ERROR_SEPARATOR: &'static str = " - ";

pub const PARSE_ERROR_PREFIX: &'static str = "解析 Ollama 响应失败，原始内容：";

pub const BACKEND_ERROR_PREFIX: &'static str = "Ollama 错误：";

/// Two to the power `n`.
pub open spec fn pow2(n: nat) -> nat
    decreases n,
{
    if n == 0 {
        1
    } else {
        2 * pow2((n - 1) as nat)
    }
}

/// The wait before the attempt after attempt `attempt`: the base delay doubled
/// `attempt` times, held at the largest `u64` where it would not fit.
pub open spec fn backoff_spec(attempt: nat) -> nat {
    let d = BASE_DELAY_MS as nat * pow2(attempt);
    if d <= u64::MAX {
        d
    } else {
        u64::MAX as nat
    }
}

/// The wait, in milliseconds, after the failed attempt `attempt`.
pub fn backoff_delay_ms(attempt: usize) -> (r: u64)
    ensures
        r == backoff_spec(attempt as nat),
{
    let mut d: u64 = BASE_DELAY_MS;
    let mut i: usize = 0;
    while i < attempt
        invariant
            i <= attempt,
            d == backoff_spec(i as nat),
        decreases attempt - i,
    {
        proof {
            assert(pow2((i + 1) as nat) == 2 * pow2(i as nat));
        }
        if d > u64::MAX / 2 {
            proof {
                lemma_backoff_saturates(i as nat);
            }
            return u64::MAX;
        }
        d = d * 2;
        i = i + 1;
    }
    d
}

proof fn lemma_pow2_grows(a: nat, b: nat)
    requires
        a <= b,
    ensures
        pow2(a) <= pow2(b),
    decreases b,
{
    if a < b {
        lemma_pow2_grows(a, (b - 1) as nat);
    }
}

/// Once the delay passes half the largest `u64`, every later one is held there.
proof fn lemma_backoff_saturates(i: nat)
    requires
        backoff_spec(i) > u64::MAX / 2,
    ensures
        forall|j: nat| j > i ==> #[trigger] backoff_spec(j) == u64::MAX,
{
    assert forall|j: nat| j > i implies #[trigger] backoff_spec(j) == u64::MAX by {
        lemma_pow2_grows((i + 1) as nat, j);
        assert(pow2((i + 1) as nat) == 2 * pow2(i));
        if BASE_DELAY_MS * pow2(i) <= u64::MAX {
            assert(BASE_DELAY_MS * pow2(i) > u64::MAX / 2);
        } else {
            assert(BASE_DELAY_MS * pow2(i) <= BASE_DELAY_MS * pow2((i + 1) as nat)) by (nonlinear_arith)
                requires
                    pow2(i) <= pow2((i + 1) as nat),
            ;
        }
        assert(BASE_DELAY_MS * pow2((i + 1) as nat) <= BASE_DELAY_MS * pow2(j)) by (nonlinear_arith)
            requires
                pow2((i + 1) as nat) <= pow2(j),
        ;
    }
}

/// The text that reports that every attempt failed.
pub open spec fn give_up_spec(max: nat, last_error: Seq<char>) -> Seq<char> {
    GIVE_UP_PREFIX@ + decimal_spec(max) + GIVE_UP_MIDDLE@ + last_error
}

/// The model client: the settings it talks to the backend with.
pub struct LlmClient {
    config: AgentConfig,
}

impl LlmClient {
    pub closed spec fn config_view(&self) -> AgentConfig {
        self.config
    }

    pub fn new(config: AgentConfig) -> (r: LlmClient)
        ensures
            r.config_view() == config,
    {
        LlmClient { config }
    }

    pub fn config(&self) -> (r: &AgentConfig)
        ensures
            *r == self.config_view(),
    {
        &self.config
    }

    /// The address that chat requests go to.
    pub fn endpoint(&self) -> (r: String)
        ensures
            r@ == self.config_view().base_url@ + CHAT_PATH@,
    {
        join2(self.config.base_url.as_str(), CHAT_PATH)
    }

    /// The request that sends `messages`, and the tool catalog where one is given.
    pub fn request(&self, messages: Vec<Message>, tools: Option<Vec<Tool>>) -> (r: OllamaRequest)
        ensures
            r.model@ == self.config_view().model@,
            r.messages@ == messages@,
            r.tools == tools,
            !r.stream,
    {
        OllamaRequest { model: self.config.model.clone(), messages, tools, stream: false }
    }

    /// The text that reports that every attempt failed, the last with `last_error`,
    /// or with none where no attempt was made.
    pub fn give_up_text(&self, last_error: Option<&str>) -> (r: String)
        ensures
            r@ == give_up_spec(
                self.config_view().max_llm_retries as nat,
                match last_error {
                    Some(e) => e@,
                    None => NO_ERROR_TEXT@,
                },
            ),
    {
        let count = decimal(self.config.max_llm_retries);
        let head = join2(GIVE_UP_PREFIX, count.as_str());
        let middle = join2(head.as_str(), GIVE_UP_MIDDLE);
        match last_error {
            Some(e) => join2(middle.as_str(), e),
            None => join2(middle.as_str(), NO_ERROR_TEXT),
        }
    }

    /// What follows the failed attempt `attempt`, counted from one: another try
    /// after the backoff while attempts remain, else giving up.
    pub fn after_failure(&self, attempt: usize, error: &str) -> (r: RetryStep)
        ensures
            attempt < self.config_view().max_llm_retries ==> r == (RetryStep::Retry {
                delay_ms: backoff_spec(attempt as nat) as u64,
            }),
            attempt >= self.config_view().max_llm_retries ==> (r matches RetryStep::GiveUp(t) && t@
                == give_up_spec(self.config_view().max_llm_retries as nat, error@)),
    {
        if attempt < self.config.max_llm_retries {
            RetryStep::Retry { delay_ms: backoff_delay_ms(attempt) }
        } else {
            RetryStep::GiveUp(self.give_up_text(Some(error)))
        }
    }
}

/// How a backend reply is read: a failing status is an error with the status
/// and the body; then a body that did not parse; then an error the backend
/// reported; else the reply's message.
pub fn reply_outcome(status_ok: bool, status: &str, body: &str, parsed: Option<OllamaResponse>) -> (r:
    Result<Message, String>)
    ensures
        !status_ok ==> (r matches Err(e) && e@ == API_ERROR_PREFIX@ + status@ + API_ERROR_SEPARATOR@
            + body@),
        status_ok && parsed is None ==> (r matches Err(e) && e@ == PARSE_ERROR_PREFIX@ + body@),
        status_ok && parsed is Some && parsed->Some_0.error is Some ==> (r matches Err(e) && e@
            == BACKEND_ERROR_PREFIX@ + parsed->Some_0.error->Some_0@),
        status_ok && parsed is Some && parsed->Some_0.error is None ==> (r matches Ok(m) && m@
            == parsed->Some_0.message@),
{
    if !status_ok {
        let a = join2(API_ERROR_PREFIX, status);
        let b = join2(a.as_str(), API_ERROR_SEPARATOR);
        return Err(join2(b.as_str(), body));
    }
    match parsed {
        None => Err(join2(PARSE_ERROR_PREFIX, body)),
        Some(p) => match p.error {
            Some(e) => Err(join2(BACKEND_ERROR_PREFIX, e.as_str())),
            None => Ok(p.message),
        },
    }
}

} // verus!
