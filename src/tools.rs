use vstd::prelude::*;

use crate::catalog::{get_tools_static, tool_names, describes, Tool};
use crate::message::{str_eq, ToolArguments, ToolCall};
use crate::text::join2;

verus! {

#[verifier::external_type_specification]
#[verifier::external_body]
pub struct ExJsonError(serde_json::Error);

/// One member of a JSON object of arguments: its key, and its text where the
/// value is a JSON string.
#[derive(Debug)]
pub struct ArgField {
    pub key: String,
    pub text: Option<String>,
}

pub open spec fn field_view(f: ArgField) -> (Seq<char>, Option<Seq<char>>) {
    (
        f.key@,
        match f.text {
            Some(t) => Some(t@),
            None => None,
        },
    )
}

pub open spec fn fields_view(s: Seq<ArgField>) -> Seq<(Seq<char>, Option<Seq<char>>)> {
    s.map_values(|f: ArgField| field_view(f))
}

/// The members that serde_json reads from a text holding one JSON object, or
/// nothing where the text holds no JSON object.
pub uninterp spec fn json_object_fields(text: Seq<char>) -> Option<
    Seq<(Seq<char>, Option<Seq<char>>)>,
>;

/// Relies on `serde_json::from_str` into a `serde_json::Map`: it succeeds on the
/// texts that hold one JSON object and gives that object's members, each with
/// its string value where the value is a JSON string.
#[verifier::external_body]
fn parse_json_object(text: &str) -> (r: Result<Vec<ArgField>, serde_json::Error>)
    ensures
        r is Ok <==> json_object_fields(text@) is Some,
        r matches Ok(v) ==> json_object_fields(text@) == Some(fields_view(v@)),
{
    serde_json::from_str::<serde_json::Map<String, serde_json::Value>>(text).map(
        |m| {
            m.into_iter().map(|(key, value)| ArgField {
                key,
                text: match value {
                    serde_json::Value::String(s) => Some(s),
                    _ => None,
                },
            }).collect()
        },
    )
}

/// The JSON text that the arguments of a call are read from: an object's own
/// text, the content of a string, or an empty object for any other value.
pub open spec fn arguments_source(a: ToolArguments) -> Seq<char> {
    match a {
        ToolArguments::Object(t) => t@,
        ToolArguments::Encoded(t) => t@,
        ToolArguments::Other(_) => "{}"@,
    }
}

/// Reads the members of a call's arguments.
pub fn decode_arguments(args: &ToolArguments) -> (r: Result<Vec<ArgField>, serde_json::Error>)
    ensures
        r is Ok <==> json_object_fields(arguments_source(*args)) is Some,
        r matches Ok(v) ==> json_object_fields(arguments_source(*args)) == Some(fields_view(v@)),
{
    match args {
        ToolArguments::Object(t) => parse_json_object(t.as_str()),
        ToolArguments::Encoded(t) => parse_json_object(t.as_str()),
        ToolArguments::Other(_) => parse_json_object("{}"),
    }
}

/// The text of the first member named `key`, where that member holds a string.
pub open spec fn field_text(fields: Seq<(Seq<char>, Option<Seq<char>>)>, key: Seq<char>) -> Option<
    Seq<char>,
>
    decreases fields.len(),
{
    if fields.len() == 0 {
        None
    } else if fields[0].0 == key {
        fields[0].1
    } else {
        field_text(fields.drop_first(), key)
    }
}

/// A validated call of one of the tools, with its typed arguments.
#[derive(Debug)]
pub enum ToolRequest {
    FsRead { path: String },
    FsWrite { path: String, content: String },
    FsPatch { path: String, old_string: String, new_string: String },
    FsList { path: String },
    WebSearch { query: String },
    WebFetch { url: String },
    GetTime,
}

pub enum ToolRequestView {
    FsRead { path: Seq<char> },
    FsWrite { path: Seq<char>, content: Seq<char> },
    FsPatch { path: Seq<char>, old_string: Seq<char>, new_string: Seq<char> },
    FsList { path: Seq<char> },
    WebSearch { query: Seq<char> },
    WebFetch { url: Seq<char> },
    GetTime,
}

impl View for ToolRequest {
    type V = ToolRequestView;

    open spec fn view(&self) -> ToolRequestView {
        match self {
            ToolRequest::FsRead { path } => ToolRequestView::FsRead { path: path@ },
            ToolRequest::FsWrite { path, content } => ToolRequestView::FsWrite {
                path: path@,
                content: content@,
            },
            ToolRequest::FsPatch { path, old_string, new_string } => ToolRequestView::FsPatch {
                path: path@,
                old_string: old_string@,
                new_string: new_string@,
            },
            ToolRequest::FsList { path } => ToolRequestView::FsList { path: path@ },
            ToolRequest::WebSearch { query } => ToolRequestView::WebSearch { query: query@ },
            ToolRequest::WebFetch { url } => ToolRequestView::WebFetch { url: url@ },
            ToolRequest::GetTime => ToolRequestView::GetTime,
        }
    }
}

/// Why a call could not become a request.
#[derive(Debug)]
pub enum ToolError {
    /// The named parameter is absent or not a string.
    MissingArgument(String),
    /// No tool has this name.
    UnknownTool(String),
}

pub enum ToolErrorView {
    MissingArgument(Seq<char>),
    UnknownTool(Seq<char>),
}

impl View for ToolError {
    type V = ToolErrorView;

    open spec fn view(&self) -> ToolErrorView {
        match self {
            ToolError::MissingArgument(p) => ToolErrorView::MissingArgument(p@),
            ToolError::UnknownTool(n) => ToolErrorView::UnknownTool(n@),
        }
    }
}

pub const MISSING_PREFIX: &'static str = "缺少 ";

pub const MISSING_SUFFIX: &'static str = " 参数";

pub const UNKNOWN_TOOL_PREFIX: &'static str = "未知工具：";

pub open spec fn tool_error_text(e: ToolErrorView) -> Seq<char> {
    match e {
        ToolErrorView::MissingArgument(p) => MISSING_PREFIX@ + p + MISSING_SUFFIX@,
        ToolErrorView::UnknownTool(n) => UNKNOWN_TOOL_PREFIX@ + n,
    }
}

impl ToolError {
    /// The human-readable text of the error.
    pub fn message(&self) -> (r: String)
        ensures
            r@ == tool_error_text(self@),
    {
        match self {
            ToolError::MissingArgument(p) => {
                let s = join2(MISSING_PREFIX, p.as_str());
                join2(s.as_str(), MISSING_SUFFIX)
            },
            ToolError::UnknownTool(n) => join2(UNKNOWN_TOOL_PREFIX, n.as_str()),
        }
    }
}

/// Looks up a required parameter.
pub open spec fn arg_spec(fields: Seq<(Seq<char>, Option<Seq<char>>)>, key: Seq<char>) -> Result<
    Seq<char>,
    ToolErrorView,
> {
    match field_text(fields, key) {
        Some(t) => Ok(t),
        None => Err(ToolErrorView::MissingArgument(key)),
    }
}

/// The request that a call of tool `name` with the given members makes, or why
/// it makes none. Parameters are checked in the order the catalog lists them.
pub open spec fn request_spec(name: Seq<char>, fields: Seq<(Seq<char>, Option<Seq<char>>)>) -> Result<
    ToolRequestView,
    ToolErrorView,
> {
    if name == "fs_read"@ {
        match arg_spec(fields, "path"@) {
            Ok(path) => Ok(ToolRequestView::FsRead { path }),
            Err(e) => Err(e),
        }
    } else if name == "fs_write"@ {
        match arg_spec(fields, "path"@) {
            Err(e) => Err(e),
            Ok(path) => match arg_spec(fields, "content"@) {
                Err(e) => Err(e),
                Ok(content) => Ok(ToolRequestView::FsWrite { path, content }),
            },
        }
    } else if name == "fs_patch"@ {
        match arg_spec(fields, "path"@) {
            Err(e) => Err(e),
            Ok(path) => match arg_spec(fields, "old_string"@) {
                Err(e) => Err(e),
                Ok(old_string) => match arg_spec(fields, "new_string"@) {
                    Err(e) => Err(e),
                    Ok(new_string) => Ok(ToolRequestView::FsPatch { path, old_string, new_string }),
                },
            },
        }
    } else if name == "fs_list"@ {
        match arg_spec(fields, "path"@) {
            Ok(path) => Ok(ToolRequestView::FsList { path }),
            Err(e) => Err(e),
        }
    } else if name == "web_search"@ {
        match arg_spec(fields, "query"@) {
            Ok(query) => Ok(ToolRequestView::WebSearch { query }),
            Err(e) => Err(e),
        }
    } else if name == "web_fetch"@ {
        match arg_spec(fields, "url"@) {
            Ok(url) => Ok(ToolRequestView::WebFetch { url }),
            Err(e) => Err(e),
        }
    } else if name == "get_time"@ {
        Ok(ToolRequestView::GetTime)
    } else {
        Err(ToolErrorView::UnknownTool(name))
    }
}

pub open spec fn result_view(r: Result<ToolRequest, ToolError>) -> Result<ToolRequestView, ToolErrorView> {
    match r {
        Ok(q) => Ok(q@),
        Err(e) => Err(e@),
    }
}

/// Finds the text of the required parameter `key`.
pub fn required_arg(fields: &[ArgField], key: &str) -> (r: Result<String, ToolError>)
    ensures
        match arg_spec(fields_view(fields@), key@) {
            Ok(t) => r matches Ok(s) && s@ == t,
            Err(e) => r matches Err(x) && x@ == e,
        },
{
    let ghost all = fields_view(fields@);
    assert(all.subrange(0, all.len() as int) == all);
    let mut i: usize = 0;
    while i < fields.len()
        invariant
            i <= fields@.len(),
            all == fields_view(fields@),
            field_text(all, key@) == field_text(all.subrange(i as int, all.len() as int), key@),
        decreases fields@.len() - i,
    {
        let ghost rest = all.subrange(i as int, all.len() as int);
        assert(rest.drop_first() == all.subrange(i + 1, all.len() as int));
        if str_eq(fields[i].key.as_str(), key) {
            return match &fields[i].text {
                Some(t) => Ok(t.clone()),
                None => Err(ToolError::MissingArgument(key.to_string())),
            };
        }
        i = i + 1;
    }
    Err(ToolError::MissingArgument(key.to_string()))
}

/// Turns a tool name and its argument members into a typed request.
pub fn parse_tool_request(name: &str, fields: &[ArgField]) -> (r: Result<ToolRequest, ToolError>)
    ensures
        result_view(r) == request_spec(name@, fields_view(fields@)),
{
    if str_eq(name, "fs_read") {
        let path = required_arg(fields, "path")?;
        Ok(ToolRequest::FsRead { path })
    } else if str_eq(name, "fs_write") {
        let path = required_arg(fields, "path")?;
        let content = required_arg(fields, "content")?;
        Ok(ToolRequest::FsWrite { path, content })
    } else if str_eq(name, "fs_patch") {
        let path = required_arg(fields, "path")?;
        let old_string = required_arg(fields, "old_string")?;
        let new_string = required_arg(fields, "new_string")?;
        Ok(ToolRequest::FsPatch { path, old_string, new_string })
    } else if str_eq(name, "fs_list") {
        let path = required_arg(fields, "path")?;
        Ok(ToolRequest::FsList { path })
    } else if str_eq(name, "web_search") {
        let query = required_arg(fields, "query")?;
        Ok(ToolRequest::WebSearch { query })
    } else if str_eq(name, "web_fetch") {
        let url = required_arg(fields, "url")?;
        Ok(ToolRequest::WebFetch { url })
    } else if str_eq(name, "get_time") {
        Ok(ToolRequest::GetTime)
    } else {
        Err(ToolError::UnknownTool(name.to_string()))
    }
}

pub const ARGUMENT_ERROR_PREFIX: &'static str = "工具参数解析失败：";

pub const EXECUTION_ERROR_PREFIX: &'static str = "工具执行失败：";

/// Whether `s` begins with `prefix`.
pub open spec fn starts_with(s: Seq<char>, prefix: Seq<char>) -> bool {
    prefix.len() <= s.len() && s.subrange(0, prefix.len() as int) == prefix
}

/// What to do with one tool call: run a request, or answer it at once.
#[derive(Debug)]
pub enum CallPlan {
    Run(ToolRequest),
    Answer(String),
}

pub enum CallPlanView {
    Run(ToolRequestView),
    Answer(Seq<char>),
}

impl View for CallPlan {
    type V = CallPlanView;

    open spec fn view(&self) -> CallPlanView {
        match self {
            CallPlan::Run(q) => CallPlanView::Run(q@),
            CallPlan::Answer(t) => CallPlanView::Answer(t@),
        }
    }
}

/// The plan for a call of tool `name` whose arguments were read: the request it
/// makes, or the text that reports why it makes none.
pub open spec fn plan_spec(name: Seq<char>, fields: Seq<(Seq<char>, Option<Seq<char>>)>) -> CallPlanView {
    match request_spec(name, fields) {
        Ok(q) => CallPlanView::Run(q),
        Err(e) => CallPlanView::Answer(EXECUTION_ERROR_PREFIX@ + tool_error_text(e)),
    }
}

/// Plans a call whose arguments were read.
pub fn plan_from_fields(name: &str, fields: &[ArgField]) -> (r: CallPlan)
    ensures
        r@ == plan_spec(name@, fields_view(fields@)),
{
    match parse_tool_request(name, fields) {
        Ok(q) => CallPlan::Run(q),
        Err(e) => {
            let m = e.message();
            CallPlan::Answer(join2(EXECUTION_ERROR_PREFIX, m.as_str()))
        },
    }
}

/// Plans one tool call: where its arguments cannot be read, the answer reports
/// that; else the call goes on as `plan_from_fields` says.
pub fn plan_call(call: &ToolCall) -> (r: CallPlan)
    ensures
        match json_object_fields(arguments_source(call.function.arguments)) {
            None => r matches CallPlan::Answer(t) && starts_with(t@, ARGUMENT_ERROR_PREFIX@),
            Some(fields) => r@ == plan_spec(call.function.name@, fields),
        },
{
    match decode_arguments(&call.function.arguments) {
        Ok(fields) => plan_from_fields(call.function.name.as_str(), fields.as_slice()),
        Err(e) => {
            let detail = e.to_string();
            let t = join2(ARGUMENT_ERROR_PREFIX, detail.as_str());
            assert(t@.subrange(0, ARGUMENT_ERROR_PREFIX@.len() as int) == ARGUMENT_ERROR_PREFIX@);
            CallPlan::Answer(t)
        },
    }
}

/// The text that answers a call from what running its request gave.
pub open spec fn outcome_text_spec(ok: bool, text: Seq<char>) -> Seq<char> {
    if ok {
        text
    } else {
        EXECUTION_ERROR_PREFIX@ + text
    }
}

/// The text that answers a call whose request ran: its result, or its failure
/// under the execution error heading.
pub fn tool_answer_text(outcome: &Result<String, String>) -> (r: String)
    ensures
        match outcome {
            Ok(s) => r@ == outcome_text_spec(true, s@),
            Err(e) => r@ == outcome_text_spec(false, e@),
        },
{
    match outcome {
        Ok(s) => s.clone(),
        Err(e) => join2(EXECUTION_ERROR_PREFIX, e.as_str()),
    }
}

/// The path without its leading slashes.
pub open spec fn strip_slashes(s: Seq<char>) -> Seq<char>
    decreases s.len(),
{
    if s.len() > 0 && s[0] == '/' {
        strip_slashes(s.drop_first())
    } else {
        s
    }
}

/// A relative path appended to a base as a path is: with one separator between
/// them unless the base is empty or already ends in one.
pub open spec fn join_path_spec(base: Seq<char>, rel: Seq<char>) -> Seq<char> {
    if base.len() == 0 {
        rel
    } else if base.last() == '/' {
        base + rel
    } else {
        base + "/"@ + rel
    }
}

/// Drops the leading slashes of a path.
fn trim_leading_slashes(path: &str) -> (r: String)
    ensures
        r@ == strip_slashes(path@),
{
    let n = path.unicode_len();
    assert(path@.subrange(0, n as int) == path@);
    let mut k: usize = 0;
    while k < n && path.get_char(k) == '/'
        invariant
            n == path@.len(),
            k <= n,
            strip_slashes(path@) == strip_slashes(path@.subrange(k as int, n as int)),
        decreases n - k,
    {
        assert(path@.subrange(k as int, n as int).drop_first() == path@.subrange(k + 1, n as int));
        k = k + 1;
    }
    path.substring_char(k, n).to_string()
}

pub const OUTSIDE_WORKSPACE_PREFIX: &'static str = "路径超出 workspace 范围：";

/// A `..` component, which climbs one directory.
pub open spec fn is_parent_step(c: Seq<char>) -> bool {
    c.len() == 2 && c[0] == '.' && c[1] == '.'
}

/// An empty or `.` component, which stays where it is.
pub open spec fn is_stay_step(c: Seq<char>) -> bool {
    c.len() == 0 || (c.len() == 1 && c[0] == '.')
}

/// The depth below the start after one more component.
pub open spec fn step_depth(depth: int, c: Seq<char>) -> int {
    if is_parent_step(c) {
        depth - 1
    } else if is_stay_step(c) {
        depth
    } else {
        depth + 1
    }
}

/// Whether walking the rest of a path, at `depth` below the start with the
/// component `comp` read so far, ever climbs above the start.
pub open spec fn leaves_from(rest: Seq<char>, depth: int, comp: Seq<char>) -> bool
    decreases rest.len(),
{
    if rest.len() == 0 {
        step_depth(depth, comp) < 0
    } else if rest[0] == '/' {
        step_depth(depth, comp) < 0 || leaves_from(rest.drop_first(), step_depth(depth, comp), Seq::empty())
    } else {
        leaves_from(rest.drop_first(), depth, comp.push(rest[0]))
    }
}

/// Whether a relative path, read component by component, climbs above where
/// it starts.
pub open spec fn leaves_root(path: Seq<char>) -> bool {
    leaves_from(path, 0, Seq::empty())
}

/// Walks a relative path and tells whether it climbs above its start.
fn escapes_root(p: &str) -> (r: bool)
    ensures
        r == leaves_root(p@),
{
    let n = p.unicode_len();
    let mut i: usize = 0;
    let mut depth: usize = 0;
    let mut comp_len: usize = 0;
    let mut dots: bool = true;
    let ghost mut comp: Seq<char> = Seq::empty();
    assert(p@.subrange(0, n as int) == p@);
    while i < n
        invariant
            n == p@.len(),
            i <= n,
            depth <= i,
            comp_len <= i,
            comp.len() == comp_len,
            dots <==> (forall|k: int| 0 <= k < comp.len() ==> comp[k] == '.'),
            leaves_root(p@) == leaves_from(p@.subrange(i as int, n as int), depth as int, comp),
        decreases n - i,
    {
        let ghost rest = p@.subrange(i as int, n as int);
        assert(rest.drop_first() == p@.subrange(i + 1, n as int));
        let c = p.get_char(i);
        if c == '/' {
            if comp_len == 2 && dots {
                assert(is_parent_step(comp));
                if depth == 0 {
                    return true;
                }
                depth = depth - 1;
            } else if comp_len == 0 || (comp_len == 1 && dots) {
                assert(is_stay_step(comp));
            } else {
                assert(!is_parent_step(comp) && !is_stay_step(comp));
                depth = depth + 1;
            }
            comp_len = 0;
            dots = true;
            proof {
                comp = Seq::empty();
            }
        } else {
            comp_len = comp_len + 1;
            dots = dots && c == '.';
            proof {
                let old_comp = comp;
                comp = comp.push(c);
                assert forall|k: int| 0 <= k < comp.len() implies comp[k] == '.' <== dots by {
                    if k < old_comp.len() {
                        assert(comp[k] == old_comp[k]);
                    }
                }
                if !dots {
                    if c == '.' {
                        let k = choose|k: int| 0 <= k < old_comp.len() && old_comp[k] != '.';
                        assert(comp[k] == old_comp[k]);
                    } else {
                        assert(comp[old_comp.len() as int] != '.');
                    }
                }
            }
        }
        i = i + 1;
    }
    if comp_len == 2 && dots {
        assert(is_parent_step(comp));
        depth == 0
    } else {
        assert(!is_parent_step(comp));
        false
    }
}

/// The file tools' view of the workspace: the directory that paths are taken in.
pub struct FsTools {
    workspace_root: String,
}

impl FsTools {
    pub closed spec fn root(&self) -> Seq<char> {
        self.workspace_root@
    }

    pub fn new(workspace_root: String) -> (r: FsTools)
        ensures
            r.root() == workspace_root@,
    {
        FsTools { workspace_root }
    }

    pub fn workspace_root(&self) -> (r: &str)
        ensures
            r@ == self.root(),
    {
        self.workspace_root.as_str()
    }

    /// The path of `path` inside the workspace: leading slashes are dropped so
    /// that the path is taken relative to the root, and a path whose `..`
    /// components climb above the root is refused.
    pub fn resolve_path(&self, path: &str) -> (r: Result<String, String>)
        ensures
            r is Err <==> leaves_root(strip_slashes(path@)),
            r matches Ok(full) ==> full@ == join_path_spec(self.root(), strip_slashes(path@)),
            r matches Err(e) ==> e@ == OUTSIDE_WORKSPACE_PREFIX@ + path@,
    {
        let clean = trim_leading_slashes(path);
        if escapes_root(clean.as_str()) {
            return Err(join2(OUTSIDE_WORKSPACE_PREFIX, path));
        }
        Ok(crate::config::join_path(self.workspace_root.as_str(), clean.as_str()))
    }
}

/// The tool dispatcher: the catalog it offers, and the plan for each call.
pub struct ToolExecutor {
    fs_tools: FsTools,
}

impl ToolExecutor {
    pub closed spec fn root(&self) -> Seq<char> {
        self.fs_tools.root()
    }

    pub fn new(workspace_root: String) -> (r: ToolExecutor)
        ensures
            r.root() == workspace_root@,
    {
        ToolExecutor { fs_tools: FsTools::new(workspace_root) }
    }

    /// The file tools that the requests of this dispatcher run against.
    pub fn fs_tools(&self) -> (r: &FsTools)
        ensures
            r.root() == self.root(),
    {
        &self.fs_tools
    }

    /// The tool catalog.
    pub fn get_tools(&self) -> (r: Vec<Tool>)
        ensures
            r@.len() == tool_names().len(),
            forall|i: int| 0 <= i < r@.len() ==> describes(#[trigger] r@[i], tool_names()[i]),
    {
        get_tools_static()
    }

    /// The plan for one call, as `plan_call` gives it.
    pub fn plan(&self, call: &ToolCall) -> (r: CallPlan)
        ensures
            match json_object_fields(arguments_source(call.function.arguments)) {
                None => r matches CallPlan::Answer(t) && starts_with(t@, ARGUMENT_ERROR_PREFIX@),
                Some(fields) => r@ == plan_spec(call.function.name@, fields),
            },
    {
        plan_call(call)
    }
}

/// A second dispatcher with the same catalog and the same plans.
pub struct ToolRegistry {
    fs_tools: FsTools,
}

impl ToolRegistry {
    pub closed spec fn root(&self) -> Seq<char> {
        self.fs_tools.root()
    }

    pub fn new(workspace_root: String) -> (r: ToolRegistry)
        ensures
            r.root() == workspace_root@,
    {
        ToolRegistry { fs_tools: FsTools::new(workspace_root) }
    }

    pub fn fs_tools(&self) -> (r: &FsTools)
        ensures
            r.root() == self.root(),
    {
        &self.fs_tools
    }

    pub fn get_tools(&self) -> (r: Vec<Tool>)
        ensures
            r@.len() == tool_names().len(),
            forall|i: int| 0 <= i < r@.len() ==> describes(#[trigger] r@[i], tool_names()[i]),
    {
        get_tools_static()
    }

    pub fn plan(&self, call: &ToolCall) -> (r: CallPlan)
        ensures
            match json_object_fields(arguments_source(call.function.arguments)) {
                None => r matches CallPlan::Answer(t) && starts_with(t@, ARGUMENT_ERROR_PREFIX@),
                Some(fields) => r@ == plan_spec(call.function.name@, fields),
            },
    {
        plan_call(call)
    }
}

/// How many matches of `pat`, found from the left without overlap, `s` holds;
/// an empty pattern matches at every character boundary.
pub open spec fn count_matches_spec(s: Seq<char>, pat: Seq<char>) -> nat
    decreases s.len(),
{
    if pat.len() == 0 {
        s.len() + 1
    } else if s.len() < pat.len() {
        0
    } else if s.subrange(0, pat.len() as int) == pat {
        1 + count_matches_spec(s.subrange(pat.len() as int, s.len() as int), pat)
    } else {
        count_matches_spec(s.drop_first(), pat)
    }
}

/// The text with its first match of `pat` replaced by `rep`.
pub open spec fn replace_first_spec(s: Seq<char>, pat: Seq<char>, rep: Seq<char>) -> Seq<char>
    decreases s.len(),
{
    if pat.len() == 0 {
        rep + s
    } else if s.len() < pat.len() {
        s
    } else if s.subrange(0, pat.len() as int) == pat {
        rep + s.subrange(pat.len() as int, s.len() as int)
    } else {
        seq![s[0]] + replace_first_spec(s.drop_first(), pat, rep)
    }
}

/// Relies on `str::matches` and the iterator's `count`: the number of matches
/// of `pat`, found from the left without overlap.
#[verifier::external_body]
fn count_matches(s: &str, pat: &str) -> (r: usize)
    ensures
        r == count_matches_spec(s@, pat@),
{
    s.matches(pat).count()
}

/// Relies on `str::replacen` with a count of one: the first match of `pat` is
/// replaced by `rep`.
#[verifier::external_body]
fn replace_first(s: &str, pat: &str, rep: &str) -> (r: String)
    ensures
        r@ == replace_first_spec(s@, pat@, rep@),
{
    s.replacen(pat, rep, 1)
}

/// Why a file could not be patched.
#[derive(Debug)]
pub enum PatchError {
    /// The text to replace does not occur.
    NotFound(String),
    /// The text to replace occurs this many times.
    Ambiguous(usize, String),
}

pub const NOT_FOUND_TEXT: &'static str = "未找到要替换的内容：";

pub const AMBIGUOUS_PREFIX: &'static str = "内容出现 ";

pub const AMBIGUOUS_MIDDLE: &'static str = " 次，无法确定替换位置：";

impl PatchError {
    pub fn message(&self) -> (r: String)
        ensures
            match self {
                PatchError::NotFound(t) => r@ == NOT_FOUND_TEXT@ + t@,
                PatchError::Ambiguous(n, t) => r@ == AMBIGUOUS_PREFIX@ + crate::text::decimal_spec(
                    *n as nat,
                ) + AMBIGUOUS_MIDDLE@ + t@,
            },
    {
        match self {
            PatchError::NotFound(t) => join2(NOT_FOUND_TEXT, t.as_str()),
            PatchError::Ambiguous(n, t) => {
                let count = crate::text::decimal(*n);
                let a = join2(AMBIGUOUS_PREFIX, count.as_str());
                let b = join2(a.as_str(), AMBIGUOUS_MIDDLE);
                join2(b.as_str(), t.as_str())
            },
        }
    }
}

/// Replaces the one occurrence of `old_string`; it must occur exactly once.
pub fn patch_text(content: &str, old_string: &str, new_string: &str) -> (r: Result<String, PatchError>)
    ensures
        count_matches_spec(content@, old_string@) == 0 ==> (r matches Err(PatchError::NotFound(t))
            && t@ == old_string@),
        count_matches_spec(content@, old_string@) == 1 ==> (r matches Ok(s) && s@
            == replace_first_spec(content@, old_string@, new_string@)),
        count_matches_spec(content@, old_string@) > 1 ==> (r matches Err(PatchError::Ambiguous(n, t))
            && n == count_matches_spec(content@, old_string@) && t@ == old_string@),
{
    let n = count_matches(content, old_string);
    if n == 0 {
        Err(PatchError::NotFound(old_string.to_string()))
    } else if n > 1 {
        Err(PatchError::Ambiguous(n, old_string.to_string()))
    } else {
        Ok(replace_first(content, old_string, new_string))
    }
}

} // verus!
