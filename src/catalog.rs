use vstd::prelude::*;

verus! {

/// One named text parameter of a tool.
#[derive(Debug)]
pub struct ParamSpec {
    pub name: String,
    pub description: String,
}

/// The parameters a tool takes; every parameter here is a JSON string.
#[derive(Debug)]
pub struct ParameterSchema {
    pub properties: Vec<ParamSpec>,
    pub required: Vec<String>,
}

#[derive(Debug)]
pub struct FunctionDefinition {
    pub name: String,
    pub description: String,
    pub parameters: ParameterSchema,
}

/// One entry of the catalog that the model is offered.
#[derive(Debug)]
pub struct Tool {
    pub kind: String,
    pub function: FunctionDefinition,
}

/// The names of the tools, in catalog order.
pub open spec fn tool_names() -> Seq<Seq<char>> {
    seq![
        "fs_read"@,
        "fs_write"@,
        "fs_patch"@,
        "fs_list"@,
        "web_search"@,
        "web_fetch"@,
        "get_time"@,
    ]
}

/// The parameters that each tool needs, in the order in which they are checked.
pub open spec fn tool_params(name: Seq<char>) -> Seq<Seq<char>> {
    if name == "fs_read"@ || name == "fs_list"@ {
        seq!["path"@]
    } else if name == "fs_write"@ {
        seq!["path"@, "content"@]
    } else if name == "fs_patch"@ {
        seq!["path"@, "old_string"@, "new_string"@]
    } else if name == "web_search"@ {
        seq!["query"@]
    } else if name == "web_fetch"@ {
        seq!["url"@]
    } else {
        seq![]
    }
}

pub const PATH_IN_FILE: &'static str = "相对于 workspace 的文件路径";

/// What the catalog says each tool does.
pub open spec fn tool_description(name: Seq<char>) -> Seq<char> {
    if name == "fs_read"@ {
        "读取 workspace 内的文件内容"@
    } else if name == "fs_write"@ {
        "写入文件到 workspace 内（覆盖模式）"@
    } else if name == "fs_patch"@ {
        "部分修改 workspace 内的文件（查找替换）"@
    } else if name == "fs_list"@ {
        "列出 workspace 内的目录内容"@
    } else if name == "web_search"@ {
        "搜索网络信息"@
    } else if name == "web_fetch"@ {
        "抓取网页内容"@
    } else {
        "获取当前时间"@
    }
}

/// What the catalog says of each parameter of each tool, in parameter order.
pub open spec fn tool_param_descriptions(name: Seq<char>) -> Seq<Seq<char>> {
    if name == "fs_read"@ {
        seq![PATH_IN_FILE@]
    } else if name == "fs_write"@ {
        seq![PATH_IN_FILE@, "文件内容"@]
    } else if name == "fs_patch"@ {
        seq![PATH_IN_FILE@, "要查找并替换的内容"@, "替换为的新内容"@]
    } else if name == "fs_list"@ {
        seq!["相对于 workspace 的目录路径"@]
    } else if name == "web_search"@ {
        seq!["搜索关键词"@]
    } else if name == "web_fetch"@ {
        seq!["网页 URL"@]
    } else {
        seq![]
    }
}

pub open spec fn param_descriptions(p: Seq<ParamSpec>) -> Seq<Seq<char>> {
    p.map_values(|q: ParamSpec| q.description@)
}

pub open spec fn param_names(p: Seq<ParamSpec>) -> Seq<Seq<char>> {
    p.map_values(|q: ParamSpec| q.name@)
}

pub open spec fn string_views(p: Seq<String>) -> Seq<Seq<char>> {
    p.map_values(|q: String| q@)
}

/// A catalog entry for the tool `name` whose parameters are all required.
pub open spec fn describes(t: Tool, name: Seq<char>) -> bool {
    &&& t.kind@ == "function"@
    &&& t.function.name@ == name
    &&& t.function.description@ == tool_description(name)
    &&& param_descriptions(t.function.parameters.properties@) == tool_param_descriptions(name)
    &&& param_names(t.function.parameters.properties@) == tool_params(name)
    &&& string_views(t.function.parameters.required@) == tool_params(name)
}

fn param(name: &str, description: &str) -> (p: ParamSpec)
    ensures
        p.name@ == name@,
        p.description@ == description@,
{
    ParamSpec { name: name.to_string(), description: description.to_string() }
}

/// A tool whose parameters are all required.
fn tool(name: &str, description: &str, properties: Vec<ParamSpec>) -> (t: Tool)
    ensures
        t.kind@ == "function"@,
        t.function.name@ == name@,
        t.function.description@ == description@,
        t.function.parameters.properties@ == properties@,
        string_views(t.function.parameters.required@) == param_names(properties@),
{
    let mut required: Vec<String> = Vec::new();
    let mut i: usize = 0;
    while i < properties.len()
        invariant
            i <= properties@.len(),
            string_views(required@) == param_names(properties@.subrange(0, i as int)),
        decreases properties@.len() - i,
    {
        let n = properties[i].name.clone();
        proof {
            let sub = properties@.subrange(0, i as int);
            assert(properties@.subrange(0, i + 1) == sub.push(properties@[i as int]));
            assert(param_names(sub.push(properties@[i as int])) =~= param_names(sub).push(n@));
            assert(string_views(required@.push(n)) =~= string_views(required@).push(n@));
        }
        required.push(n);
        i = i + 1;
    }
    assert(properties@.subrange(0, properties@.len() as int) == properties@);
    Tool {
        kind: "function".to_string(),
        function: FunctionDefinition {
            name: name.to_string(),
            description: description.to_string(),
            parameters: ParameterSchema { properties, required },
        },
    }
}

/// The tool names differ from one another.
proof fn lemma_tool_names_distinct()
    ensures
        forall|i: int, j: int|
            0 <= i < j < tool_names().len() ==> tool_names()[i] != tool_names()[j],
{
    reveal_strlit("fs_read");
    reveal_strlit("fs_write");
    reveal_strlit("fs_patch");
    reveal_strlit("fs_list");
    reveal_strlit("web_search");
    reveal_strlit("web_fetch");
    reveal_strlit("get_time");
    let n = tool_names();
    assert(n[0].len() == 7 && n[1].len() == 8 && n[2].len() == 8 && n[3].len() == 7);
    assert(n[4].len() == 10 && n[5].len() == 9 && n[6].len() == 8);
    assert(n[0][3] != n[3][3]);
    assert(n[1][3] != n[2][3]);
    assert(n[1][0] != n[6][0]);
    assert(n[2][0] != n[6][0]);
}

/// The fixed catalog of tools, built afresh on each call.
pub fn get_tools_static() -> (r: Vec<Tool>)
    ensures
        r@.len() == tool_names().len(),
        forall|i: int| 0 <= i < r@.len() ==> describes(#[trigger] r@[i], tool_names()[i]),
{
    proof {
        reveal_strlit("fs_read");
        reveal_strlit("fs_write");
        reveal_strlit("fs_patch");
        reveal_strlit("fs_list");
        reveal_strlit("web_search");
        reveal_strlit("web_fetch");
        reveal_strlit("get_time");
        lemma_tool_names_distinct();
    }
    let path_in_file = PATH_IN_FILE;
    let mut tools: Vec<Tool> = Vec::new();
    let t = tool("fs_read", "读取 workspace 内的文件内容", vec![param("path", path_in_file)]);
    assert(param_names(t.function.parameters.properties@) =~= seq!["path"@]);
    assert(param_descriptions(t.function.parameters.properties@) =~= seq![PATH_IN_FILE@]);
    tools.push(t);
    assert(describes(tools@[0], tool_names()[0]));
    let t = tool(
        "fs_write",
        "写入文件到 workspace 内（覆盖模式）",
        vec![param("path", path_in_file), param("content", "文件内容")],
    );
    assert(param_names(t.function.parameters.properties@) =~= seq!["path"@, "content"@]);
    assert(param_descriptions(t.function.parameters.properties@) =~= seq![PATH_IN_FILE@, "文件内容"@]);
    tools.push(t);
    assert(describes(tools@[1], tool_names()[1]));
    let t = tool(
        "fs_patch",
        "部分修改 workspace 内的文件（查找替换）",
        vec![
            param("path", path_in_file),
            param("old_string", "要查找并替换的内容"),
            param("new_string", "替换为的新内容"),
        ],
    );
    assert(param_names(t.function.parameters.properties@) =~= seq![
        "path"@,
        "old_string"@,
        "new_string"@,
    ]);
    assert(param_descriptions(t.function.parameters.properties@) =~= seq![PATH_IN_FILE@, "要查找并替换的内容"@, "替换为的新内容"@]);
    tools.push(t);
    assert(describes(tools@[2], tool_names()[2]));
    let t = tool(
        "fs_list",
        "列出 workspace 内的目录内容",
        vec![param("path", "相对于 workspace 的目录路径")],
    );
    assert(param_names(t.function.parameters.properties@) =~= seq!["path"@]);
    assert(param_descriptions(t.function.parameters.properties@) =~= seq!["相对于 workspace 的目录路径"@]);
    tools.push(t);
    assert(describes(tools@[3], tool_names()[3]));
    let t = tool("web_search", "搜索网络信息", vec![param("query", "搜索关键词")]);
    assert(param_names(t.function.parameters.properties@) =~= seq!["query"@]);
    assert(param_descriptions(t.function.parameters.properties@) =~= seq!["搜索关键词"@]);
    tools.push(t);
    assert(describes(tools@[4], tool_names()[4]));
    let t = tool("web_fetch", "抓取网页内容", vec![param("url", "网页 URL")]);
    assert(param_names(t.function.parameters.properties@) =~= seq!["url"@]);
    assert(param_descriptions(t.function.parameters.properties@) =~= seq!["网页 URL"@]);
    tools.push(t);
    assert(describes(tools@[5], tool_names()[5]));
    let t = tool("get_time", "获取当前时间", Vec::new());
    assert(param_names(t.function.parameters.properties@) =~= Seq::<Seq<char>>::empty());
    assert(param_descriptions(t.function.parameters.properties@) =~= Seq::<Seq<char>>::empty());
    tools.push(t);
    assert(describes(tools@[6], tool_names()[6]));
    assert(forall|i: int| 0 <= i < tools@.len() ==> describes(#[trigger] tools@[i], tool_names()[i]));
    tools
}

} // verus!
