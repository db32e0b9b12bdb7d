//! The tool catalog: the built-in tools by name with their declared
//! JSON-Schema parameters, user-defined tools built from templates, and the
//! resolution of a workflow's tool list. Resolution is a pure function of
//! the requested names, the templates, and the one environment bit that
//! matters: whether a serper key is set.

use vstd::prelude::*;
use vstd::string::StringExecFns;
use crate::atomics::{CustomToolModeTemplate, CustomToolTemplate, known_tool, is_known_tool};
use crate::errors::ToolError;
use crate::jsontext::{json_quote, json_quote_str};
use crate::outside::{lower_of, to_lower};
use crate::strings::{replace_all, replace_all_spec, str_eq};

verus! {

/// The URL fetcher backed by the Jina reader API.
pub struct Jina {}

impl Jina {
    /// The tool's name as providers see it.
    pub fn name(&self) -> (r: String)
        ensures
            r@ == "jina_web_scraper"@,
    {
        "jina_web_scraper".to_owned()
    }

    pub fn description(&self) -> (r: String)
        ensures
            r@
                == "Scrapes text content from websites using Jina API and returns in readable format."@,
    {
        "Scrapes text content from websites using Jina API and returns in readable format."
            .to_owned()
    }

    /// The declared parameter schema, as compact JSON text.
    pub fn parameters(&self) -> (r: String)
        ensures
            r@
                == "{\"properties\":{\"website\":{\"description\":\"The URL of the website to scrape\",\"type\":\"string\"}},\"required\":[\"website\"],\"type\":\"object\"}"@,
    {
        "{\"properties\":{\"website\":{\"description\":\"The URL of the website to scrape\",\"type\":\"string\"}},\"required\":[\"website\"],\"type\":\"object\"}".to_owned()
    }
}

/// One hit of a raw web search.
#[derive(Debug)]
pub struct SearchResult {
    pub title: String,
    pub link: String,
    pub snippet: String,
}

/// The JSON rendering of one search hit, fields in declaration order.
pub open spec fn search_result_json(r: SearchResult) -> Seq<char> {
    "{\"title\":"@ + json_quote(r.title@) + ",\"link\":"@ + json_quote(r.link@) + ",\"snippet\":"@
        + json_quote(r.snippet@) + "}"@
}

/// The JSON array items of search hits from index `i` on.
pub open spec fn search_results_items(rs: Seq<SearchResult>, i: int) -> Seq<char>
    decreases rs.len() - i,
{
    if i < 0 || i >= rs.len() {
        Seq::empty()
    } else if i == rs.len() - 1 {
        search_result_json(rs[i])
    } else {
        search_result_json(rs[i]) + seq![','] + search_results_items(rs, i + 1)
    }
}

/// The JSON array rendering of a list of search hits.
pub open spec fn search_results_json(rs: Seq<SearchResult>) -> Seq<char> {
    seq!['['] + search_results_items(rs, 0) + seq![']']
}

/// Render a list of search hits as a compact JSON array.
pub fn render_search_results(results: &Vec<SearchResult>) -> (r: String)
    ensures
        r@ == search_results_json(results@),
{
    proof {
        reveal_strlit("[");
        reveal_strlit("]");
        reveal_strlit(",");
        assert("["@ =~= seq!['[']);
        assert("]"@ =~= seq![']']);
        assert(","@ =~= seq![',']);
    }
    let n = results.len();
    let mut res = "[".to_owned();
    let mut i: usize = 0;
    proof {
        assert(res@ + search_results_items(results@, 0) =~= seq!['['] + search_results_items(
            results@,
            0,
        ));
    }
    while i < n
        invariant
            n == results@.len(),
            i <= n,
            seq!['['] + search_results_items(results@, 0) == res@ + search_results_items(
                results@,
                i as int,
            ),
        decreases n - i,
    {
        proof {
            reveal_strlit(",");
            assert(","@ =~= seq![',']);
        }
        let item = &results[i];
        let mut piece = "{\"title\":".to_owned();
        let tq = json_quote_str(item.title.as_str());
        piece.append(tq.as_str());
        piece.append(",\"link\":");
        let lq = json_quote_str(item.link.as_str());
        piece.append(lq.as_str());
        piece.append(",\"snippet\":");
        let sq = json_quote_str(item.snippet.as_str());
        piece.append(sq.as_str());
        piece.append("}");
        proof {
            assert(piece@ =~= search_result_json(results@[i as int]));
        }
        res.append(piece.as_str());
        if i + 1 < n {
            res.append(",");
            proof {
                assert(search_results_items(results@, i as int) == search_result_json(
                    results@[i as int],
                ) + seq![','] + search_results_items(results@, i + 1));
                assert(res@ + search_results_items(results@, i + 1) =~= seq!['[']
                    + search_results_items(results@, 0));
            }
        } else {
            proof {
                assert(search_results_items(results@, i as int) == search_result_json(
                    results@[i as int],
                ));
                assert(search_results_items(results@, i + 1) =~= Seq::<char>::empty());
                assert(res@ =~= seq!['['] + search_results_items(results@, 0));
                assert(res@ + search_results_items(results@, i + 1) =~= res@);
            }
        }
        i += 1;
    }
    res.append("]");
    proof {
        assert(res@ =~= search_results_json(results@));
    }
    res
}

/// A user-defined tool's mode: an opaque parameter schema (only usable in
/// raw mode), or a declared HTTP request.
#[derive(Debug)]
#[verifier::ext_equal]
pub enum CustomToolMode {
    Custom { parameters: String },
    HttpRequest {
        url: String,
        method: String,
        headers: Vec<(String, String)>,
        body: Vec<(String, String)>,
    },
}

/// A user-defined tool.
#[derive(Debug)]
#[verifier::ext_equal]
pub struct CustomTool {
    pub name: String,
    pub description: String,
    pub mode: CustomToolMode,
}

/// The tool a template declares.
pub open spec fn custom_of(t: CustomToolTemplate) -> CustomTool {
    CustomTool {
        name: t.name,
        description: t.description,
        mode: match t.mode {
            CustomToolModeTemplate::Custom { parameters } => CustomToolMode::Custom { parameters },
            CustomToolModeTemplate::HttpRequest { url, method, headers, body } => (
            CustomToolMode::HttpRequest { url, method, headers, body }),
        },
    }
}

/// The views of a list of string pairs.
pub open spec fn pairs_views(v: Seq<(String, String)>) -> Seq<(Seq<char>, Seq<char>)> {
    Seq::new(v.len(), |i: int| (v[i].0@, v[i].1@))
}

/// Whether a built tool carries exactly what a template declares, compared
/// by text.
pub open spec fn template_matches(c: CustomTool, t: CustomToolTemplate) -> bool {
    c.name@ == t.name@ && c.description@ == t.description@ && match (c.mode, t.mode) {
        (
            CustomToolMode::Custom { parameters: p },
            CustomToolModeTemplate::Custom { parameters: q },
        ) => p@ == q@,
        (
            CustomToolMode::HttpRequest { url, method, headers, body },
            CustomToolModeTemplate::HttpRequest { url: u2, method: m2, headers: h2, body: b2 },
        ) => url@ == u2@ && method@ == m2@ && pairs_views(headers@) == pairs_views(h2@)
            && pairs_views(body@) == pairs_views(b2@),
        _ => false,
    }
}

/// The schema members built from declared body keys, from index `i` on.
pub open spec fn body_schema_items(body: Seq<(String, String)>, i: int) -> Seq<char>
    decreases body.len() - i,
{
    if i < 0 || i >= body.len() {
        Seq::empty()
    } else {
        let member = json_quote(body[i].0@) + ":{\"description\":"@ + json_quote(
            "The value for "@ + body[i].0@,
        ) + ",\"type\":\"string\"}"@;
        if i == body.len() - 1 {
            member
        } else {
            member + seq![','] + body_schema_items(body, i + 1)
        }
    }
}

/// The required-key list built from declared body keys, from index `i` on.
pub open spec fn body_required_items(body: Seq<(String, String)>, i: int) -> Seq<char>
    decreases body.len() - i,
{
    if i < 0 || i >= body.len() {
        Seq::empty()
    } else if i == body.len() - 1 {
        json_quote(body[i].0@)
    } else {
        json_quote(body[i].0@) + seq![','] + body_required_items(body, i + 1)
    }
}

/// The parameter schema of a declared HTTP tool: one string property per
/// body key, all required, in declaration order.
pub open spec fn http_schema_json(body: Seq<(String, String)>) -> Seq<char> {
    "{\"type\":\"object\",\"properties\":{"@ + body_schema_items(body, 0)
        + "},\"required\":["@ + body_required_items(body, 0) + "]}"@
}

impl CustomTool {
    /// Build the tool a template declares.
    pub fn new_from_template(template: CustomToolTemplate) -> (r: CustomTool)
        ensures
            r == custom_of(template),
    {
        CustomTool {
            name: template.name,
            description: template.description,
            mode: match template.mode {
                CustomToolModeTemplate::Custom { parameters } => CustomToolMode::Custom {
                    parameters,
                },
                CustomToolModeTemplate::HttpRequest { url, method, headers, body } => (
                CustomToolMode::HttpRequest { url, method, headers, body }),
            },
        }
    }

    /// The tool's parameter schema as JSON text: the declared schema in
    /// custom mode, or one built from the body keys for an HTTP tool.
    pub fn parameters(&self) -> (r: String)
        ensures
            match self.mode {
                CustomToolMode::Custom { parameters } => r@ == parameters@,
                CustomToolMode::HttpRequest { url, method, headers, body } => r@
                    == http_schema_json(body@),
            },
    {
        match &self.mode {
            CustomToolMode::Custom { parameters } => parameters.clone(),
            CustomToolMode::HttpRequest { body, .. } => {
                proof {
                    reveal_strlit(",");
                    assert(","@ =~= seq![',']);
                }
                let mut props = String::new();
                let mut reqd = String::new();
                let n = body.len();
                let mut i: usize = 0;
                proof {
                    assert(props@ + body_schema_items(body@, 0) =~= body_schema_items(body@, 0));
                    assert(reqd@ + body_required_items(body@, 0) =~= body_required_items(
                        body@,
                        0,
                    ));
                }
                while i < n
                    invariant
                        n == body@.len(),
                        i <= n,
                        body_schema_items(body@, 0) == props@ + body_schema_items(
                            body@,
                            i as int,
                        ),
                        body_required_items(body@, 0) == reqd@ + body_required_items(
                            body@,
                            i as int,
                        ),
                    decreases n - i,
                {
                    proof {
                        reveal_strlit(",");
                        assert(","@ =~= seq![',']);
                    }
                    let key = &body[i].0;
                    let kq = json_quote_str(key.as_str());
                    let mut desc = "The value for ".to_owned();
                    desc.append(key.as_str());
                    let dq = json_quote_str(desc.as_str());
                    props.append(kq.as_str());
                    props.append(":{\"description\":");
                    props.append(dq.as_str());
                    props.append(",\"type\":\"string\"}");
                    reqd.append(kq.as_str());
                    if i + 1 < n {
                        props.append(",");
                        reqd.append(",");
                    }
                    proof {
                        let member = json_quote(body@[i as int].0@) + ":{\"description\":"@
                            + json_quote("The value for "@ + body@[i as int].0@)
                            + ",\"type\":\"string\"}"@;
                        if i + 1 < n {
                            assert(body_schema_items(body@, i as int) == member + seq![',']
                                + body_schema_items(body@, i + 1));
                            assert(body_required_items(body@, i as int) == json_quote(
                                body@[i as int].0@,
                            ) + seq![','] + body_required_items(body@, i + 1));
                        } else {
                            assert(body_schema_items(body@, i as int) == member);
                            assert(body_required_items(body@, i as int) == json_quote(
                                body@[i as int].0@,
                            ));
                            assert(body_schema_items(body@, i + 1) =~= Seq::<char>::empty());
                            assert(body_required_items(body@, i + 1) =~= Seq::<char>::empty());
                        }
                        assert(body_schema_items(body@, 0) =~= props@ + body_schema_items(
                            body@,
                            i + 1,
                        ));
                        assert(body_required_items(body@, 0) =~= reqd@ + body_required_items(
                            body@,
                            i + 1,
                        ));
                    }
                    i += 1;
                }
                let mut res = "{\"type\":\"object\",\"properties\":{".to_owned();
                res.append(props.as_str());
                res.append("},\"required\":[");
                res.append(reqd.as_str());
                res.append("]}");
                proof {
                    assert(res@ =~= http_schema_json(body@));
                }
                res
            },
        }
    }
}

/// One resolved tool: a built-in, or a user-defined one.
#[verifier::ext_equal]
pub enum ToolSelection {
    Jina,
    Serper,
    DuckDuckGo,
    Browserless,
    Stock,
    Scraper,
    Custom(CustomTool),
}

/// The built-in tool a name selects; unknown names fall back to the generic
/// scraper.
pub open spec fn tool_by_name_spec(name: Seq<char>) -> ToolSelection {
    if name == "jina"@ {
        ToolSelection::Jina
    } else if name == "serper"@ {
        ToolSelection::Serper
    } else if name == "browserless"@ {
        ToolSelection::Browserless
    } else if name == "duckduckgo"@ {
        ToolSelection::DuckDuckGo
    } else if name == "stock"@ {
        ToolSelection::Stock
    } else {
        ToolSelection::Scraper
    }
}

/// Select a built-in tool by name.
pub fn get_tool_by_name(name: &str) -> (r: ToolSelection)
    ensures
        r == tool_by_name_spec(name@),
{
    if str_eq(name, "jina") {
        ToolSelection::Jina
    } else if str_eq(name, "serper") {
        ToolSelection::Serper
    } else if str_eq(name, "browserless") {
        ToolSelection::Browserless
    } else if str_eq(name, "duckduckgo") {
        ToolSelection::DuckDuckGo
    } else if str_eq(name, "stock") {
        ToolSelection::Stock
    } else {
        ToolSelection::Scraper
    }
}

/// The built-in tools a tool list resolves to, before user-defined tools are
/// appended: the single literal `ALL` expands to the conventional default
/// set, choosing serper exactly when its key is set; any other list must
/// name known tools and resolves name by name; nothing otherwise.
pub open spec fn base_tools_spec(names: Seq<Seq<char>>, serper_key_set: bool) -> Option<
    Seq<ToolSelection>,
> {
    if names.len() == 1 && names[0] == "ALL"@ {
        Option::Some(
            seq![
                if serper_key_set {
                    ToolSelection::Serper
                } else {
                    ToolSelection::DuckDuckGo
                },
                ToolSelection::Stock,
                ToolSelection::Jina,
            ],
        )
    } else if forall|i: int| 0 <= i < names.len() ==> known_tool(names[i]) {
        Option::Some(Seq::new(names.len(), |i: int| tool_by_name_spec(names[i])))
    } else {
        Option::None
    }
}

/// The name views of a tool list.
pub open spec fn name_views(names: Seq<String>) -> Seq<Seq<char>> {
    Seq::new(names.len(), |i: int| names[i]@)
}

/// Whether a resolved tool list is exactly what the names, templates and
/// serper bit call for: the base tools first, then one user-defined tool per
/// template, in order.
pub open spec fn tools_resolution(
    v: Seq<ToolSelection>,
    names: Seq<Seq<char>>,
    custom: Option<Vec<CustomToolTemplate>>,
    serper_key_set: bool,
) -> bool {
    match base_tools_spec(names, serper_key_set) {
        Option::Some(base) => match custom {
            Option::Some(templates) => v.len() == base.len() + templates@.len() && (forall|
                i: int,
            | 0 <= i < base.len() ==> v[i] == base[i]) && (forall|i: int|
                0 <= i < templates@.len() ==> (#[trigger] v[base.len() + i] matches
                    ToolSelection::Custom(ct) && template_matches(ct, templates@[i]))),
            Option::None => v == base,
        },
        Option::None => false,
    }
}

/// Resolve a workflow's tool list. The result is a function of the names,
/// the templates, and the serper-key presence bit alone: the `ALL` expansion
/// in particular is deterministic given that bit. A name outside the
/// built-in set fails resolution.
pub fn resolve_tools(
    tool_names: &Vec<String>,
    custom: &Option<Vec<CustomToolTemplate>>,
    serper_key_set: bool,
) -> (r: Result<Vec<ToolSelection>, ToolError>)
    ensures
        ({
            match base_tools_spec(name_views(tool_names@), serper_key_set) {
                Option::Some(base) => r matches Ok(v) && tools_resolution(
                    v@,
                    name_views(tool_names@),
                    *custom,
                    serper_key_set,
                ),
                Option::None => r matches Err(e) && e is ToolDoesNotExist,
            }
        }),
{
    let ghost nv = name_views(tool_names@);
    let mut tools: Vec<ToolSelection> = Vec::new();
    let single_all = tool_names.len() == 1 && str_eq(tool_names[0].as_str(), "ALL");
    if single_all {
        if serper_key_set {
            tools.push(ToolSelection::Serper);
        } else {
            tools.push(ToolSelection::DuckDuckGo);
        }
        tools.push(ToolSelection::Stock);
        tools.push(ToolSelection::Jina);
        proof {
            assert(nv[0] == tool_names@[0]@);
            assert(tools@ =~= base_tools_spec(nv, serper_key_set)->0);
        }
    } else {
        if !crate::atomics::in_tools(tool_names) {
            proof {
                let w = choose|x: int|
                    0 <= x < tool_names@.len() && !known_tool(tool_names@[x]@);
                assert(nv[w] == tool_names@[w]@);
                if tool_names@.len() == 1 {
                    assert(nv[0] == tool_names@[0]@);
                }
                assert(base_tools_spec(nv, serper_key_set) is None);
            }
            return Err(ToolError::ToolDoesNotExist);
        }
        let n = tool_names.len();
        let mut i: usize = 0;
        while i < n
            invariant
                nv == name_views(tool_names@),
                n == tool_names@.len(),
                i <= n,
                tools@.len() == i,
                forall|j: int| 0 <= j < i ==> tools@[j] == tool_by_name_spec(nv[j]),
            decreases n - i,
        {
            tools.push(get_tool_by_name(tool_names[i].as_str()));
            i += 1;
        }
        proof {
            if tool_names@.len() == 1 {
                assert(nv[0] == tool_names@[0]@);
            }
            assert(tools@ =~= base_tools_spec(nv, serper_key_set)->0);
        }
    }
    let ghost base = tools@;
    match custom {
        Some(templates) => {
            let tn = templates.len();
            let mut i: usize = 0;
            while i < tn
                invariant
                    tn == templates@.len(),
                    i <= tn,
                    tools@.len() == base.len() + i,
                    forall|j: int| 0 <= j < base.len() ==> tools@[j] == base[j],
                    forall|j: int|
                        0 <= j < i ==> (#[trigger] tools@[base.len() + j] matches
                            ToolSelection::Custom(ct) && template_matches(ct, templates@[j])),
                decreases tn - i,
            {
                let t = &templates[i];
                let copy = CustomToolTemplate {
                    name: t.name.clone(),
                    description: t.description.clone(),
                    mode: match &t.mode {
                        CustomToolModeTemplate::Custom { parameters } => (
                        CustomToolModeTemplate::Custom { parameters: parameters.clone() }),
                        CustomToolModeTemplate::HttpRequest { url, method, headers, body } => {
                            let mut hs: Vec<(String, String)> = Vec::new();
                            let hn = headers.len();
                            let mut h: usize = 0;
                            while h < hn
                                invariant
                                    hn == headers@.len(),
                                    h <= hn,
                                    hs@.len() == h,
                                    forall|x: int| 0 <= x < h ==> hs@[x] == headers@[x],
                                decreases hn - h,
                            {
                                hs.push((headers[h].0.clone(), headers[h].1.clone()));
                                h += 1;
                            }
                            let mut bs: Vec<(String, String)> = Vec::new();
                            let bn = body.len();
                            let mut bj: usize = 0;
                            while bj < bn
                                invariant
                                    bn == body@.len(),
                                    bj <= bn,
                                    bs@.len() == bj,
                                    forall|x: int| 0 <= x < bj ==> bs@[x] == body@[x],
                                decreases bn - bj,
                            {
                                bs.push((body[bj].0.clone(), body[bj].1.clone()));
                                bj += 1;
                            }
                            proof {
                                assert(pairs_views(hs@) =~= pairs_views(headers@));
                                assert(pairs_views(bs@) =~= pairs_views(body@));
                            }
                            CustomToolModeTemplate::HttpRequest {
                                url: url.clone(),
                                method: method.clone(),
                                headers: hs,
                                body: bs,
                            }
                        },
                    },
                };
                let built = CustomTool::new_from_template(copy);
                proof {
                    assert(template_matches(built, templates@[i as int]));
                }
                tools.push(ToolSelection::Custom(built));
                i += 1;
            }
            Ok(tools)
        },
        None => Ok(tools),
    }
}

/// Tool-name normalization for matching provider-returned names to local
/// tools: lowercase, spaces replaced by underscores.
pub fn normalize_tool_name(name: &str) -> (r: String)
    ensures
        r@ == replace_all_spec(lower_of(name@), " "@, "_"@),
{
    let lowered = to_lower(name);
    replace_all(lowered.as_str(), " ", "_")
}

} // verus!
