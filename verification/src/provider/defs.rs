//! The definitions of the tools a model is offered, as JSON schemas.
use crate::json::{json_as_str, json_field, json_members_view, json_seq_view, Json, JsonNumber, JsonV};
use crate::text::str_eq;
use vstd::prelude::*;

verus! {

/// A JSON string.
pub open spec fn jstr(s: Seq<char>) -> JsonV {
    JsonV::Str(s)
}

/// The schema of a string: `{"type":"string"}`.
pub open spec fn string_schema() -> JsonV {
    JsonV::Object(seq![("type"@, jstr("string"@))])
}

/// A described schema of the given type.
pub open spec fn described(description: Seq<char>, kind: Seq<char>) -> JsonV {
    JsonV::Object(seq![("description"@, jstr(description)), ("type"@, jstr(kind))])
}

/// The parameters of `bash`: a command.
pub open spec fn bash_properties() -> JsonV {
    JsonV::Object(seq![("cmd"@, string_schema())])
}

/// The parameters of `fs_read`: a list of paths.
pub open spec fn fs_read_properties() -> JsonV {
    JsonV::Object(seq![("paths"@, JsonV::Object(seq![("items"@, string_schema()), ("type"@, jstr("array"@))]))])
}

/// The schema of one edit of `fs_edit`.
pub open spec fn edit_schema() -> JsonV {
    JsonV::Object(
        seq![
            ("additionalProperties"@, JsonV::Bool(false)),
            ("properties"@, JsonV::Object(seq![
                ("new_string"@, described("Replacement text."@, "string"@)),
                ("old_string"@, described("Exact text to replace; may be empty only to insert at the start."@, "string"@)),
                ("replace_all"@, JsonV::Object(seq![
                    ("default"@, JsonV::Bool(false)),
                    ("description"@, jstr("Replace every occurrence instead of requiring exactly one match."@)),
                    ("type"@, jstr("boolean"@)),
                ])),
            ])),
            ("required"@, JsonV::Array(seq![jstr("old_string"@), jstr("new_string"@)])),
            ("type"@, jstr("object"@)),
        ],
    )
}

/// The parameters of `fs_edit`: a path and a non-empty list of edits.
pub open spec fn fs_edit_properties() -> JsonV {
    JsonV::Object(
        seq![
            ("edits"@, JsonV::Object(seq![
                ("description"@, jstr("Edits are applied sequentially, so later old_string values see earlier changes."@)),
                ("items"@, edit_schema()),
                ("minItems"@, JsonV::Number(Some(1), "1"@)),
                ("type"@, jstr("array"@)),
            ])),
            ("path"@, described("File path relative to the session working directory."@, "string"@)),
        ],
    )
}

/// The definition of a function tool: its name, description and an object
/// schema of the given properties, all of them required.
pub open spec fn function_def(name: Seq<char>, description: Seq<char>, properties: JsonV, required: Seq<Seq<char>>) -> JsonV {
    JsonV::Object(
        seq![
            ("function"@, JsonV::Object(seq![
                ("description"@, jstr(description)),
                ("name"@, jstr(name)),
                ("parameters"@, JsonV::Object(seq![
                    ("properties"@, properties),
                    ("required"@, JsonV::Array(required.map_values(|r: Seq<char>| jstr(r)))),
                    ("type"@, jstr("object"@)),
                ])),
            ])),
            ("type"@, jstr("function"@)),
        ],
    )
}

/// The definition offered for a tool name, where the name is a tool's.
pub open spec fn tool_def(name: Seq<char>) -> Option<JsonV> {
    if name == "bash"@ {
        Some(function_def(name, "Run a shell command."@, bash_properties(), seq!["cmd"@]))
    } else if name == "fs_read"@ {
        Some(function_def(name, "Read one or more files."@, fs_read_properties(), seq!["paths"@]))
    } else if name == "fs_edit"@ {
        Some(
            function_def(
                name,
                "Apply edits to one file in order. Each old_string must match exactly once unless replace_all is true; use a distinctive surrounding snippet for reliable edits."@,
                fs_edit_properties(),
                seq!["edits"@, "path"@],
            ),
        )
    } else {
        None
    }
}

/// The definitions of the enabled tools that are known, in order.
pub open spec fn tool_defs(enabled: Seq<Seq<char>>) -> Seq<JsonV>
    decreases enabled.len(),
{
    if enabled.len() == 0 {
        Seq::empty()
    } else {
        match tool_def(enabled.last()) {
            Some(d) => tool_defs(enabled.drop_last()).push(d),
            None => tool_defs(enabled.drop_last()),
        }
    }
}

/// A JSON string of `t`.
pub(crate) fn text(t: &str) -> (r: Json)
    ensures
        r@ == jstr(t@),
{
    Json::Str(t.to_owned())
}

/// Appends a member to an object's members.
pub(crate) fn member(m: &mut Vec<(String, Json)>, key: &str, value: Json)
    ensures
        json_members_view(final(m)@) == json_members_view(old(m)@).push((key@, value@)),
{
    let ghost prev = m@;
    m.push((key.to_owned(), value));
    assert(final(m)@.drop_last() =~= prev);
}

/// Appends an item to an array's items.
pub(crate) fn item(v: &mut Vec<Json>, value: Json)
    ensures
        json_seq_view(final(v)@) == json_seq_view(old(v)@).push(value@),
{
    let ghost prev = v@;
    v.push(value);
    assert(final(v)@.drop_last() =~= prev);
}

fn string_schema_of() -> (r: Json)
    ensures
        r@ == string_schema(),
{
    let mut m: Vec<(String, Json)> = Vec::new();
    member(&mut m, "type", text("string"));
    assert(json_members_view(m@) =~= seq![("type"@, jstr("string"@))]);
    Json::Object(m)
}

fn described_of(description: &str, kind: &str) -> (r: Json)
    ensures
        r@ == described(description@, kind@),
{
    let mut m: Vec<(String, Json)> = Vec::new();
    member(&mut m, "description", text(description));
    member(&mut m, "type", text(kind));
    assert(json_members_view(m@) =~= seq![("description"@, jstr(description@)), ("type"@, jstr(kind@))]);
    Json::Object(m)
}

fn bash_properties_of() -> (r: Json)
    ensures
        r@ == bash_properties(),
{
    let mut m: Vec<(String, Json)> = Vec::new();
    member(&mut m, "cmd", string_schema_of());
    assert(json_members_view(m@) =~= seq![("cmd"@, string_schema())]);
    Json::Object(m)
}

fn fs_read_properties_of() -> (r: Json)
    ensures
        r@ == fs_read_properties(),
{
    let mut a: Vec<(String, Json)> = Vec::new();
    member(&mut a, "items", string_schema_of());
    member(&mut a, "type", text("array"));
    assert(json_members_view(a@) =~= seq![("items"@, string_schema()), ("type"@, jstr("array"@))]);
    let mut m: Vec<(String, Json)> = Vec::new();
    member(&mut m, "paths", Json::Object(a));
    assert(json_members_view(m@) =~= seq![
        ("paths"@, JsonV::Object(seq![("items"@, string_schema()), ("type"@, jstr("array"@))])),
    ]);
    Json::Object(m)
}

fn edit_schema_of() -> (r: Json)
    ensures
        r@ == edit_schema(),
{
    let mut flag: Vec<(String, Json)> = Vec::new();
    member(&mut flag, "default", Json::Bool(false));
    member(&mut flag, "description", text("Replace every occurrence instead of requiring exactly one match."));
    member(&mut flag, "type", text("boolean"));
    let ghost fv = seq![
        ("default"@, JsonV::Bool(false)),
        ("description"@, jstr("Replace every occurrence instead of requiring exactly one match."@)),
        ("type"@, jstr("boolean"@)),
    ];
    assert(json_members_view(flag@) =~= fv);
    let mut props: Vec<(String, Json)> = Vec::new();
    member(&mut props, "new_string", described_of("Replacement text.", "string"));
    member(
        &mut props,
        "old_string",
        described_of("Exact text to replace; may be empty only to insert at the start.", "string"),
    );
    member(&mut props, "replace_all", Json::Object(flag));
    let ghost pv = seq![
        ("new_string"@, described("Replacement text."@, "string"@)),
        ("old_string"@, described("Exact text to replace; may be empty only to insert at the start."@, "string"@)),
        ("replace_all"@, JsonV::Object(fv)),
    ];
    assert(json_members_view(props@) =~= pv);
    let mut required: Vec<Json> = Vec::new();
    item(&mut required, text("old_string"));
    item(&mut required, text("new_string"));
    assert(json_seq_view(required@) =~= seq![jstr("old_string"@), jstr("new_string"@)]);
    let mut m: Vec<(String, Json)> = Vec::new();
    member(&mut m, "additionalProperties", Json::Bool(false));
    member(&mut m, "properties", Json::Object(props));
    member(&mut m, "required", Json::Array(required));
    member(&mut m, "type", text("object"));
    assert(json_members_view(m@) =~= seq![
        ("additionalProperties"@, JsonV::Bool(false)),
        ("properties"@, JsonV::Object(pv)),
        ("required"@, JsonV::Array(seq![jstr("old_string"@), jstr("new_string"@)])),
        ("type"@, jstr("object"@)),
    ]);
    Json::Object(m)
}

fn fs_edit_properties_of() -> (r: Json)
    ensures
        r@ == fs_edit_properties(),
{
    let mut edits: Vec<(String, Json)> = Vec::new();
    member(
        &mut edits,
        "description",
        text("Edits are applied sequentially, so later old_string values see earlier changes."),
    );
    member(&mut edits, "items", edit_schema_of());
    member(&mut edits, "minItems", Json::Number(JsonNumber { unsigned: Some(1), text: "1".to_owned() }));
    member(&mut edits, "type", text("array"));
    let ghost ev = seq![
        ("description"@, jstr("Edits are applied sequentially, so later old_string values see earlier changes."@)),
        ("items"@, edit_schema()),
        ("minItems"@, JsonV::Number(Some(1), "1"@)),
        ("type"@, jstr("array"@)),
    ];
    assert(json_members_view(edits@) =~= ev);
    let mut m: Vec<(String, Json)> = Vec::new();
    member(&mut m, "edits", Json::Object(edits));
    member(&mut m, "path", described_of("File path relative to the session working directory.", "string"));
    assert(json_members_view(m@) =~= seq![
        ("edits"@, JsonV::Object(ev)),
        ("path"@, described("File path relative to the session working directory."@, "string"@)),
    ]);
    Json::Object(m)
}

fn function_def_of(name: &str, description: &str, properties: Json, required: &Vec<&str>) -> (r: Json)
    ensures
        r@ == function_def(name@, description@, properties@, required@.map_values(|s: &str| s@)),
{
    let mut req: Vec<Json> = Vec::new();
    let mut i: usize = 0;
    while i < required.len()
        invariant
            i <= required@.len(),
            json_seq_view(req@) == required@.take(i as int).map_values(|s: &str| s@).map_values(|r: Seq<char>| jstr(r)),
        decreases required@.len() - i,
    {
        item(&mut req, text(required[i]));
        assert(required@.take(i + 1).map_values(|s: &str| s@).map_values(|r: Seq<char>| jstr(r)) =~= required@.take(
            i as int,
        ).map_values(|s: &str| s@).map_values(|r: Seq<char>| jstr(r)).push(jstr(required@[i as int]@)));
        i = i + 1;
    }
    assert(required@.take(i as int) =~= required@);
    let ghost pv = properties@;
    let ghost rv = required@.map_values(|s: &str| s@).map_values(|r: Seq<char>| jstr(r));
    let mut params: Vec<(String, Json)> = Vec::new();
    member(&mut params, "properties", properties);
    member(&mut params, "required", Json::Array(req));
    member(&mut params, "type", text("object"));
    let ghost params_v = seq![("properties"@, pv), ("required"@, JsonV::Array(rv)), ("type"@, jstr("object"@))];
    assert(json_members_view(params@) =~= params_v);
    let mut f: Vec<(String, Json)> = Vec::new();
    member(&mut f, "description", text(description));
    member(&mut f, "name", text(name));
    member(&mut f, "parameters", Json::Object(params));
    let ghost f_v = seq![
        ("description"@, jstr(description@)),
        ("name"@, jstr(name@)),
        ("parameters"@, JsonV::Object(params_v)),
    ];
    assert(json_members_view(f@) =~= f_v);
    let mut m: Vec<(String, Json)> = Vec::new();
    member(&mut m, "function", Json::Object(f));
    member(&mut m, "type", text("function"));
    assert(json_members_view(m@) =~= seq![("function"@, JsonV::Object(f_v)), ("type"@, jstr("function"@))]);
    Json::Object(m)
}

/// The definition of one tool, where `name` is a tool's.
fn tool_def_of(name: &str) -> (r: Option<Json>)
    ensures
        match r {
            Some(d) => tool_def(name@) == Some(d@),
            None => tool_def(name@) is None,
        },
{
    if str_eq(name, "bash") {
        let mut req: Vec<&str> = Vec::new();
        req.push("cmd");
        assert(req@.map_values(|s: &str| s@) =~= seq!["cmd"@]);
        Some(function_def_of(name, "Run a shell command.", bash_properties_of(), &req))
    } else if str_eq(name, "fs_read") {
        let mut req: Vec<&str> = Vec::new();
        req.push("paths");
        assert(req@.map_values(|s: &str| s@) =~= seq!["paths"@]);
        Some(function_def_of(name, "Read one or more files.", fs_read_properties_of(), &req))
    } else if str_eq(name, "fs_edit") {
        let mut req: Vec<&str> = Vec::new();
        req.push("edits");
        req.push("path");
        assert(req@.map_values(|s: &str| s@) =~= seq!["edits"@, "path"@]);
        Some(
            function_def_of(
                name,
                "Apply edits to one file in order. Each old_string must match exactly once unless replace_all is true; use a distinctive surrounding snippet for reliable edits.",
                fs_edit_properties_of(),
                &req,
            ),
        )
    } else {
        None
    }
}

/// The definitions of the enabled tools, in order; names that are no
/// tool's are skipped.
pub fn tools(enabled: &[String]) -> (r: Vec<Json>)
    ensures
        json_seq_view(r@) == tool_defs(enabled@.map_values(|s: String| s@)),
{
    let ghost names = enabled@.map_values(|s: String| s@);
    let mut out: Vec<Json> = Vec::new();
    let mut i: usize = 0;
    assert(names.take(0) =~= Seq::<Seq<char>>::empty());
    while i < enabled.len()
        invariant
            i <= enabled@.len(),
            names == enabled@.map_values(|s: String| s@),
            json_seq_view(out@) == tool_defs(names.take(i as int)),
        decreases enabled@.len() - i,
    {
        assert(names.take(i + 1).drop_last() =~= names.take(i as int));
        assert(names.take(i + 1).last() == enabled@[i as int]@);
        if let Some(d) = tool_def_of(enabled[i].as_str()) {
            item(&mut out, d);
        }
        i = i + 1;
    }
    assert(names.take(i as int) =~= names);
    out
}

/// A tool as a model client is told of it: its name, description and
/// parameter schema.
#[derive(Debug, PartialEq)]
pub struct ToolDefinition {
    pub name: String,
    pub description: String,
    pub parameters: Json,
}

/// A tool told to a client, in mathematical form.
pub open spec fn tool_view(t: ToolDefinition) -> (Seq<char>, Seq<char>, JsonV) {
    (t.name@, t.description@, t.parameters@)
}

/// The tool a client is told of for a definition: the name and description
/// of its function, which must be strings, and its parameters (null where
/// absent).
pub open spec fn client_tool(d: JsonV) -> Option<(Seq<char>, Seq<char>, JsonV)> {
    let f = json_field(d, "function"@);
    match json_as_str(json_field(f, "name"@)) {
        Some(n) => match json_as_str(json_field(f, "description"@)) {
            Some(desc) => Some((n, desc, json_field(f, "parameters"@))),
            None => None,
        },
        None => None,
    }
}

/// The tools a client is told of for a list of definitions, in order.
pub open spec fn client_tools_of(defs: Seq<JsonV>) -> Seq<(Seq<char>, Seq<char>, JsonV)>
    decreases defs.len(),
{
    if defs.len() == 0 {
        Seq::empty()
    } else {
        match client_tool(defs.last()) {
            Some(t) => client_tools_of(defs.drop_last()).push(t),
            None => client_tools_of(defs.drop_last()),
        }
    }
}

/// `value[key]` as a document of its own.
fn field(v: &Json, key: &str) -> (r: Json)
    ensures
        r@ == json_field(v@, key@),
{
    match v.get_str(key) {
        Some(x) => x.copy(),
        None => Json::Null,
    }
}

/// The tools a client is told of for the enabled tools: each definition's
/// function name, description and parameters, in order.
pub fn client_tools(enabled: &[String]) -> (r: Vec<ToolDefinition>)
    ensures
        r@.map_values(|t: ToolDefinition| tool_view(t)) == client_tools_of(
            tool_defs(enabled@.map_values(|s: String| s@)),
        ),
{
    let defs = tools(enabled);
    let ghost dv = json_seq_view(defs@);
    proof {
        crate::json::lemma_seq_view(defs@);
    }
    let mut out: Vec<ToolDefinition> = Vec::new();
    let mut i: usize = 0;
    assert(dv.take(0) =~= Seq::<JsonV>::empty());
    assert(out@.map_values(|t: ToolDefinition| tool_view(t)) =~= Seq::<(Seq<char>, Seq<char>, JsonV)>::empty());
    while i < defs.len()
        invariant
            i <= defs@.len(),
            dv == json_seq_view(defs@),
            dv.len() == defs@.len(),
            forall|k: int| 0 <= k < defs@.len() ==> #[trigger] dv[k] == defs@[k]@,
            out@.map_values(|t: ToolDefinition| tool_view(t)) == client_tools_of(dv.take(i as int)),
        decreases defs@.len() - i,
    {
        assert(dv.take(i + 1).drop_last() =~= dv.take(i as int));
        assert(dv.take(i + 1).last() == defs@[i as int]@);
        let f = field(&defs[i], "function");
        let name = field(&f, "name");
        let description = field(&f, "description");
        if let (Some(n), Some(d)) = (name.as_str(), description.as_str()) {
            let t = ToolDefinition { name: n.clone(), description: d.clone(), parameters: field(&f, "parameters") };
            let ghost prev = out@;
            out.push(t);
            assert(out@.map_values(|t: ToolDefinition| tool_view(t)) =~= prev.map_values(
                |t: ToolDefinition| tool_view(t),
            ).push(tool_view(out@.last())));
        }
        i = i + 1;
    }
    assert(dv.take(i as int) =~= dv);
    out
}

/// A tool described by an input schema: its description, the object schema
/// of its properties with the required ones, and its name.
pub open spec fn input_def(name: Seq<char>, description: Seq<char>, properties: JsonV, required: Seq<JsonV>) -> JsonV {
    JsonV::Object(
        seq![
            ("description"@, jstr(description)),
            ("input_schema"@, JsonV::Object(seq![
                ("properties"@, properties),
                ("required"@, JsonV::Array(required)),
                ("type"@, jstr("object"@)),
            ])),
            ("name"@, jstr(name)),
        ],
    )
}

/// The tools described by input schemas: `bash`, `fs_read` and `fs_edit`.
pub open spec fn input_defs() -> Seq<JsonV> {
    seq![
        input_def("bash"@, "Run a shell command."@, bash_properties(), seq![jstr("cmd"@)]),
        input_def("fs_read"@, "Read files."@, fs_read_properties(), seq![jstr("paths"@)]),
        input_def(
            "fs_edit"@,
            "Edit a file."@,
            JsonV::Object(seq![
                ("edits"@, JsonV::Object(seq![("type"@, jstr("array"@))])),
                ("path"@, string_schema()),
            ]),
            seq![jstr("path"@), jstr("edits"@)],
        ),
    ]
}

fn input_def_of(name: &str, description: &str, properties: Json, required: Json) -> (r: Json)
    requires
        required@ is Array,
    ensures
        r@ == input_def(name@, description@, properties@, required@->Array_0),
{
    let ghost pv = properties@;
    let ghost rv = required@;
    let mut schema: Vec<(String, Json)> = Vec::new();
    member(&mut schema, "properties", properties);
    member(&mut schema, "required", required);
    member(&mut schema, "type", text("object"));
    let ghost sv = seq![("properties"@, pv), ("required"@, rv), ("type"@, jstr("object"@))];
    assert(json_members_view(schema@) =~= sv);
    let mut m: Vec<(String, Json)> = Vec::new();
    member(&mut m, "description", text(description));
    member(&mut m, "input_schema", Json::Object(schema));
    member(&mut m, "name", text(name));
    assert(json_members_view(m@) =~= seq![
        ("description"@, jstr(description@)),
        ("input_schema"@, JsonV::Object(sv)),
        ("name"@, jstr(name@)),
    ]);
    Json::Object(m)
}

/// The definitions of the tools, described by input schemas.
pub fn tool_definitions() -> (r: Vec<Json>)
    ensures
        json_seq_view(r@) == input_defs(),
{
    let mut cmd: Vec<Json> = Vec::new();
    item(&mut cmd, text("cmd"));
    assert(json_seq_view(cmd@) =~= seq![jstr("cmd"@)]);
    let mut paths: Vec<Json> = Vec::new();
    item(&mut paths, text("paths"));
    assert(json_seq_view(paths@) =~= seq![jstr("paths"@)]);
    let mut edit_required: Vec<Json> = Vec::new();
    item(&mut edit_required, text("path"));
    item(&mut edit_required, text("edits"));
    assert(json_seq_view(edit_required@) =~= seq![jstr("path"@), jstr("edits"@)]);
    let mut array: Vec<(String, Json)> = Vec::new();
    member(&mut array, "type", text("array"));
    assert(json_members_view(array@) =~= seq![("type"@, jstr("array"@))]);
    let mut edit_props: Vec<(String, Json)> = Vec::new();
    member(&mut edit_props, "edits", Json::Object(array));
    member(&mut edit_props, "path", string_schema_of());
    assert(json_members_view(edit_props@) =~= seq![
        ("edits"@, JsonV::Object(seq![("type"@, jstr("array"@))])),
        ("path"@, string_schema()),
    ]);
    let mut out: Vec<Json> = Vec::new();
    item(&mut out, input_def_of("bash", "Run a shell command.", bash_properties_of(), Json::Array(cmd)));
    item(&mut out, input_def_of("fs_read", "Read files.", fs_read_properties_of(), Json::Array(paths)));
    item(&mut out, input_def_of("fs_edit", "Edit a file.", Json::Object(edit_props), Json::Array(edit_required)));
    assert(json_seq_view(out@) =~= input_defs());
    out
}

} // verus!
