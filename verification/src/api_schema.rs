//! The tool list sent to the model: enabled tools, each schema with the two parameters that
//! ride with every call (`intent` and `verb`).
//!
//! A schema is held as the parts this logic reads: its `properties` object (each property
//! schema as JSON text) when it has one, and its `required` array (each item as JSON text)
//! when it has one; the rest of the schema is carried through by the caller.
use vstd::prelude::*;
use vstd::string::*;

verus! {

/// The parts of a tool's JSON schema that the global parameters go into.
pub struct ToolSchema {
    /// The `properties` object, when present: names and property schemas (JSON text).
    pub properties: Option<Vec<(String, String)>>,
    /// The `required` array, when present: items as JSON text.
    pub required: Option<Vec<String>>,
}

/// A tool definition as far as the API list needs it.
pub struct ApiToolDef {
    pub id: String,
    pub description: String,
    pub enabled: bool,
    pub schema: ToolSchema,
}

/// One entry of the API tool list.
pub struct ApiTool {
    pub name: String,
    pub description: String,
    pub input_schema: ToolSchema,
}

/// The schema of the `intent` parameter (JSON text).
pub open spec fn intent_schema() -> Seq<char> {
    "{\"description\":\"Why you're calling this tool (1-10 words)\",\"type\":\"string\"}"@
}

/// The schema of the `verb` parameter (JSON text).
pub open spec fn verb_schema() -> Seq<char> {
    "{\"description\":\"Single action word ending in -ING (e.g., Investigating, Building, Fixing)\",\"type\":\"string\"}"@
}

/// Properties as plain values.
pub open spec fn props_view(p: Seq<(String, String)>) -> Seq<(Seq<char>, Seq<char>)> {
    p.map_values(|e: (String, String)| (e.0@, e.1@))
}

/// Property `k` set to `v`: its value replaced where it is present, else appended.
pub open spec fn with_prop(p: Seq<(Seq<char>, Seq<char>)>, k: Seq<char>, v: Seq<char>) -> Seq<(Seq<char>, Seq<char>)> {
    if exists|i: int| 0 <= i < p.len() && (#[trigger] p[i]).0 == k {
        let i = choose|i: int| 0 <= i < p.len() && (#[trigger] p[i]).0 == k;
        p.update(i, (k, v))
    } else {
        p.push((k, v))
    }
}

/// The properties with `intent` and `verb` set.
pub open spec fn injected_props(p: Seq<(Seq<char>, Seq<char>)>) -> Seq<(Seq<char>, Seq<char>)> {
    with_prop(with_prop(p, "intent"@, intent_schema()), "verb"@, verb_schema())
}

/// The required items with `intent` and `verb` appended.
pub open spec fn injected_required(r: Seq<Seq<char>>) -> Seq<Seq<char>> {
    r.push("\"intent\""@).push("\"verb\""@)
}

/// Property names are unique.
pub open spec fn unique_names(p: Seq<(Seq<char>, Seq<char>)>) -> bool {
    forall|i: int, j: int| 0 <= i < j < p.len() ==> (#[trigger] p[i]).0 != (#[trigger] p[j]).0
}

/// The schema after injection, relative to the schema before.
pub open spec fn injected(before: ToolSchema, after: ToolSchema) -> bool {
    &&& match before.properties {
        Some(p) => after.properties matches Some(q) && props_view(q@) == injected_props(props_view(p@)),
        None => after.properties is None,
    }
    &&& match before.required {
        Some(r) => after.required matches Some(q) && crate::text::views(q@) == injected_required(
            crate::text::views(r@),
        ),
        None => after.required is None,
    }
}

fn set_prop(props: &mut Vec<(String, String)>, k: &str, v: &str)
    requires
        unique_names(props_view(old(props)@)),
    ensures
        props_view(final(props)@) == with_prop(props_view(old(props)@), k@, v@),
        unique_names(props_view(final(props)@)),
{
    let ghost pv = props_view(props@);
    let mut i: usize = 0;
    while i < props.len()
        invariant
            i <= props@.len(),
            pv == props_view(props@),
            pv == props_view(old(props)@),
            unique_names(pv),
            forall|j: int| 0 <= j < i ==> (#[trigger] pv[j]).0 != k@,
        decreases props@.len() - i,
    {
        if crate::library::str_eq(props[i].0.as_str(), k) {
            proof {
                assert(pv[i as int].0 == k@);
                let c = choose|c: int| 0 <= c < pv.len() && (#[trigger] pv[c]).0 == k@;
                if c > i {
                    assert(pv[i as int].0 != pv[c].0);
                }
                assert(c == i);
            }
            props.set(i, (String::from_str(k), String::from_str(v)));
            proof {
                assert(props_view(props@) =~= pv.update(i as int, (k@, v@)));
                assert(with_prop(pv, k@, v@) == pv.update(i as int, (k@, v@)));
            }
            return;
        }
        i = i + 1;
    }
    props.push((String::from_str(k), String::from_str(v)));
    assert(props_view(props@) =~= pv.push((k@, v@)));
}

/// Inject `intent` and `verb` as required parameters into a tool's schema: both are set in
/// its properties (when it has a properties object) and appended to its required list
/// (when it has one).
pub fn inject_global_params(schema: &mut ToolSchema)
    requires
        old(schema).properties matches Some(p) ==> unique_names(props_view(p@)),
    ensures
        injected(*old(schema), *final(schema)),
{
    match &mut schema.properties {
        Some(props) => {
            set_prop(
                props,
                "intent",
                "{\"description\":\"Why you're calling this tool (1-10 words)\",\"type\":\"string\"}",
            );
            set_prop(
                props,
                "verb",
                "{\"description\":\"Single action word ending in -ING (e.g., Investigating, Building, Fixing)\",\"type\":\"string\"}",
            );
        },
        None => {},
    }
    match &mut schema.required {
        Some(req) => {
            let ghost before = crate::text::views(req@);
            req.push(String::from_str("\"intent\""));
            req.push(String::from_str("\"verb\""));
            assert(crate::text::views(req@) =~= injected_required(before));
        },
        None => {},
    }
}

/// The enabled tools, in order.
pub open spec fn enabled_tools(ts: Seq<ApiToolDef>) -> Seq<ApiToolDef>
    decreases ts.len(),
{
    if ts.len() == 0 {
        Seq::empty()
    } else if ts.last().enabled {
        enabled_tools(ts.drop_last()).push(ts.last())
    } else {
        enabled_tools(ts.drop_last())
    }
}

/// Entry `a` of the API list stands for tool `t`.
pub open spec fn lists_tool(t: ApiToolDef, a: ApiTool) -> bool {
    &&& a.name@ == t.id@
    &&& a.description@ == t.description@
    &&& injected(t.schema, a.input_schema)
}

/// Every schema's properties have unique names.
pub open spec fn schemas_valid(ts: Seq<ApiToolDef>) -> bool {
    forall|i: int|
        0 <= i < ts.len() ==> ((#[trigger] ts[i]).schema.properties matches Some(p) ==> unique_names(props_view(p@)))
}

fn copy_schema(s: &ToolSchema) -> (r: ToolSchema)
    ensures
        match s.properties {
            Some(p) => r.properties matches Some(q) && props_view(q@) == props_view(p@),
            None => r.properties is None,
        },
        match s.required {
            Some(p) => r.required matches Some(q) && crate::text::views(q@) == crate::text::views(p@),
            None => r.required is None,
        },
{
    let properties = match &s.properties {
        Some(p) => {
            let mut q: Vec<(String, String)> = Vec::new();
            let mut i: usize = 0;
            while i < p.len()
                invariant
                    i <= p@.len(),
                    props_view(q@) == props_view(p@.take(i as int)),
                decreases p@.len() - i,
            {
                q.push((p[i].0.clone(), p[i].1.clone()));
                proof {
                    assert(props_view(p@.take(i + 1)) =~= props_view(p@.take(i as int)).push((p@[i as int].0@, p@[i as int].1@)));
                    assert(props_view(q@) =~= props_view(p@.take(i + 1)));
                }
                i = i + 1;
            }
            assert(p@.take(p@.len() as int) =~= p@);
            Some(q)
        },
        None => None,
    };
    let required = match &s.required {
        Some(p) => {
            let mut q: Vec<String> = Vec::new();
            let mut i: usize = 0;
            while i < p.len()
                invariant
                    i <= p@.len(),
                    crate::text::views(q@) == crate::text::views(p@.take(i as int)),
                decreases p@.len() - i,
            {
                q.push(p[i].clone());
                proof {
                    assert(crate::text::views(p@.take(i + 1)) =~= crate::text::views(p@.take(i as int)).push(p@[i as int]@));
                    assert(crate::text::views(q@) =~= crate::text::views(p@.take(i + 1)));
                }
                i = i + 1;
            }
            assert(p@.take(p@.len() as int) =~= p@);
            Some(q)
        },
        None => None,
    };
    ToolSchema { properties, required }
}

/// Build the list of enabled tool schemas for the model's API: each enabled tool, in order,
/// with its name, description and schema, `intent` and `verb` injected into the schema.
pub fn build_api(tools: &Vec<ApiToolDef>) -> (r: Vec<ApiTool>)
    requires
        schemas_valid(tools@),
    ensures
        r@.len() == enabled_tools(tools@).len(),
        forall|k: int| 0 <= k < r@.len() ==> lists_tool(enabled_tools(tools@)[k], #[trigger] r@[k]),
{
    let mut out: Vec<ApiTool> = Vec::new();
    let mut i: usize = 0;
    while i < tools.len()
        invariant
            i <= tools@.len(),
            schemas_valid(tools@),
            out@.len() == enabled_tools(tools@.take(i as int)).len(),
            forall|k: int| 0 <= k < out@.len() ==> lists_tool(enabled_tools(tools@.take(i as int))[k], #[trigger] out@[k]),
        decreases tools@.len() - i,
    {
        proof {
            assert(tools@.take(i + 1).drop_last() =~= tools@.take(i as int));
        }
        let t = &tools[i];
        if t.enabled {
            let mut schema = copy_schema(&t.schema);
            assert(tools@[i as int] == *t);
            inject_global_params(&mut schema);
            out.push(ApiTool { name: t.id.clone(), description: t.description.clone(), input_schema: schema });
        }
        i = i + 1;
    }
    assert(tools@.take(tools@.len() as int) =~= tools@);
    out
}

} // verus!
