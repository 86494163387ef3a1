//! The MCP tool catalogue: every tool's name, description and input schema,
//! as `tools/list` answers it.

use vstd::prelude::*;
use crate::json::{Json, JsonV, jv, jv_seq, jv_members};
use crate::text::{chars_of, string_of};

verus! {

/// A property with only a type.
pub open spec fn typed_prop(t: Seq<char>) -> JsonV {
    JsonV::Object(seq![("type"@, JsonV::Str(t))])
}

/// A text property with a description.
pub open spec fn text_prop(d: Seq<char>) -> JsonV {
    JsonV::Object(seq![("type"@, JsonV::Str("string"@)), ("description"@, JsonV::Str(d))])
}

/// A property of any type, with a description.
pub open spec fn loose_prop(d: Seq<char>) -> JsonV {
    JsonV::Object(seq![("description"@, JsonV::Str(d))])
}

proof fn lemma_no_members(ms: Seq<(String, Json)>)
    requires
        ms.len() == 0,
    ensures
        jv_members(ms) == Seq::<(Seq<char>, JsonV)>::empty(),
{
}

proof fn lemma_no_items(xs: Seq<Json>)
    requires
        xs.len() == 0,
    ensures
        jv_seq(xs) == Seq::<JsonV>::empty(),
{
}

fn text(s: &str) -> (r: Json)
    ensures
        jv(r) == JsonV::Str(s@),
{
    Json::Str(string_of(chars_of(s).as_slice()))
}

fn put(ms: &mut Vec<(String, Json)>, k: &str, v: Json)
    ensures
        jv_members(final(ms)@) == jv_members(old(ms)@).push((k@, jv(v))),
{
    let ghost pre = ms@;
    ms.push((string_of(chars_of(k).as_slice()), v));
    assert(ms@.drop_last() =~= pre);
}

fn push_item(xs: &mut Vec<Json>, v: Json)
    ensures
        jv_seq(final(xs)@) == jv_seq(old(xs)@).push(jv(v)),
{
    let ghost pre = xs@;
    xs.push(v);
    assert(xs@.drop_last() =~= pre);
}

fn typed_prop_json(t: &str) -> (r: Json)
    ensures
        jv(r) == typed_prop(t@),
{
    let mut ms: Vec<(String, Json)> = Vec::new();
    proof {
        lemma_no_members(ms@);
    }
    put(&mut ms, "type", text(t));
    assert(jv_members(ms@) =~= typed_prop(t@)->Object_0);
    Json::Object(ms)
}

fn text_prop_json(d: &str) -> (r: Json)
    ensures
        jv(r) == text_prop(d@),
{
    let mut ms: Vec<(String, Json)> = Vec::new();
    proof {
        lemma_no_members(ms@);
    }
    put(&mut ms, "type", text("string"));
    put(&mut ms, "description", text(d));
    assert(jv_members(ms@) =~= text_prop(d@)->Object_0);
    Json::Object(ms)
}

fn loose_prop_json(d: &str) -> (r: Json)
    ensures
        jv(r) == loose_prop(d@),
{
    let mut ms: Vec<(String, Json)> = Vec::new();
    proof {
        lemma_no_members(ms@);
    }
    put(&mut ms, "description", text(d));
    assert(jv_members(ms@) =~= loose_prop(d@)->Object_0);
    Json::Object(ms)
}

pub open spec fn status_props() -> Seq<(Seq<char>, JsonV)> {
    seq![
        ("path"@, text_prop("Optional show.lot directory. Opens it, then runs. Omit to keep current."@)),
        ("cap"@, text_prop("Agent caps: read | write | render | export | spend | all. Unset = all. AC-012."@)),
    ]
}

pub open spec fn status_schema() -> Seq<(Seq<char>, JsonV)> {
    seq![
        ("type"@, JsonV::Str("object"@)),
        ("properties"@, JsonV::Object(status_props())),
    ]
}

/// The `lot_status` tool.
pub open spec fn status_tool() -> JsonV {
    JsonV::Object(
        seq![
            ("name"@, JsonV::Str("lot_status"@)),
            ("description"@, JsonV::Str("First call. Kernel + current show. No GUI."@)),
            ("inputSchema"@, JsonV::Object(status_schema())),
        ],
    )
}

fn status_tool_json() -> (r: Json)
    ensures
        jv(r) == status_tool(),
{
    let mut props: Vec<(String, Json)> = Vec::new();
    proof {
        lemma_no_members(props@);
    }
    put(&mut props, "path", text_prop_json("Optional show.lot directory. Opens it, then runs. Omit to keep current."));
    put(&mut props, "cap", text_prop_json("Agent caps: read | write | render | export | spend | all. Unset = all. AC-012."));
    assert(jv_members(props@) =~= status_props());
    let mut schema: Vec<(String, Json)> = Vec::new();
    proof {
        lemma_no_members(schema@);
    }
    put(&mut schema, "type", text("object"));
    put(&mut schema, "properties", Json::Object(props));
    assert(jv_members(schema@) =~= status_schema());
    let mut tool: Vec<(String, Json)> = Vec::new();
    proof {
        lemma_no_members(tool@);
    }
    put(&mut tool, "name", text("lot_status"));
    put(&mut tool, "description", text("First call. Kernel + current show. No GUI."));
    put(&mut tool, "inputSchema", Json::Object(schema));
    assert(jv_members(tool@) =~= status_tool()->Object_0);
    Json::Object(tool)
}

pub open spec fn create_props() -> Seq<(Seq<char>, JsonV)> {
    seq![
        ("path"@, text_prop("Directory to create."@)),
        ("name"@, text_prop("Show title."@)),
    ]
}

pub open spec fn create_schema() -> Seq<(Seq<char>, JsonV)> {
    seq![
        ("type"@, JsonV::Str("object"@)),
        ("properties"@, JsonV::Object(create_props())),
        ("required"@, JsonV::Array(seq![JsonV::Str("path"@)])),
    ]
}

/// The `lot_create` tool.
pub open spec fn create_tool() -> JsonV {
    JsonV::Object(
        seq![
            ("name"@, JsonV::Str("lot_create"@)),
            ("description"@, JsonV::Str("Create a show.lot directory and make it current."@)),
            ("inputSchema"@, JsonV::Object(create_schema())),
        ],
    )
}

fn create_tool_json() -> (r: Json)
    ensures
        jv(r) == create_tool(),
{
    let mut props: Vec<(String, Json)> = Vec::new();
    proof {
        lemma_no_members(props@);
    }
    put(&mut props, "path", text_prop_json("Directory to create."));
    put(&mut props, "name", text_prop_json("Show title."));
    assert(jv_members(props@) =~= create_props());
    let mut schema: Vec<(String, Json)> = Vec::new();
    proof {
        lemma_no_members(schema@);
    }
    put(&mut schema, "type", text("object"));
    put(&mut schema, "properties", Json::Object(props));
    let mut req: Vec<Json> = Vec::new();
    proof {
        lemma_no_items(req@);
    }
    push_item(&mut req, text("path"));
    assert(jv_seq(req@) =~= seq![JsonV::Str("path"@)]);
    put(&mut schema, "required", Json::Array(req));
    assert(jv_members(schema@) =~= create_schema());
    let mut tool: Vec<(String, Json)> = Vec::new();
    proof {
        lemma_no_members(tool@);
    }
    put(&mut tool, "name", text("lot_create"));
    put(&mut tool, "description", text("Create a show.lot directory and make it current."));
    put(&mut tool, "inputSchema", Json::Object(schema));
    assert(jv_members(tool@) =~= create_tool()->Object_0);
    Json::Object(tool)
}

pub open spec fn open_props() -> Seq<(Seq<char>, JsonV)> {
    seq![
        ("path"@, text_prop("Show directory."@)),
    ]
}

pub open spec fn open_schema() -> Seq<(Seq<char>, JsonV)> {
    seq![
        ("type"@, JsonV::Str("object"@)),
        ("properties"@, JsonV::Object(open_props())),
        ("required"@, JsonV::Array(seq![JsonV::Str("path"@)])),
    ]
}

/// The `lot_open` tool.
pub open spec fn open_tool() -> JsonV {
    JsonV::Object(
        seq![
            ("name"@, JsonV::Str("lot_open"@)),
            ("description"@, JsonV::Str("Open an existing show.lot and make it current."@)),
            ("inputSchema"@, JsonV::Object(open_schema())),
        ],
    )
}

fn open_tool_json() -> (r: Json)
    ensures
        jv(r) == open_tool(),
{
    let mut props: Vec<(String, Json)> = Vec::new();
    proof {
        lemma_no_members(props@);
    }
    put(&mut props, "path", text_prop_json("Show directory."));
    assert(jv_members(props@) =~= open_props());
    let mut schema: Vec<(String, Json)> = Vec::new();
    proof {
        lemma_no_members(schema@);
    }
    put(&mut schema, "type", text("object"));
    put(&mut schema, "properties", Json::Object(props));
    let mut req: Vec<Json> = Vec::new();
    proof {
        lemma_no_items(req@);
    }
    push_item(&mut req, text("path"));
    assert(jv_seq(req@) =~= seq![JsonV::Str("path"@)]);
    put(&mut schema, "required", Json::Array(req));
    assert(jv_members(schema@) =~= open_schema());
    let mut tool: Vec<(String, Json)> = Vec::new();
    proof {
        lemma_no_members(tool@);
    }
    put(&mut tool, "name", text("lot_open"));
    put(&mut tool, "description", text("Open an existing show.lot and make it current."));
    put(&mut tool, "inputSchema", Json::Object(schema));
    assert(jv_members(tool@) =~= open_tool()->Object_0);
    Json::Object(tool)
}

pub open spec fn writer_brief_props() -> Seq<(Seq<char>, JsonV)> {
    seq![
        ("text"@, text_prop("Brief / logline."@)),
        ("path"@, text_prop("Optional show.lot directory. Opens it, then runs. Omit to keep current."@)),
    ]
}

pub open spec fn writer_brief_schema() -> Seq<(Seq<char>, JsonV)> {
    seq![
        ("type"@, JsonV::Str("object"@)),
        ("properties"@, JsonV::Object(writer_brief_props())),
        ("required"@, JsonV::Array(seq![JsonV::Str("text"@)])),
    ]
}

/// The `lot_writer_brief` tool.
pub open spec fn writer_brief_tool() -> JsonV {
    JsonV::Object(
        seq![
            ("name"@, JsonV::Str("lot_writer_brief"@)),
            ("description"@, JsonV::Str("Set the writer brief."@)),
            ("inputSchema"@, JsonV::Object(writer_brief_schema())),
        ],
    )
}

fn writer_brief_tool_json() -> (r: Json)
    ensures
        jv(r) == writer_brief_tool(),
{
    let mut props: Vec<(String, Json)> = Vec::new();
    proof {
        lemma_no_members(props@);
    }
    put(&mut props, "text", text_prop_json("Brief / logline."));
    put(&mut props, "path", text_prop_json("Optional show.lot directory. Opens it, then runs. Omit to keep current."));
    assert(jv_members(props@) =~= writer_brief_props());
    let mut schema: Vec<(String, Json)> = Vec::new();
    proof {
        lemma_no_members(schema@);
    }
    put(&mut schema, "type", text("object"));
    put(&mut schema, "properties", Json::Object(props));
    let mut req: Vec<Json> = Vec::new();
    proof {
        lemma_no_items(req@);
    }
    push_item(&mut req, text("text"));
    assert(jv_seq(req@) =~= seq![JsonV::Str("text"@)]);
    put(&mut schema, "required", Json::Array(req));
    assert(jv_members(schema@) =~= writer_brief_schema());
    let mut tool: Vec<(String, Json)> = Vec::new();
    proof {
        lemma_no_members(tool@);
    }
    put(&mut tool, "name", text("lot_writer_brief"));
    put(&mut tool, "description", text("Set the writer brief."));
    put(&mut tool, "inputSchema", Json::Object(schema));
    assert(jv_members(tool@) =~= writer_brief_tool()->Object_0);
    Json::Object(tool)
}

pub open spec fn writer_style_props() -> Seq<(Seq<char>, JsonV)> {
    seq![
        ("genre"@, loose_prop("Genre id(s)."@)),
        ("living"@, loose_prop("Living director id(s)."@)),
        ("canon"@, loose_prop("Canon director id(s)."@)),
        ("format"@, text_prop("feature | 30min | 15s | episodic | advertisement | music-video"@)),
        ("path"@, text_prop("Optional show.lot directory. Opens it, then runs. Omit to keep current."@)),
    ]
}

pub open spec fn writer_style_schema() -> Seq<(Seq<char>, JsonV)> {
    seq![
        ("type"@, JsonV::Str("object"@)),
        ("properties"@, JsonV::Object(writer_style_props())),
    ]
}

/// The `lot_writer_style` tool.
pub open spec fn writer_style_tool() -> JsonV {
    JsonV::Object(
        seq![
            ("name"@, JsonV::Str("lot_writer_style"@)),
            ("description"@, JsonV::Str("Set genre, living/canon influence, and format. IDs from dated JSON packs. Influence / coverage style — not endorsement."@)),
            ("inputSchema"@, JsonV::Object(writer_style_schema())),
        ],
    )
}

fn writer_style_tool_json() -> (r: Json)
    ensures
        jv(r) == writer_style_tool(),
{
    let mut props: Vec<(String, Json)> = Vec::new();
    proof {
        lemma_no_members(props@);
    }
    put(&mut props, "genre", loose_prop_json("Genre id(s)."));
    put(&mut props, "living", loose_prop_json("Living director id(s)."));
    put(&mut props, "canon", loose_prop_json("Canon director id(s)."));
    put(&mut props, "format", text_prop_json("feature | 30min | 15s | episodic | advertisement | music-video"));
    put(&mut props, "path", text_prop_json("Optional show.lot directory. Opens it, then runs. Omit to keep current."));
    assert(jv_members(props@) =~= writer_style_props());
    let mut schema: Vec<(String, Json)> = Vec::new();
    proof {
        lemma_no_members(schema@);
    }
    put(&mut schema, "type", text("object"));
    put(&mut schema, "properties", Json::Object(props));
    assert(jv_members(schema@) =~= writer_style_schema());
    let mut tool: Vec<(String, Json)> = Vec::new();
    proof {
        lemma_no_members(tool@);
    }
    put(&mut tool, "name", text("lot_writer_style"));
    put(&mut tool, "description", text("Set genre, living/canon influence, and format. IDs from dated JSON packs. Influence / coverage style — not endorsement."));
    put(&mut tool, "inputSchema", Json::Object(schema));
    assert(jv_members(tool@) =~= writer_style_tool()->Object_0);
    Json::Object(tool)
}

pub open spec fn writer_cast_props() -> Seq<(Seq<char>, JsonV)> {
    seq![
        ("name"@, typed_prop("string"@)),
        ("function"@, typed_prop("string"@)),
        ("look"@, typed_prop("string"@)),
        ("must_not"@, typed_prop("string"@)),
        ("json"@, loose_prop("Replace-all cast JSON array or string."@)),
        ("path"@, text_prop("Optional show.lot directory. Opens it, then runs. Omit to keep current."@)),
    ]
}

pub open spec fn writer_cast_schema() -> Seq<(Seq<char>, JsonV)> {
    seq![
        ("type"@, JsonV::Str("object"@)),
        ("properties"@, JsonV::Object(writer_cast_props())),
    ]
}

/// The `lot_writer_cast` tool.
pub open spec fn writer_cast_tool() -> JsonV {
    JsonV::Object(
        seq![
            ("name"@, JsonV::Str("lot_writer_cast"@)),
            ("description"@, JsonV::Str("Add/update one character (--name) or replace the cast (json array)."@)),
            ("inputSchema"@, JsonV::Object(writer_cast_schema())),
        ],
    )
}

fn writer_cast_tool_json() -> (r: Json)
    ensures
        jv(r) == writer_cast_tool(),
{
    let mut props: Vec<(String, Json)> = Vec::new();
    proof {
        lemma_no_members(props@);
    }
    put(&mut props, "name", typed_prop_json("string"));
    put(&mut props, "function", typed_prop_json("string"));
    put(&mut props, "look", typed_prop_json("string"));
    put(&mut props, "must_not", typed_prop_json("string"));
    put(&mut props, "json", loose_prop_json("Replace-all cast JSON array or string."));
    put(&mut props, "path", text_prop_json("Optional show.lot directory. Opens it, then runs. Omit to keep current."));
    assert(jv_members(props@) =~= writer_cast_props());
    let mut schema: Vec<(String, Json)> = Vec::new();
    proof {
        lemma_no_members(schema@);
    }
    put(&mut schema, "type", text("object"));
    put(&mut schema, "properties", Json::Object(props));
    assert(jv_members(schema@) =~= writer_cast_schema());
    let mut tool: Vec<(String, Json)> = Vec::new();
    proof {
        lemma_no_members(tool@);
    }
    put(&mut tool, "name", text("lot_writer_cast"));
    put(&mut tool, "description", text("Add/update one character (--name) or replace the cast (json array)."));
    put(&mut tool, "inputSchema", Json::Object(schema));
    assert(jv_members(tool@) =~= writer_cast_tool()->Object_0);
    Json::Object(tool)
}

pub open spec fn writer_draft_props() -> Seq<(Seq<char>, JsonV)> {
    seq![
        ("path"@, text_prop("Optional show.lot directory. Opens it, then runs. Omit to keep current."@)),
    ]
}

pub open spec fn writer_draft_schema() -> Seq<(Seq<char>, JsonV)> {
    seq![
        ("type"@, JsonV::Str("object"@)),
        ("properties"@, JsonV::Object(writer_draft_props())),
    ]
}

/// The `lot_writer_draft` tool.
pub open spec fn writer_draft_tool() -> JsonV {
    JsonV::Object(
        seq![
            ("name"@, JsonV::Str("lot_writer_draft"@)),
            ("description"@, JsonV::Str("Write screenplay.fountain from brief + style + cast + format via Grok (xAI OAuth) or Ollama / local. Errors if no brain."@)),
            ("inputSchema"@, JsonV::Object(writer_draft_schema())),
        ],
    )
}

fn writer_draft_tool_json() -> (r: Json)
    ensures
        jv(r) == writer_draft_tool(),
{
    let mut props: Vec<(String, Json)> = Vec::new();
    proof {
        lemma_no_members(props@);
    }
    put(&mut props, "path", text_prop_json("Optional show.lot directory. Opens it, then runs. Omit to keep current."));
    assert(jv_members(props@) =~= writer_draft_props());
    let mut schema: Vec<(String, Json)> = Vec::new();
    proof {
        lemma_no_members(schema@);
    }
    put(&mut schema, "type", text("object"));
    put(&mut schema, "properties", Json::Object(props));
    assert(jv_members(schema@) =~= writer_draft_schema());
    let mut tool: Vec<(String, Json)> = Vec::new();
    proof {
        lemma_no_members(tool@);
    }
    put(&mut tool, "name", text("lot_writer_draft"));
    put(&mut tool, "description", text("Write screenplay.fountain from brief + style + cast + format via Grok (xAI OAuth) or Ollama / local. Errors if no brain."));
    put(&mut tool, "inputSchema", Json::Object(schema));
    assert(jv_members(tool@) =~= writer_draft_tool()->Object_0);
    Json::Object(tool)
}

pub open spec fn writer_revise_props() -> Seq<(Seq<char>, JsonV)> {
    seq![
        ("notes"@, text_prop("Revise notes."@)),
        ("path"@, text_prop("Optional show.lot directory. Opens it, then runs. Omit to keep current."@)),
    ]
}

pub open spec fn writer_revise_schema() -> Seq<(Seq<char>, JsonV)> {
    seq![
        ("type"@, JsonV::Str("object"@)),
        ("properties"@, JsonV::Object(writer_revise_props())),
        ("required"@, JsonV::Array(seq![JsonV::Str("notes"@)])),
    ]
}

/// The `lot_writer_revise` tool.
pub open spec fn writer_revise_tool() -> JsonV {
    JsonV::Object(
        seq![
            ("name"@, JsonV::Str("lot_writer_revise"@)),
            ("description"@, JsonV::Str("Revise existing screenplay.fountain. Errors if no draft."@)),
            ("inputSchema"@, JsonV::Object(writer_revise_schema())),
        ],
    )
}

fn writer_revise_tool_json() -> (r: Json)
    ensures
        jv(r) == writer_revise_tool(),
{
    let mut props: Vec<(String, Json)> = Vec::new();
    proof {
        lemma_no_members(props@);
    }
    put(&mut props, "notes", text_prop_json("Revise notes."));
    put(&mut props, "path", text_prop_json("Optional show.lot directory. Opens it, then runs. Omit to keep current."));
    assert(jv_members(props@) =~= writer_revise_props());
    let mut schema: Vec<(String, Json)> = Vec::new();
    proof {
        lemma_no_members(schema@);
    }
    put(&mut schema, "type", text("object"));
    put(&mut schema, "properties", Json::Object(props));
    let mut req: Vec<Json> = Vec::new();
    proof {
        lemma_no_items(req@);
    }
    push_item(&mut req, text("notes"));
    assert(jv_seq(req@) =~= seq![JsonV::Str("notes"@)]);
    put(&mut schema, "required", Json::Array(req));
    assert(jv_members(schema@) =~= writer_revise_schema());
    let mut tool: Vec<(String, Json)> = Vec::new();
    proof {
        lemma_no_members(tool@);
    }
    put(&mut tool, "name", text("lot_writer_revise"));
    put(&mut tool, "description", text("Revise existing screenplay.fountain. Errors if no draft."));
    put(&mut tool, "inputSchema", Json::Object(schema));
    assert(jv_members(tool@) =~= writer_revise_tool()->Object_0);
    Json::Object(tool)
}

pub open spec fn writer_lock_props() -> Seq<(Seq<char>, JsonV)> {
    seq![
        ("path"@, text_prop("Optional show.lot directory. Opens it, then runs. Omit to keep current."@)),
    ]
}

pub open spec fn writer_lock_schema() -> Seq<(Seq<char>, JsonV)> {
    seq![
        ("type"@, JsonV::Str("object"@)),
        ("properties"@, JsonV::Object(writer_lock_props())),
    ]
}

/// The `lot_writer_lock` tool.
pub open spec fn writer_lock_tool() -> JsonV {
    JsonV::Object(
        seq![
            ("name"@, JsonV::Str("lot_writer_lock"@)),
            ("description"@, JsonV::Str("Lock brief/style/cast/draft/revise."@)),
            ("inputSchema"@, JsonV::Object(writer_lock_schema())),
        ],
    )
}

fn writer_lock_tool_json() -> (r: Json)
    ensures
        jv(r) == writer_lock_tool(),
{
    let mut props: Vec<(String, Json)> = Vec::new();
    proof {
        lemma_no_members(props@);
    }
    put(&mut props, "path", text_prop_json("Optional show.lot directory. Opens it, then runs. Omit to keep current."));
    assert(jv_members(props@) =~= writer_lock_props());
    let mut schema: Vec<(String, Json)> = Vec::new();
    proof {
        lemma_no_members(schema@);
    }
    put(&mut schema, "type", text("object"));
    put(&mut schema, "properties", Json::Object(props));
    assert(jv_members(schema@) =~= writer_lock_schema());
    let mut tool: Vec<(String, Json)> = Vec::new();
    proof {
        lemma_no_members(tool@);
    }
    put(&mut tool, "name", text("lot_writer_lock"));
    put(&mut tool, "description", text("Lock brief/style/cast/draft/revise."));
    put(&mut tool, "inputSchema", Json::Object(schema));
    assert(jv_members(tool@) =~= writer_lock_tool()->Object_0);
    Json::Object(tool)
}

pub open spec fn writer_unlock_props() -> Seq<(Seq<char>, JsonV)> {
    seq![
        ("path"@, text_prop("Optional show.lot directory. Opens it, then runs. Omit to keep current."@)),
    ]
}

pub open spec fn writer_unlock_schema() -> Seq<(Seq<char>, JsonV)> {
    seq![
        ("type"@, JsonV::Str("object"@)),
        ("properties"@, JsonV::Object(writer_unlock_props())),
    ]
}

/// The `lot_writer_unlock` tool.
pub open spec fn writer_unlock_tool() -> JsonV {
    JsonV::Object(
        seq![
            ("name"@, JsonV::Str("lot_writer_unlock"@)),
            ("description"@, JsonV::Str("Unlock the writer."@)),
            ("inputSchema"@, JsonV::Object(writer_unlock_schema())),
        ],
    )
}

fn writer_unlock_tool_json() -> (r: Json)
    ensures
        jv(r) == writer_unlock_tool(),
{
    let mut props: Vec<(String, Json)> = Vec::new();
    proof {
        lemma_no_members(props@);
    }
    put(&mut props, "path", text_prop_json("Optional show.lot directory. Opens it, then runs. Omit to keep current."));
    assert(jv_members(props@) =~= writer_unlock_props());
    let mut schema: Vec<(String, Json)> = Vec::new();
    proof {
        lemma_no_members(schema@);
    }
    put(&mut schema, "type", text("object"));
    put(&mut schema, "properties", Json::Object(props));
    assert(jv_members(schema@) =~= writer_unlock_schema());
    let mut tool: Vec<(String, Json)> = Vec::new();
    proof {
        lemma_no_members(tool@);
    }
    put(&mut tool, "name", text("lot_writer_unlock"));
    put(&mut tool, "description", text("Unlock the writer."));
    put(&mut tool, "inputSchema", Json::Object(schema));
    assert(jv_members(tool@) =~= writer_unlock_tool()->Object_0);
    Json::Object(tool)
}

pub open spec fn breakdown_import_props() -> Seq<(Seq<char>, JsonV)> {
    seq![
        ("file"@, text_prop("Screenplay or .scriptbreak path."@)),
        ("path"@, text_prop("Optional show.lot directory. Opens it, then runs. Omit to keep current."@)),
    ]
}

pub open spec fn breakdown_import_schema() -> Seq<(Seq<char>, JsonV)> {
    seq![
        ("type"@, JsonV::Str("object"@)),
        ("properties"@, JsonV::Object(breakdown_import_props())),
        ("required"@, JsonV::Array(seq![JsonV::Str("file"@)])),
    ]
}

/// The `lot_breakdown_import` tool.
pub open spec fn breakdown_import_tool() -> JsonV {
    JsonV::Object(
        seq![
            ("name"@, JsonV::Str("lot_breakdown_import"@)),
            ("description"@, JsonV::Str("Import a .txt / .fountain / .scriptbreak and parse scenes. Does not delete the source."@)),
            ("inputSchema"@, JsonV::Object(breakdown_import_schema())),
        ],
    )
}

fn breakdown_import_tool_json() -> (r: Json)
    ensures
        jv(r) == breakdown_import_tool(),
{
    let mut props: Vec<(String, Json)> = Vec::new();
    proof {
        lemma_no_members(props@);
    }
    put(&mut props, "file", text_prop_json("Screenplay or .scriptbreak path."));
    put(&mut props, "path", text_prop_json("Optional show.lot directory. Opens it, then runs. Omit to keep current."));
    assert(jv_members(props@) =~= breakdown_import_props());
    let mut schema: Vec<(String, Json)> = Vec::new();
    proof {
        lemma_no_members(schema@);
    }
    put(&mut schema, "type", text("object"));
    put(&mut schema, "properties", Json::Object(props));
    let mut req: Vec<Json> = Vec::new();
    proof {
        lemma_no_items(req@);
    }
    push_item(&mut req, text("file"));
    assert(jv_seq(req@) =~= seq![JsonV::Str("file"@)]);
    put(&mut schema, "required", Json::Array(req));
    assert(jv_members(schema@) =~= breakdown_import_schema());
    let mut tool: Vec<(String, Json)> = Vec::new();
    proof {
        lemma_no_members(tool@);
    }
    put(&mut tool, "name", text("lot_breakdown_import"));
    put(&mut tool, "description", text("Import a .txt / .fountain / .scriptbreak and parse scenes. Does not delete the source."));
    put(&mut tool, "inputSchema", Json::Object(schema));
    assert(jv_members(tool@) =~= breakdown_import_tool()->Object_0);
    Json::Object(tool)
}

pub open spec fn breakdown_parse_props() -> Seq<(Seq<char>, JsonV)> {
    seq![
        ("path"@, text_prop("Optional show.lot directory. Opens it, then runs. Omit to keep current."@)),
    ]
}

pub open spec fn breakdown_parse_schema() -> Seq<(Seq<char>, JsonV)> {
    seq![
        ("type"@, JsonV::Str("object"@)),
        ("properties"@, JsonV::Object(breakdown_parse_props())),
    ]
}

/// The `lot_breakdown_parse` tool.
pub open spec fn breakdown_parse_tool() -> JsonV {
    JsonV::Object(
        seq![
            ("name"@, JsonV::Str("lot_breakdown_parse"@)),
            ("description"@, JsonV::Str("Parse screenplay.fountain on the current show into scenes + default shots."@)),
            ("inputSchema"@, JsonV::Object(breakdown_parse_schema())),
        ],
    )
}

fn breakdown_parse_tool_json() -> (r: Json)
    ensures
        jv(r) == breakdown_parse_tool(),
{
    let mut props: Vec<(String, Json)> = Vec::new();
    proof {
        lemma_no_members(props@);
    }
    put(&mut props, "path", text_prop_json("Optional show.lot directory. Opens it, then runs. Omit to keep current."));
    assert(jv_members(props@) =~= breakdown_parse_props());
    let mut schema: Vec<(String, Json)> = Vec::new();
    proof {
        lemma_no_members(schema@);
    }
    put(&mut schema, "type", text("object"));
    put(&mut schema, "properties", Json::Object(props));
    assert(jv_members(schema@) =~= breakdown_parse_schema());
    let mut tool: Vec<(String, Json)> = Vec::new();
    proof {
        lemma_no_members(tool@);
    }
    put(&mut tool, "name", text("lot_breakdown_parse"));
    put(&mut tool, "description", text("Parse screenplay.fountain on the current show into scenes + default shots."));
    put(&mut tool, "inputSchema", Json::Object(schema));
    assert(jv_members(tool@) =~= breakdown_parse_tool()->Object_0);
    Json::Object(tool)
}

pub open spec fn wall_add_props() -> Seq<(Seq<char>, JsonV)> {
    seq![
        ("text"@, typed_prop("string"@)),
        ("act"@, typed_prop("string"@)),
        ("path"@, text_prop("Optional show.lot directory. Opens it, then runs. Omit to keep current."@)),
    ]
}

pub open spec fn wall_add_schema() -> Seq<(Seq<char>, JsonV)> {
    seq![
        ("type"@, JsonV::Str("object"@)),
        ("properties"@, JsonV::Object(wall_add_props())),
        ("required"@, JsonV::Array(seq![JsonV::Str("text"@)])),
    ]
}

/// The `lot_wall_add` tool.
pub open spec fn wall_add_tool() -> JsonV {
    JsonV::Object(
        seq![
            ("name"@, JsonV::Str("lot_wall_add"@)),
            ("description"@, JsonV::Str("Add a Cork Board beat card."@)),
            ("inputSchema"@, JsonV::Object(wall_add_schema())),
        ],
    )
}

fn wall_add_tool_json() -> (r: Json)
    ensures
        jv(r) == wall_add_tool(),
{
    let mut props: Vec<(String, Json)> = Vec::new();
    proof {
        lemma_no_members(props@);
    }
    put(&mut props, "text", typed_prop_json("string"));
    put(&mut props, "act", typed_prop_json("string"));
    put(&mut props, "path", text_prop_json("Optional show.lot directory. Opens it, then runs. Omit to keep current."));
    assert(jv_members(props@) =~= wall_add_props());
    let mut schema: Vec<(String, Json)> = Vec::new();
    proof {
        lemma_no_members(schema@);
    }
    put(&mut schema, "type", text("object"));
    put(&mut schema, "properties", Json::Object(props));
    let mut req: Vec<Json> = Vec::new();
    proof {
        lemma_no_items(req@);
    }
    push_item(&mut req, text("text"));
    assert(jv_seq(req@) =~= seq![JsonV::Str("text"@)]);
    put(&mut schema, "required", Json::Array(req));
    assert(jv_members(schema@) =~= wall_add_schema());
    let mut tool: Vec<(String, Json)> = Vec::new();
    proof {
        lemma_no_members(tool@);
    }
    put(&mut tool, "name", text("lot_wall_add"));
    put(&mut tool, "description", text("Add a Cork Board beat card."));
    put(&mut tool, "inputSchema", Json::Object(schema));
    assert(jv_members(tool@) =~= wall_add_tool()->Object_0);
    Json::Object(tool)
}

pub open spec fn stage_place_props() -> Seq<(Seq<char>, JsonV)> {
    seq![
        ("shot"@, typed_prop("string"@)),
        ("who"@, typed_prop("string"@)),
        ("mark"@, typed_prop("string"@)),
        ("x"@, typed_prop("string"@)),
        ("z"@, typed_prop("string"@)),
        ("notes"@, typed_prop("string"@)),
        ("kind"@, text_prop("actor | camera | prop"@)),
        ("path"@, text_prop("Optional show.lot directory. Opens it, then runs. Omit to keep current."@)),
    ]
}

pub open spec fn stage_place_schema() -> Seq<(Seq<char>, JsonV)> {
    seq![
        ("type"@, JsonV::Str("object"@)),
        ("properties"@, JsonV::Object(stage_place_props())),
        ("required"@, JsonV::Array(seq![JsonV::Str("shot"@), JsonV::Str("who"@)])),
    ]
}

/// The `lot_stage_place` tool.
pub open spec fn stage_place_tool() -> JsonV {
    JsonV::Object(
        seq![
            ("name"@, JsonV::Str("lot_stage_place"@)),
            ("description"@, JsonV::Str("Place a 2D floor mark on a shot. 3D blocking stays in Blockout. Does not rename the shot."@)),
            ("inputSchema"@, JsonV::Object(stage_place_schema())),
        ],
    )
}

fn stage_place_tool_json() -> (r: Json)
    ensures
        jv(r) == stage_place_tool(),
{
    let mut props: Vec<(String, Json)> = Vec::new();
    proof {
        lemma_no_members(props@);
    }
    put(&mut props, "shot", typed_prop_json("string"));
    put(&mut props, "who", typed_prop_json("string"));
    put(&mut props, "mark", typed_prop_json("string"));
    put(&mut props, "x", typed_prop_json("string"));
    put(&mut props, "z", typed_prop_json("string"));
    put(&mut props, "notes", typed_prop_json("string"));
    put(&mut props, "kind", text_prop_json("actor | camera | prop"));
    put(&mut props, "path", text_prop_json("Optional show.lot directory. Opens it, then runs. Omit to keep current."));
    assert(jv_members(props@) =~= stage_place_props());
    let mut schema: Vec<(String, Json)> = Vec::new();
    proof {
        lemma_no_members(schema@);
    }
    put(&mut schema, "type", text("object"));
    put(&mut schema, "properties", Json::Object(props));
    let mut req: Vec<Json> = Vec::new();
    proof {
        lemma_no_items(req@);
    }
    push_item(&mut req, text("shot"));
    push_item(&mut req, text("who"));
    assert(jv_seq(req@) =~= seq![JsonV::Str("shot"@), JsonV::Str("who"@)]);
    put(&mut schema, "required", Json::Array(req));
    assert(jv_members(schema@) =~= stage_place_schema());
    let mut tool: Vec<(String, Json)> = Vec::new();
    proof {
        lemma_no_members(tool@);
    }
    put(&mut tool, "name", text("lot_stage_place"));
    put(&mut tool, "description", text("Place a 2D floor mark on a shot. 3D blocking stays in Blockout. Does not rename the shot."));
    put(&mut tool, "inputSchema", Json::Object(schema));
    assert(jv_members(tool@) =~= stage_place_tool()->Object_0);
    Json::Object(tool)
}

pub open spec fn stage_camera_props() -> Seq<(Seq<char>, JsonV)> {
    seq![
        ("shot"@, typed_prop("string"@)),
        ("size"@, typed_prop("string"@)),
        ("angle"@, typed_prop("string"@)),
        ("lens"@, typed_prop("string"@)),
        ("move"@, typed_prop("string"@)),
        ("path"@, text_prop("Optional show.lot directory. Opens it, then runs. Omit to keep current."@)),
    ]
}

pub open spec fn stage_camera_schema() -> Seq<(Seq<char>, JsonV)> {
    seq![
        ("type"@, JsonV::Str("object"@)),
        ("properties"@, JsonV::Object(stage_camera_props())),
        ("required"@, JsonV::Array(seq![JsonV::Str("shot"@)])),
    ]
}

/// The `lot_stage_camera` tool.
pub open spec fn stage_camera_tool() -> JsonV {
    JsonV::Object(
        seq![
            ("name"@, JsonV::Str("lot_stage_camera"@)),
            ("description"@, JsonV::Str("Set the camera card on a shot (size, angle, lens, move)."@)),
            ("inputSchema"@, JsonV::Object(stage_camera_schema())),
        ],
    )
}

fn stage_camera_tool_json() -> (r: Json)
    ensures
        jv(r) == stage_camera_tool(),
{
    let mut props: Vec<(String, Json)> = Vec::new();
    proof {
        lemma_no_members(props@);
    }
    put(&mut props, "shot", typed_prop_json("string"));
    put(&mut props, "size", typed_prop_json("string"));
    put(&mut props, "angle", typed_prop_json("string"));
    put(&mut props, "lens", typed_prop_json("string"));
    put(&mut props, "move", typed_prop_json("string"));
    put(&mut props, "path", text_prop_json("Optional show.lot directory. Opens it, then runs. Omit to keep current."));
    assert(jv_members(props@) =~= stage_camera_props());
    let mut schema: Vec<(String, Json)> = Vec::new();
    proof {
        lemma_no_members(schema@);
    }
    put(&mut schema, "type", text("object"));
    put(&mut schema, "properties", Json::Object(props));
    let mut req: Vec<Json> = Vec::new();
    proof {
        lemma_no_items(req@);
    }
    push_item(&mut req, text("shot"));
    assert(jv_seq(req@) =~= seq![JsonV::Str("shot"@)]);
    put(&mut schema, "required", Json::Array(req));
    assert(jv_members(schema@) =~= stage_camera_schema());
    let mut tool: Vec<(String, Json)> = Vec::new();
    proof {
        lemma_no_members(tool@);
    }
    put(&mut tool, "name", text("lot_stage_camera"));
    put(&mut tool, "description", text("Set the camera card on a shot (size, angle, lens, move)."));
    put(&mut tool, "inputSchema", Json::Object(schema));
    assert(jv_members(tool@) =~= stage_camera_tool()->Object_0);
    Json::Object(tool)
}

pub open spec fn stage_export_props() -> Seq<(Seq<char>, JsonV)> {
    seq![
        ("path"@, text_prop("Optional show.lot directory. Opens it, then runs. Omit to keep current."@)),
    ]
}

pub open spec fn stage_export_schema() -> Seq<(Seq<char>, JsonV)> {
    seq![
        ("type"@, JsonV::Str("object"@)),
        ("properties"@, JsonV::Object(stage_export_props())),
    ]
}

/// The `lot_stage_export` tool.
pub open spec fn stage_export_tool() -> JsonV {
    JsonV::Object(
        seq![
            ("name"@, JsonV::Str("lot_stage_export"@)),
            ("description"@, JsonV::Str("Write stage/block.json from 2D marks. Never a fake glTF or depth pass."@)),
            ("inputSchema"@, JsonV::Object(stage_export_schema())),
        ],
    )
}

fn stage_export_tool_json() -> (r: Json)
    ensures
        jv(r) == stage_export_tool(),
{
    let mut props: Vec<(String, Json)> = Vec::new();
    proof {
        lemma_no_members(props@);
    }
    put(&mut props, "path", text_prop_json("Optional show.lot directory. Opens it, then runs. Omit to keep current."));
    assert(jv_members(props@) =~= stage_export_props());
    let mut schema: Vec<(String, Json)> = Vec::new();
    proof {
        lemma_no_members(schema@);
    }
    put(&mut schema, "type", text("object"));
    put(&mut schema, "properties", Json::Object(props));
    assert(jv_members(schema@) =~= stage_export_schema());
    let mut tool: Vec<(String, Json)> = Vec::new();
    proof {
        lemma_no_members(tool@);
    }
    put(&mut tool, "name", text("lot_stage_export"));
    put(&mut tool, "description", text("Write stage/block.json from 2D marks. Never a fake glTF or depth pass."));
    put(&mut tool, "inputSchema", Json::Object(schema));
    assert(jv_members(tool@) =~= stage_export_tool()->Object_0);
    Json::Object(tool)
}

pub open spec fn picture_lock_props() -> Seq<(Seq<char>, JsonV)> {
    seq![
        ("shot"@, typed_prop("string"@)),
        ("locked"@, typed_prop("boolean"@)),
        ("path"@, text_prop("Optional show.lot directory. Opens it, then runs. Omit to keep current."@)),
    ]
}

pub open spec fn picture_lock_schema() -> Seq<(Seq<char>, JsonV)> {
    seq![
        ("type"@, JsonV::Str("object"@)),
        ("properties"@, JsonV::Object(picture_lock_props())),
        ("required"@, JsonV::Array(seq![JsonV::Str("shot"@)])),
    ]
}

/// The `lot_picture_lock` tool.
pub open spec fn picture_lock_tool() -> JsonV {
    JsonV::Object(
        seq![
            ("name"@, JsonV::Str("lot_picture_lock"@)),
            ("description"@, JsonV::Str("Lock or unlock a Picture shot card. Does not rename the shot."@)),
            ("inputSchema"@, JsonV::Object(picture_lock_schema())),
        ],
    )
}

fn picture_lock_tool_json() -> (r: Json)
    ensures
        jv(r) == picture_lock_tool(),
{
    let mut props: Vec<(String, Json)> = Vec::new();
    proof {
        lemma_no_members(props@);
    }
    put(&mut props, "shot", typed_prop_json("string"));
    put(&mut props, "locked", typed_prop_json("boolean"));
    put(&mut props, "path", text_prop_json("Optional show.lot directory. Opens it, then runs. Omit to keep current."));
    assert(jv_members(props@) =~= picture_lock_props());
    let mut schema: Vec<(String, Json)> = Vec::new();
    proof {
        lemma_no_members(schema@);
    }
    put(&mut schema, "type", text("object"));
    put(&mut schema, "properties", Json::Object(props));
    let mut req: Vec<Json> = Vec::new();
    proof {
        lemma_no_items(req@);
    }
    push_item(&mut req, text("shot"));
    assert(jv_seq(req@) =~= seq![JsonV::Str("shot"@)]);
    put(&mut schema, "required", Json::Array(req));
    assert(jv_members(schema@) =~= picture_lock_schema());
    let mut tool: Vec<(String, Json)> = Vec::new();
    proof {
        lemma_no_members(tool@);
    }
    put(&mut tool, "name", text("lot_picture_lock"));
    put(&mut tool, "description", text("Lock or unlock a Picture shot card. Does not rename the shot."));
    put(&mut tool, "inputSchema", Json::Object(schema));
    assert(jv_members(tool@) =~= picture_lock_tool()->Object_0);
    Json::Object(tool)
}

pub open spec fn stills_generate_props() -> Seq<(Seq<char>, JsonV)> {
    seq![
        ("shot"@, typed_prop("string"@)),
        ("backend"@, text_prop("grok | comfy"@)),
        ("prompt"@, typed_prop("string"@)),
        ("path"@, text_prop("Optional show.lot directory. Opens it, then runs. Omit to keep current."@)),
        ("cap"@, text_prop("Agent caps: read | write | render | export | spend | all. Unset = all. AC-012."@)),
    ]
}

pub open spec fn stills_generate_schema() -> Seq<(Seq<char>, JsonV)> {
    seq![
        ("type"@, JsonV::Str("object"@)),
        ("properties"@, JsonV::Object(stills_generate_props())),
        ("required"@, JsonV::Array(seq![JsonV::Str("shot"@), JsonV::Str("backend"@)])),
    ]
}

/// The `lot_stills_generate` tool.
pub open spec fn stills_generate_tool() -> JsonV {
    JsonV::Object(
        seq![
            ("name"@, JsonV::Str("lot_stills_generate"@)),
            ("description"@, JsonV::Str("Generate a still for a shot. backend must be grok or comfy. No silent swap. Never a fake PNG."@)),
            ("inputSchema"@, JsonV::Object(stills_generate_schema())),
        ],
    )
}

fn stills_generate_tool_json() -> (r: Json)
    ensures
        jv(r) == stills_generate_tool(),
{
    let mut props: Vec<(String, Json)> = Vec::new();
    proof {
        lemma_no_members(props@);
    }
    put(&mut props, "shot", typed_prop_json("string"));
    put(&mut props, "backend", text_prop_json("grok | comfy"));
    put(&mut props, "prompt", typed_prop_json("string"));
    put(&mut props, "path", text_prop_json("Optional show.lot directory. Opens it, then runs. Omit to keep current."));
    put(&mut props, "cap", text_prop_json("Agent caps: read | write | render | export | spend | all. Unset = all. AC-012."));
    assert(jv_members(props@) =~= stills_generate_props());
    let mut schema: Vec<(String, Json)> = Vec::new();
    proof {
        lemma_no_members(schema@);
    }
    put(&mut schema, "type", text("object"));
    put(&mut schema, "properties", Json::Object(props));
    let mut req: Vec<Json> = Vec::new();
    proof {
        lemma_no_items(req@);
    }
    push_item(&mut req, text("shot"));
    push_item(&mut req, text("backend"));
    assert(jv_seq(req@) =~= seq![JsonV::Str("shot"@), JsonV::Str("backend"@)]);
    put(&mut schema, "required", Json::Array(req));
    assert(jv_members(schema@) =~= stills_generate_schema());
    let mut tool: Vec<(String, Json)> = Vec::new();
    proof {
        lemma_no_members(tool@);
    }
    put(&mut tool, "name", text("lot_stills_generate"));
    put(&mut tool, "description", text("Generate a still for a shot. backend must be grok or comfy. No silent swap. Never a fake PNG."));
    put(&mut tool, "inputSchema", Json::Object(schema));
    assert(jv_members(tool@) =~= stills_generate_tool()->Object_0);
    Json::Object(tool)
}

pub open spec fn stills_describe_props() -> Seq<(Seq<char>, JsonV)> {
    seq![
        ("shot"@, typed_prop("string"@)),
        ("file"@, text_prop("Optional image or plate path."@)),
        ("path"@, text_prop("Optional show.lot directory. Opens it, then runs. Omit to keep current."@)),
    ]
}

pub open spec fn stills_describe_schema() -> Seq<(Seq<char>, JsonV)> {
    seq![
        ("type"@, JsonV::Str("object"@)),
        ("properties"@, JsonV::Object(stills_describe_props())),
        ("required"@, JsonV::Array(seq![JsonV::Str("shot"@)])),
    ]
}

/// The `lot_stills_describe` tool.
pub open spec fn stills_describe_tool() -> JsonV {
    JsonV::Object(
        seq![
            ("name"@, JsonV::Str("lot_stills_describe"@)),
            ("description"@, JsonV::Str("Look at a still, plate frame, or file. Grok vision #1 when online; Ollama VL locally. Never invent a look."@)),
            ("inputSchema"@, JsonV::Object(stills_describe_schema())),
        ],
    )
}

fn stills_describe_tool_json() -> (r: Json)
    ensures
        jv(r) == stills_describe_tool(),
{
    let mut props: Vec<(String, Json)> = Vec::new();
    proof {
        lemma_no_members(props@);
    }
    put(&mut props, "shot", typed_prop_json("string"));
    put(&mut props, "file", text_prop_json("Optional image or plate path."));
    put(&mut props, "path", text_prop_json("Optional show.lot directory. Opens it, then runs. Omit to keep current."));
    assert(jv_members(props@) =~= stills_describe_props());
    let mut schema: Vec<(String, Json)> = Vec::new();
    proof {
        lemma_no_members(schema@);
    }
    put(&mut schema, "type", text("object"));
    put(&mut schema, "properties", Json::Object(props));
    let mut req: Vec<Json> = Vec::new();
    proof {
        lemma_no_items(req@);
    }
    push_item(&mut req, text("shot"));
    assert(jv_seq(req@) =~= seq![JsonV::Str("shot"@)]);
    put(&mut schema, "required", Json::Array(req));
    assert(jv_members(schema@) =~= stills_describe_schema());
    let mut tool: Vec<(String, Json)> = Vec::new();
    proof {
        lemma_no_members(tool@);
    }
    put(&mut tool, "name", text("lot_stills_describe"));
    put(&mut tool, "description", text("Look at a still, plate frame, or file. Grok vision #1 when online; Ollama VL locally. Never invent a look."));
    put(&mut tool, "inputSchema", Json::Object(schema));
    assert(jv_members(tool@) =~= stills_describe_tool()->Object_0);
    Json::Object(tool)
}

pub open spec fn board_export_props() -> Seq<(Seq<char>, JsonV)> {
    seq![
        ("path"@, text_prop("Optional show.lot directory. Opens it, then runs. Omit to keep current."@)),
    ]
}

pub open spec fn board_export_schema() -> Seq<(Seq<char>, JsonV)> {
    seq![
        ("type"@, JsonV::Str("object"@)),
        ("properties"@, JsonV::Object(board_export_props())),
    ]
}

/// The `lot_board_export` tool.
pub open spec fn board_export_tool() -> JsonV {
    JsonV::Object(
        seq![
            ("name"@, JsonV::Str("lot_board_export"@)),
            ("description"@, JsonV::Str("Export board/board.json from shots, stills, and slate prompts. One tool toward Slate."@)),
            ("inputSchema"@, JsonV::Object(board_export_schema())),
        ],
    )
}

fn board_export_tool_json() -> (r: Json)
    ensures
        jv(r) == board_export_tool(),
{
    let mut props: Vec<(String, Json)> = Vec::new();
    proof {
        lemma_no_members(props@);
    }
    put(&mut props, "path", text_prop_json("Optional show.lot directory. Opens it, then runs. Omit to keep current."));
    assert(jv_members(props@) =~= board_export_props());
    let mut schema: Vec<(String, Json)> = Vec::new();
    proof {
        lemma_no_members(schema@);
    }
    put(&mut schema, "type", text("object"));
    put(&mut schema, "properties", Json::Object(props));
    assert(jv_members(schema@) =~= board_export_schema());
    let mut tool: Vec<(String, Json)> = Vec::new();
    proof {
        lemma_no_members(tool@);
    }
    put(&mut tool, "name", text("lot_board_export"));
    put(&mut tool, "description", text("Export board/board.json from shots, stills, and slate prompts. One tool toward Slate."));
    put(&mut tool, "inputSchema", Json::Object(schema));
    assert(jv_members(tool@) =~= board_export_tool()->Object_0);
    Json::Object(tool)
}

pub open spec fn slate_set_props() -> Seq<(Seq<char>, JsonV)> {
    seq![
        ("shot"@, typed_prop("string"@)),
        ("prompt"@, typed_prop("string"@)),
        ("target"@, text_prop("ltx-2.3 | ltx-2.5 | grok | comfy | prompt-server | kling | veo | sora | seedance | hailuo | flux | midjourney | gpt-image | krea | wan | runway"@)),
        ("path"@, text_prop("Optional show.lot directory. Opens it, then runs. Omit to keep current."@)),
    ]
}

pub open spec fn slate_set_schema() -> Seq<(Seq<char>, JsonV)> {
    seq![
        ("type"@, JsonV::Str("object"@)),
        ("properties"@, JsonV::Object(slate_set_props())),
        ("required"@, JsonV::Array(seq![JsonV::Str("shot"@), JsonV::Str("prompt"@)])),
    ]
}

/// The `lot_slate_set` tool.
pub open spec fn slate_set_tool() -> JsonV {
    JsonV::Object(
        seq![
            ("name"@, JsonV::Str("lot_slate_set"@)),
            ("description"@, JsonV::Str("Set the Slate canon on a shot. With target, write a per-engine rewrite without replacing the canon (unless canon is empty)."@)),
            ("inputSchema"@, JsonV::Object(slate_set_schema())),
        ],
    )
}

fn slate_set_tool_json() -> (r: Json)
    ensures
        jv(r) == slate_set_tool(),
{
    let mut props: Vec<(String, Json)> = Vec::new();
    proof {
        lemma_no_members(props@);
    }
    put(&mut props, "shot", typed_prop_json("string"));
    put(&mut props, "prompt", typed_prop_json("string"));
    put(&mut props, "target", text_prop_json("ltx-2.3 | ltx-2.5 | grok | comfy | prompt-server | kling | veo | sora | seedance | hailuo | flux | midjourney | gpt-image | krea | wan | runway"));
    put(&mut props, "path", text_prop_json("Optional show.lot directory. Opens it, then runs. Omit to keep current."));
    assert(jv_members(props@) =~= slate_set_props());
    let mut schema: Vec<(String, Json)> = Vec::new();
    proof {
        lemma_no_members(schema@);
    }
    put(&mut schema, "type", text("object"));
    put(&mut schema, "properties", Json::Object(props));
    let mut req: Vec<Json> = Vec::new();
    proof {
        lemma_no_items(req@);
    }
    push_item(&mut req, text("shot"));
    push_item(&mut req, text("prompt"));
    assert(jv_seq(req@) =~= seq![JsonV::Str("shot"@), JsonV::Str("prompt"@)]);
    put(&mut schema, "required", Json::Array(req));
    assert(jv_members(schema@) =~= slate_set_schema());
    let mut tool: Vec<(String, Json)> = Vec::new();
    proof {
        lemma_no_members(tool@);
    }
    put(&mut tool, "name", text("lot_slate_set"));
    put(&mut tool, "description", text("Set the Slate canon on a shot. With target, write a per-engine rewrite without replacing the canon (unless canon is empty)."));
    put(&mut tool, "inputSchema", Json::Object(schema));
    assert(jv_members(tool@) =~= slate_set_tool()->Object_0);
    Json::Object(tool)
}

pub open spec fn slate_compile_props() -> Seq<(Seq<char>, JsonV)> {
    seq![
        ("shot"@, typed_prop("string"@)),
        ("target"@, typed_prop("string"@)),
        ("path"@, text_prop("Optional show.lot directory. Opens it, then runs. Omit to keep current."@)),
    ]
}

pub open spec fn slate_compile_schema() -> Seq<(Seq<char>, JsonV)> {
    seq![
        ("type"@, JsonV::Str("object"@)),
        ("properties"@, JsonV::Object(slate_compile_props())),
        ("required"@, JsonV::Array(seq![JsonV::Str("shot"@)])),
    ]
}

/// The `lot_slate_compile` tool.
pub open spec fn slate_compile_tool() -> JsonV {
    JsonV::Object(
        seq![
            ("name"@, JsonV::Str("lot_slate_compile"@)),
            ("description"@, JsonV::Str("Compile the Slate canon into a target dialect. Brain or LOT_PROMPT_SERVER. Never invent a rewrite if they are down."@)),
            ("inputSchema"@, JsonV::Object(slate_compile_schema())),
        ],
    )
}

fn slate_compile_tool_json() -> (r: Json)
    ensures
        jv(r) == slate_compile_tool(),
{
    let mut props: Vec<(String, Json)> = Vec::new();
    proof {
        lemma_no_members(props@);
    }
    put(&mut props, "shot", typed_prop_json("string"));
    put(&mut props, "target", typed_prop_json("string"));
    put(&mut props, "path", text_prop_json("Optional show.lot directory. Opens it, then runs. Omit to keep current."));
    assert(jv_members(props@) =~= slate_compile_props());
    let mut schema: Vec<(String, Json)> = Vec::new();
    proof {
        lemma_no_members(schema@);
    }
    put(&mut schema, "type", text("object"));
    put(&mut schema, "properties", Json::Object(props));
    let mut req: Vec<Json> = Vec::new();
    proof {
        lemma_no_items(req@);
    }
    push_item(&mut req, text("shot"));
    assert(jv_seq(req@) =~= seq![JsonV::Str("shot"@)]);
    put(&mut schema, "required", Json::Array(req));
    assert(jv_members(schema@) =~= slate_compile_schema());
    let mut tool: Vec<(String, Json)> = Vec::new();
    proof {
        lemma_no_members(tool@);
    }
    put(&mut tool, "name", text("lot_slate_compile"));
    put(&mut tool, "description", text("Compile the Slate canon into a target dialect. Brain or LOT_PROMPT_SERVER. Never invent a rewrite if they are down."));
    put(&mut tool, "inputSchema", Json::Object(schema));
    assert(jv_members(tool@) =~= slate_compile_tool()->Object_0);
    Json::Object(tool)
}

pub open spec fn slate_target_props() -> Seq<(Seq<char>, JsonV)> {
    seq![
        ("id"@, typed_prop("string"@)),
        ("path"@, text_prop("Optional show.lot directory. Opens it, then runs. Omit to keep current."@)),
    ]
}

pub open spec fn slate_target_schema() -> Seq<(Seq<char>, JsonV)> {
    seq![
        ("type"@, JsonV::Str("object"@)),
        ("properties"@, JsonV::Object(slate_target_props())),
        ("required"@, JsonV::Array(seq![JsonV::Str("id"@)])),
    ]
}

/// The `lot_slate_target` tool.
pub open spec fn slate_target_tool() -> JsonV {
    JsonV::Object(
        seq![
            ("name"@, JsonV::Str("lot_slate_target"@)),
            ("description"@, JsonV::Str("Set the show default Slate compile target."@)),
            ("inputSchema"@, JsonV::Object(slate_target_schema())),
        ],
    )
}

fn slate_target_tool_json() -> (r: Json)
    ensures
        jv(r) == slate_target_tool(),
{
    let mut props: Vec<(String, Json)> = Vec::new();
    proof {
        lemma_no_members(props@);
    }
    put(&mut props, "id", typed_prop_json("string"));
    put(&mut props, "path", text_prop_json("Optional show.lot directory. Opens it, then runs. Omit to keep current."));
    assert(jv_members(props@) =~= slate_target_props());
    let mut schema: Vec<(String, Json)> = Vec::new();
    proof {
        lemma_no_members(schema@);
    }
    put(&mut schema, "type", text("object"));
    put(&mut schema, "properties", Json::Object(props));
    let mut req: Vec<Json> = Vec::new();
    proof {
        lemma_no_items(req@);
    }
    push_item(&mut req, text("id"));
    assert(jv_seq(req@) =~= seq![JsonV::Str("id"@)]);
    put(&mut schema, "required", Json::Array(req));
    assert(jv_members(schema@) =~= slate_target_schema());
    let mut tool: Vec<(String, Json)> = Vec::new();
    proof {
        lemma_no_members(tool@);
    }
    put(&mut tool, "name", text("lot_slate_target"));
    put(&mut tool, "description", text("Set the show default Slate compile target."));
    put(&mut tool, "inputSchema", Json::Object(schema));
    assert(jv_members(tool@) =~= slate_target_tool()->Object_0);
    Json::Object(tool)
}

pub open spec fn slate_lora_props() -> Seq<(Seq<char>, JsonV)> {
    seq![
        ("shot"@, typed_prop("string"@)),
        ("id"@, typed_prop("string"@)),
        ("weight"@, typed_prop("string"@)),
        ("model"@, typed_prop("string"@)),
        ("path"@, text_prop("Optional show.lot directory. Opens it, then runs. Omit to keep current."@)),
    ]
}

pub open spec fn slate_lora_schema() -> Seq<(Seq<char>, JsonV)> {
    seq![
        ("type"@, JsonV::Str("object"@)),
        ("properties"@, JsonV::Object(slate_lora_props())),
        ("required"@, JsonV::Array(seq![JsonV::Str("id"@)])),
    ]
}

/// The `lot_slate_lora` tool.
pub open spec fn slate_lora_tool() -> JsonV {
    JsonV::Object(
        seq![
            ("name"@, JsonV::Str("lot_slate_lora"@)),
            ("description"@, JsonV::Str("Attach a LoRA to a shot or the show (id, weight, model family)."@)),
            ("inputSchema"@, JsonV::Object(slate_lora_schema())),
        ],
    )
}

fn slate_lora_tool_json() -> (r: Json)
    ensures
        jv(r) == slate_lora_tool(),
{
    let mut props: Vec<(String, Json)> = Vec::new();
    proof {
        lemma_no_members(props@);
    }
    put(&mut props, "shot", typed_prop_json("string"));
    put(&mut props, "id", typed_prop_json("string"));
    put(&mut props, "weight", typed_prop_json("string"));
    put(&mut props, "model", typed_prop_json("string"));
    put(&mut props, "path", text_prop_json("Optional show.lot directory. Opens it, then runs. Omit to keep current."));
    assert(jv_members(props@) =~= slate_lora_props());
    let mut schema: Vec<(String, Json)> = Vec::new();
    proof {
        lemma_no_members(schema@);
    }
    put(&mut schema, "type", text("object"));
    put(&mut schema, "properties", Json::Object(props));
    let mut req: Vec<Json> = Vec::new();
    proof {
        lemma_no_items(req@);
    }
    push_item(&mut req, text("id"));
    assert(jv_seq(req@) =~= seq![JsonV::Str("id"@)]);
    put(&mut schema, "required", Json::Array(req));
    assert(jv_members(schema@) =~= slate_lora_schema());
    let mut tool: Vec<(String, Json)> = Vec::new();
    proof {
        lemma_no_members(tool@);
    }
    put(&mut tool, "name", text("lot_slate_lora"));
    put(&mut tool, "description", text("Attach a LoRA to a shot or the show (id, weight, model family)."));
    put(&mut tool, "inputSchema", Json::Object(schema));
    assert(jv_members(tool@) =~= slate_lora_tool()->Object_0);
    Json::Object(tool)
}

pub open spec fn motion_plate_props() -> Seq<(Seq<char>, JsonV)> {
    seq![
        ("file"@, typed_prop("string"@)),
        ("shot"@, typed_prop("string"@)),
        ("mode"@, text_prop("camera_only | actor_motion | object_motion | full_scene"@)),
        ("path"@, text_prop("Optional show.lot directory. Opens it, then runs. Omit to keep current."@)),
    ]
}

pub open spec fn motion_plate_schema() -> Seq<(Seq<char>, JsonV)> {
    seq![
        ("type"@, JsonV::Str("object"@)),
        ("properties"@, JsonV::Object(motion_plate_props())),
        ("required"@, JsonV::Array(seq![JsonV::Str("file"@), JsonV::Str("shot"@)])),
    ]
}

/// The `lot_motion_plate` tool.
pub open spec fn motion_plate_tool() -> JsonV {
    JsonV::Object(
        seq![
            ("name"@, JsonV::Str("lot_motion_plate"@)),
            ("description"@, JsonV::Str("Attach a Motion Previs plate to a shot. Does not rename the shot. Pose/depth stay in Motion Previs Studio."@)),
            ("inputSchema"@, JsonV::Object(motion_plate_schema())),
        ],
    )
}

fn motion_plate_tool_json() -> (r: Json)
    ensures
        jv(r) == motion_plate_tool(),
{
    let mut props: Vec<(String, Json)> = Vec::new();
    proof {
        lemma_no_members(props@);
    }
    put(&mut props, "file", typed_prop_json("string"));
    put(&mut props, "shot", typed_prop_json("string"));
    put(&mut props, "mode", text_prop_json("camera_only | actor_motion | object_motion | full_scene"));
    put(&mut props, "path", text_prop_json("Optional show.lot directory. Opens it, then runs. Omit to keep current."));
    assert(jv_members(props@) =~= motion_plate_props());
    let mut schema: Vec<(String, Json)> = Vec::new();
    proof {
        lemma_no_members(schema@);
    }
    put(&mut schema, "type", text("object"));
    put(&mut schema, "properties", Json::Object(props));
    let mut req: Vec<Json> = Vec::new();
    proof {
        lemma_no_items(req@);
    }
    push_item(&mut req, text("file"));
    push_item(&mut req, text("shot"));
    assert(jv_seq(req@) =~= seq![JsonV::Str("file"@), JsonV::Str("shot"@)]);
    put(&mut schema, "required", Json::Array(req));
    assert(jv_members(schema@) =~= motion_plate_schema());
    let mut tool: Vec<(String, Json)> = Vec::new();
    proof {
        lemma_no_members(tool@);
    }
    put(&mut tool, "name", text("lot_motion_plate"));
    put(&mut tool, "description", text("Attach a Motion Previs plate to a shot. Does not rename the shot. Pose/depth stay in Motion Previs Studio."));
    put(&mut tool, "inputSchema", Json::Object(schema));
    assert(jv_members(tool@) =~= motion_plate_tool()->Object_0);
    Json::Object(tool)
}

pub open spec fn motion_marks_props() -> Seq<(Seq<char>, JsonV)> {
    seq![
        ("shot"@, typed_prop("string"@)),
        ("move"@, typed_prop("string"@)),
        ("notes"@, typed_prop("string"@)),
        ("mode"@, typed_prop("string"@)),
        ("path"@, text_prop("Optional show.lot directory. Opens it, then runs. Omit to keep current."@)),
    ]
}

pub open spec fn motion_marks_schema() -> Seq<(Seq<char>, JsonV)> {
    seq![
        ("type"@, JsonV::Str("object"@)),
        ("properties"@, JsonV::Object(motion_marks_props())),
        ("required"@, JsonV::Array(seq![JsonV::Str("shot"@)])),
    ]
}

/// The `lot_motion_marks` tool.
pub open spec fn motion_marks_tool() -> JsonV {
    JsonV::Object(
        seq![
            ("name"@, JsonV::Str("lot_motion_marks"@)),
            ("description"@, JsonV::Str("Store camera / performance marks on a shot. No MediaPipe. No fake OpenPose."@)),
            ("inputSchema"@, JsonV::Object(motion_marks_schema())),
        ],
    )
}

fn motion_marks_tool_json() -> (r: Json)
    ensures
        jv(r) == motion_marks_tool(),
{
    let mut props: Vec<(String, Json)> = Vec::new();
    proof {
        lemma_no_members(props@);
    }
    put(&mut props, "shot", typed_prop_json("string"));
    put(&mut props, "move", typed_prop_json("string"));
    put(&mut props, "notes", typed_prop_json("string"));
    put(&mut props, "mode", typed_prop_json("string"));
    put(&mut props, "path", text_prop_json("Optional show.lot directory. Opens it, then runs. Omit to keep current."));
    assert(jv_members(props@) =~= motion_marks_props());
    let mut schema: Vec<(String, Json)> = Vec::new();
    proof {
        lemma_no_members(schema@);
    }
    put(&mut schema, "type", text("object"));
    put(&mut schema, "properties", Json::Object(props));
    let mut req: Vec<Json> = Vec::new();
    proof {
        lemma_no_items(req@);
    }
    push_item(&mut req, text("shot"));
    assert(jv_seq(req@) =~= seq![JsonV::Str("shot"@)]);
    put(&mut schema, "required", Json::Array(req));
    assert(jv_members(schema@) =~= motion_marks_schema());
    let mut tool: Vec<(String, Json)> = Vec::new();
    proof {
        lemma_no_members(tool@);
    }
    put(&mut tool, "name", text("lot_motion_marks"));
    put(&mut tool, "description", text("Store camera / performance marks on a shot. No MediaPipe. No fake OpenPose."));
    put(&mut tool, "inputSchema", Json::Object(schema));
    assert(jv_members(tool@) =~= motion_marks_tool()->Object_0);
    Json::Object(tool)
}

pub open spec fn motion_export_props() -> Seq<(Seq<char>, JsonV)> {
    seq![
        ("path"@, text_prop("Optional show.lot directory. Opens it, then runs. Omit to keep current."@)),
    ]
}

pub open spec fn motion_export_schema() -> Seq<(Seq<char>, JsonV)> {
    seq![
        ("type"@, JsonV::Str("object"@)),
        ("properties"@, JsonV::Object(motion_export_props())),
    ]
}

/// The `lot_motion_export` tool.
pub open spec fn motion_export_tool() -> JsonV {
    JsonV::Object(
        seq![
            ("name"@, JsonV::Str("lot_motion_export"@)),
            ("description"@, JsonV::Str("Write motion/previs.json + prompt.md from plates and marks."@)),
            ("inputSchema"@, JsonV::Object(motion_export_schema())),
        ],
    )
}

fn motion_export_tool_json() -> (r: Json)
    ensures
        jv(r) == motion_export_tool(),
{
    let mut props: Vec<(String, Json)> = Vec::new();
    proof {
        lemma_no_members(props@);
    }
    put(&mut props, "path", text_prop_json("Optional show.lot directory. Opens it, then runs. Omit to keep current."));
    assert(jv_members(props@) =~= motion_export_props());
    let mut schema: Vec<(String, Json)> = Vec::new();
    proof {
        lemma_no_members(schema@);
    }
    put(&mut schema, "type", text("object"));
    put(&mut schema, "properties", Json::Object(props));
    assert(jv_members(schema@) =~= motion_export_schema());
    let mut tool: Vec<(String, Json)> = Vec::new();
    proof {
        lemma_no_members(tool@);
    }
    put(&mut tool, "name", text("lot_motion_export"));
    put(&mut tool, "description", text("Write motion/previs.json + prompt.md from plates and marks."));
    put(&mut tool, "inputSchema", Json::Object(schema));
    assert(jv_members(tool@) =~= motion_export_tool()->Object_0);
    Json::Object(tool)
}

pub open spec fn motion_analyze_props() -> Seq<(Seq<char>, JsonV)> {
    seq![
        ("shot"@, typed_prop("string"@)),
        ("path"@, text_prop("Optional show.lot directory. Opens it, then runs. Omit to keep current."@)),
    ]
}

pub open spec fn motion_analyze_schema() -> Seq<(Seq<char>, JsonV)> {
    seq![
        ("type"@, JsonV::Str("object"@)),
        ("properties"@, JsonV::Object(motion_analyze_props())),
        ("required"@, JsonV::Array(seq![JsonV::Str("shot"@)])),
    ]
}

/// The `lot_motion_analyze` tool.
pub open spec fn motion_analyze_tool() -> JsonV {
    JsonV::Object(
        seq![
            ("name"@, JsonV::Str("lot_motion_analyze"@)),
            ("description"@, JsonV::Str("Probe a plate (ffprobe or LOT_MOTION_CMD). Does not invent pose/depth. Studio MCP stays the engine for OpenPose."@)),
            ("inputSchema"@, JsonV::Object(motion_analyze_schema())),
        ],
    )
}

fn motion_analyze_tool_json() -> (r: Json)
    ensures
        jv(r) == motion_analyze_tool(),
{
    let mut props: Vec<(String, Json)> = Vec::new();
    proof {
        lemma_no_members(props@);
    }
    put(&mut props, "shot", typed_prop_json("string"));
    put(&mut props, "path", text_prop_json("Optional show.lot directory. Opens it, then runs. Omit to keep current."));
    assert(jv_members(props@) =~= motion_analyze_props());
    let mut schema: Vec<(String, Json)> = Vec::new();
    proof {
        lemma_no_members(schema@);
    }
    put(&mut schema, "type", text("object"));
    put(&mut schema, "properties", Json::Object(props));
    let mut req: Vec<Json> = Vec::new();
    proof {
        lemma_no_items(req@);
    }
    push_item(&mut req, text("shot"));
    assert(jv_seq(req@) =~= seq![JsonV::Str("shot"@)]);
    put(&mut schema, "required", Json::Array(req));
    assert(jv_members(schema@) =~= motion_analyze_schema());
    let mut tool: Vec<(String, Json)> = Vec::new();
    proof {
        lemma_no_members(tool@);
    }
    put(&mut tool, "name", text("lot_motion_analyze"));
    put(&mut tool, "description", text("Probe a plate (ffprobe or LOT_MOTION_CMD). Does not invent pose/depth. Studio MCP stays the engine for OpenPose."));
    put(&mut tool, "inputSchema", Json::Object(schema));
    assert(jv_members(tool@) =~= motion_analyze_tool()->Object_0);
    Json::Object(tool)
}

pub open spec fn finish_props() -> Seq<(Seq<char>, JsonV)> {
    seq![
        ("file"@, typed_prop("string"@)),
        ("upscale"@, typed_prop("boolean"@)),
        ("fps"@, typed_prop("string"@)),
        ("path"@, text_prop("Optional show.lot directory. Opens it, then runs. Omit to keep current."@)),
    ]
}

pub open spec fn finish_schema() -> Seq<(Seq<char>, JsonV)> {
    seq![
        ("type"@, JsonV::Str("object"@)),
        ("properties"@, JsonV::Object(finish_props())),
    ]
}

/// The `lot_finish` tool.
pub open spec fn finish_tool() -> JsonV {
    JsonV::Object(
        seq![
            ("name"@, JsonV::Str("lot_finish"@)),
            ("description"@, JsonV::Str("Optional end-of-pipeline upscale and/or FPS pickup via ffmpeg or LOT_UPSCALE_CMD. Never a stub."@)),
            ("inputSchema"@, JsonV::Object(finish_schema())),
        ],
    )
}

fn finish_tool_json() -> (r: Json)
    ensures
        jv(r) == finish_tool(),
{
    let mut props: Vec<(String, Json)> = Vec::new();
    proof {
        lemma_no_members(props@);
    }
    put(&mut props, "file", typed_prop_json("string"));
    put(&mut props, "upscale", typed_prop_json("boolean"));
    put(&mut props, "fps", typed_prop_json("string"));
    put(&mut props, "path", text_prop_json("Optional show.lot directory. Opens it, then runs. Omit to keep current."));
    assert(jv_members(props@) =~= finish_props());
    let mut schema: Vec<(String, Json)> = Vec::new();
    proof {
        lemma_no_members(schema@);
    }
    put(&mut schema, "type", text("object"));
    put(&mut schema, "properties", Json::Object(props));
    assert(jv_members(schema@) =~= finish_schema());
    let mut tool: Vec<(String, Json)> = Vec::new();
    proof {
        lemma_no_members(tool@);
    }
    put(&mut tool, "name", text("lot_finish"));
    put(&mut tool, "description", text("Optional end-of-pipeline upscale and/or FPS pickup via ffmpeg or LOT_UPSCALE_CMD. Never a stub."));
    put(&mut tool, "inputSchema", Json::Object(schema));
    assert(jv_members(tool@) =~= finish_tool()->Object_0);
    Json::Object(tool)
}

pub open spec fn dailies_ingest_props() -> Seq<(Seq<char>, JsonV)> {
    seq![
        ("file"@, typed_prop("string"@)),
        ("dir"@, typed_prop("string"@)),
        ("path"@, text_prop("Optional show.lot directory. Opens it, then runs. Omit to keep current."@)),
    ]
}

pub open spec fn dailies_ingest_schema() -> Seq<(Seq<char>, JsonV)> {
    seq![
        ("type"@, JsonV::Str("object"@)),
        ("properties"@, JsonV::Object(dailies_ingest_props())),
    ]
}

/// The `lot_dailies_ingest` tool.
pub open spec fn dailies_ingest_tool() -> JsonV {
    JsonV::Object(
        seq![
            ("name"@, JsonV::Str("lot_dailies_ingest"@)),
            ("description"@, JsonV::Str("Ingest a clip by filename prefix (01-foo.mp4 → shot 01). Does not rename the shot to 01."@)),
            ("inputSchema"@, JsonV::Object(dailies_ingest_schema())),
        ],
    )
}

fn dailies_ingest_tool_json() -> (r: Json)
    ensures
        jv(r) == dailies_ingest_tool(),
{
    let mut props: Vec<(String, Json)> = Vec::new();
    proof {
        lemma_no_members(props@);
    }
    put(&mut props, "file", typed_prop_json("string"));
    put(&mut props, "dir", typed_prop_json("string"));
    put(&mut props, "path", text_prop_json("Optional show.lot directory. Opens it, then runs. Omit to keep current."));
    assert(jv_members(props@) =~= dailies_ingest_props());
    let mut schema: Vec<(String, Json)> = Vec::new();
    proof {
        lemma_no_members(schema@);
    }
    put(&mut schema, "type", text("object"));
    put(&mut schema, "properties", Json::Object(props));
    assert(jv_members(schema@) =~= dailies_ingest_schema());
    let mut tool: Vec<(String, Json)> = Vec::new();
    proof {
        lemma_no_members(tool@);
    }
    put(&mut tool, "name", text("lot_dailies_ingest"));
    put(&mut tool, "description", text("Ingest a clip by filename prefix (01-foo.mp4 → shot 01). Does not rename the shot to 01."));
    put(&mut tool, "inputSchema", Json::Object(schema));
    assert(jv_members(tool@) =~= dailies_ingest_tool()->Object_0);
    Json::Object(tool)
}

pub open spec fn dailies_circle_props() -> Seq<(Seq<char>, JsonV)> {
    seq![
        ("take"@, typed_prop("string"@)),
        ("path"@, text_prop("Optional show.lot directory. Opens it, then runs. Omit to keep current."@)),
        ("cap"@, text_prop("Agent caps: read | write | render | export | spend | all. Unset = all. AC-012."@)),
    ]
}

pub open spec fn dailies_circle_schema() -> Seq<(Seq<char>, JsonV)> {
    seq![
        ("type"@, JsonV::Str("object"@)),
        ("properties"@, JsonV::Object(dailies_circle_props())),
        ("required"@, JsonV::Array(seq![JsonV::Str("take"@)])),
    ]
}

/// The `lot_dailies_circle` tool.
pub open spec fn dailies_circle_tool() -> JsonV {
    JsonV::Object(
        seq![
            ("name"@, JsonV::Str("lot_dailies_circle"@)),
            ("description"@, JsonV::Str("Circle a take by id. Requires take. No GUI."@)),
            ("inputSchema"@, JsonV::Object(dailies_circle_schema())),
        ],
    )
}

fn dailies_circle_tool_json() -> (r: Json)
    ensures
        jv(r) == dailies_circle_tool(),
{
    let mut props: Vec<(String, Json)> = Vec::new();
    proof {
        lemma_no_members(props@);
    }
    put(&mut props, "take", typed_prop_json("string"));
    put(&mut props, "path", text_prop_json("Optional show.lot directory. Opens it, then runs. Omit to keep current."));
    put(&mut props, "cap", text_prop_json("Agent caps: read | write | render | export | spend | all. Unset = all. AC-012."));
    assert(jv_members(props@) =~= dailies_circle_props());
    let mut schema: Vec<(String, Json)> = Vec::new();
    proof {
        lemma_no_members(schema@);
    }
    put(&mut schema, "type", text("object"));
    put(&mut schema, "properties", Json::Object(props));
    let mut req: Vec<Json> = Vec::new();
    proof {
        lemma_no_items(req@);
    }
    push_item(&mut req, text("take"));
    assert(jv_seq(req@) =~= seq![JsonV::Str("take"@)]);
    put(&mut schema, "required", Json::Array(req));
    assert(jv_members(schema@) =~= dailies_circle_schema());
    let mut tool: Vec<(String, Json)> = Vec::new();
    proof {
        lemma_no_members(tool@);
    }
    put(&mut tool, "name", text("lot_dailies_circle"));
    put(&mut tool, "description", text("Circle a take by id. Requires take. No GUI."));
    put(&mut tool, "inputSchema", Json::Object(schema));
    assert(jv_members(tool@) =~= dailies_circle_tool()->Object_0);
    Json::Object(tool)
}

pub open spec fn dailies_export_props() -> Seq<(Seq<char>, JsonV)> {
    seq![
        ("path"@, text_prop("Optional show.lot directory. Opens it, then runs. Omit to keep current."@)),
    ]
}

pub open spec fn dailies_export_schema() -> Seq<(Seq<char>, JsonV)> {
    seq![
        ("type"@, JsonV::Str("object"@)),
        ("properties"@, JsonV::Object(dailies_export_props())),
    ]
}

/// The `lot_dailies_export` tool.
pub open spec fn dailies_export_tool() -> JsonV {
    JsonV::Object(
        seq![
            ("name"@, JsonV::Str("lot_dailies_export"@)),
            ("description"@, JsonV::Str("Export circled takes as FCPXML."@)),
            ("inputSchema"@, JsonV::Object(dailies_export_schema())),
        ],
    )
}

fn dailies_export_tool_json() -> (r: Json)
    ensures
        jv(r) == dailies_export_tool(),
{
    let mut props: Vec<(String, Json)> = Vec::new();
    proof {
        lemma_no_members(props@);
    }
    put(&mut props, "path", text_prop_json("Optional show.lot directory. Opens it, then runs. Omit to keep current."));
    assert(jv_members(props@) =~= dailies_export_props());
    let mut schema: Vec<(String, Json)> = Vec::new();
    proof {
        lemma_no_members(schema@);
    }
    put(&mut schema, "type", text("object"));
    put(&mut schema, "properties", Json::Object(props));
    assert(jv_members(schema@) =~= dailies_export_schema());
    let mut tool: Vec<(String, Json)> = Vec::new();
    proof {
        lemma_no_members(tool@);
    }
    put(&mut tool, "name", text("lot_dailies_export"));
    put(&mut tool, "description", text("Export circled takes as FCPXML."));
    put(&mut tool, "inputSchema", Json::Object(schema));
    assert(jv_members(tool@) =~= dailies_export_tool()->Object_0);
    Json::Object(tool)
}

pub open spec fn cut_export_props() -> Seq<(Seq<char>, JsonV)> {
    seq![
        ("path"@, text_prop("Optional show.lot directory. Opens it, then runs. Omit to keep current."@)),
    ]
}

pub open spec fn cut_export_schema() -> Seq<(Seq<char>, JsonV)> {
    seq![
        ("type"@, JsonV::Str("object"@)),
        ("properties"@, JsonV::Object(cut_export_props())),
    ]
}

/// The `lot_cut_export` tool.
pub open spec fn cut_export_tool() -> JsonV {
    JsonV::Object(
        seq![
            ("name"@, JsonV::Str("lot_cut_export"@)),
            ("description"@, JsonV::Str("Cut interchange: same as dailies export (FCPXML). Resolve live is an adapter later."@)),
            ("inputSchema"@, JsonV::Object(cut_export_schema())),
        ],
    )
}

fn cut_export_tool_json() -> (r: Json)
    ensures
        jv(r) == cut_export_tool(),
{
    let mut props: Vec<(String, Json)> = Vec::new();
    proof {
        lemma_no_members(props@);
    }
    put(&mut props, "path", text_prop_json("Optional show.lot directory. Opens it, then runs. Omit to keep current."));
    assert(jv_members(props@) =~= cut_export_props());
    let mut schema: Vec<(String, Json)> = Vec::new();
    proof {
        lemma_no_members(schema@);
    }
    put(&mut schema, "type", text("object"));
    put(&mut schema, "properties", Json::Object(props));
    assert(jv_members(schema@) =~= cut_export_schema());
    let mut tool: Vec<(String, Json)> = Vec::new();
    proof {
        lemma_no_members(tool@);
    }
    put(&mut tool, "name", text("lot_cut_export"));
    put(&mut tool, "description", text("Cut interchange: same as dailies export (FCPXML). Resolve live is an adapter later."));
    put(&mut tool, "inputSchema", Json::Object(schema));
    assert(jv_members(tool@) =~= cut_export_tool()->Object_0);
    Json::Object(tool)
}

pub open spec fn stems_soundtrack_props() -> Seq<(Seq<char>, JsonV)> {
    seq![
        ("brief"@, typed_prop("string"@)),
        ("file"@, typed_prop("string"@)),
        ("generate"@, typed_prop("boolean"@)),
        ("path"@, text_prop("Optional show.lot directory. Opens it, then runs. Omit to keep current."@)),
    ]
}

pub open spec fn stems_soundtrack_schema() -> Seq<(Seq<char>, JsonV)> {
    seq![
        ("type"@, JsonV::Str("object"@)),
        ("properties"@, JsonV::Object(stems_soundtrack_props())),
    ]
}

/// The `lot_stems_soundtrack` tool.
pub open spec fn stems_soundtrack_tool() -> JsonV {
    JsonV::Object(
        seq![
            ("name"@, JsonV::Str("lot_stems_soundtrack"@)),
            ("description"@, JsonV::Str("Write a soundtrack cue (Grok/local if up). Attach --file or LOT_SOUNDTRACK_CMD to generate audio. Never a fake track."@)),
            ("inputSchema"@, JsonV::Object(stems_soundtrack_schema())),
        ],
    )
}

fn stems_soundtrack_tool_json() -> (r: Json)
    ensures
        jv(r) == stems_soundtrack_tool(),
{
    let mut props: Vec<(String, Json)> = Vec::new();
    proof {
        lemma_no_members(props@);
    }
    put(&mut props, "brief", typed_prop_json("string"));
    put(&mut props, "file", typed_prop_json("string"));
    put(&mut props, "generate", typed_prop_json("boolean"));
    put(&mut props, "path", text_prop_json("Optional show.lot directory. Opens it, then runs. Omit to keep current."));
    assert(jv_members(props@) =~= stems_soundtrack_props());
    let mut schema: Vec<(String, Json)> = Vec::new();
    proof {
        lemma_no_members(schema@);
    }
    put(&mut schema, "type", text("object"));
    put(&mut schema, "properties", Json::Object(props));
    assert(jv_members(schema@) =~= stems_soundtrack_schema());
    let mut tool: Vec<(String, Json)> = Vec::new();
    proof {
        lemma_no_members(tool@);
    }
    put(&mut tool, "name", text("lot_stems_soundtrack"));
    put(&mut tool, "description", text("Write a soundtrack cue (Grok/local if up). Attach --file or LOT_SOUNDTRACK_CMD to generate audio. Never a fake track."));
    put(&mut tool, "inputSchema", Json::Object(schema));
    assert(jv_members(tool@) =~= stems_soundtrack_tool()->Object_0);
    Json::Object(tool)
}

pub open spec fn stems_vo_props() -> Seq<(Seq<char>, JsonV)> {
    seq![
        ("text"@, typed_prop("string"@)),
        ("file"@, typed_prop("string"@)),
        ("generate"@, typed_prop("boolean"@)),
        ("path"@, text_prop("Optional show.lot directory. Opens it, then runs. Omit to keep current."@)),
    ]
}

pub open spec fn stems_vo_schema() -> Seq<(Seq<char>, JsonV)> {
    seq![
        ("type"@, JsonV::Str("object"@)),
        ("properties"@, JsonV::Object(stems_vo_props())),
    ]
}

/// The `lot_stems_vo` tool.
pub open spec fn stems_vo_tool() -> JsonV {
    JsonV::Object(
        seq![
            ("name"@, JsonV::Str("lot_stems_vo"@)),
            ("description"@, JsonV::Str("Voiceover: set text, attach a file, or generate via local TTS (SAPI / piper / espeak / say)."@)),
            ("inputSchema"@, JsonV::Object(stems_vo_schema())),
        ],
    )
}

fn stems_vo_tool_json() -> (r: Json)
    ensures
        jv(r) == stems_vo_tool(),
{
    let mut props: Vec<(String, Json)> = Vec::new();
    proof {
        lemma_no_members(props@);
    }
    put(&mut props, "text", typed_prop_json("string"));
    put(&mut props, "file", typed_prop_json("string"));
    put(&mut props, "generate", typed_prop_json("boolean"));
    put(&mut props, "path", text_prop_json("Optional show.lot directory. Opens it, then runs. Omit to keep current."));
    assert(jv_members(props@) =~= stems_vo_props());
    let mut schema: Vec<(String, Json)> = Vec::new();
    proof {
        lemma_no_members(schema@);
    }
    put(&mut schema, "type", text("object"));
    put(&mut schema, "properties", Json::Object(props));
    assert(jv_members(schema@) =~= stems_vo_schema());
    let mut tool: Vec<(String, Json)> = Vec::new();
    proof {
        lemma_no_members(tool@);
    }
    put(&mut tool, "name", text("lot_stems_vo"));
    put(&mut tool, "description", text("Voiceover: set text, attach a file, or generate via local TTS (SAPI / piper / espeak / say)."));
    put(&mut tool, "inputSchema", Json::Object(schema));
    assert(jv_members(tool@) =~= stems_vo_tool()->Object_0);
    Json::Object(tool)
}

pub open spec fn snapshot_props() -> Seq<(Seq<char>, JsonV)> {
    seq![
        ("list"@, typed_prop("boolean"@)),
        ("path"@, text_prop("Optional show.lot directory. Opens it, then runs. Omit to keep current."@)),
    ]
}

pub open spec fn snapshot_schema() -> Seq<(Seq<char>, JsonV)> {
    seq![
        ("type"@, JsonV::Str("object"@)),
        ("properties"@, JsonV::Object(snapshot_props())),
    ]
}

/// The `lot_snapshot` tool.
pub open spec fn snapshot_tool() -> JsonV {
    JsonV::Object(
        seq![
            ("name"@, JsonV::Str("lot_snapshot"@)),
            ("description"@, JsonV::Str("Freeze show.json + fountain at the current rev. list=true lists revs."@)),
            ("inputSchema"@, JsonV::Object(snapshot_schema())),
        ],
    )
}

fn snapshot_tool_json() -> (r: Json)
    ensures
        jv(r) == snapshot_tool(),
{
    let mut props: Vec<(String, Json)> = Vec::new();
    proof {
        lemma_no_members(props@);
    }
    put(&mut props, "list", typed_prop_json("boolean"));
    put(&mut props, "path", text_prop_json("Optional show.lot directory. Opens it, then runs. Omit to keep current."));
    assert(jv_members(props@) =~= snapshot_props());
    let mut schema: Vec<(String, Json)> = Vec::new();
    proof {
        lemma_no_members(schema@);
    }
    put(&mut schema, "type", text("object"));
    put(&mut schema, "properties", Json::Object(props));
    assert(jv_members(schema@) =~= snapshot_schema());
    let mut tool: Vec<(String, Json)> = Vec::new();
    proof {
        lemma_no_members(tool@);
    }
    put(&mut tool, "name", text("lot_snapshot"));
    put(&mut tool, "description", text("Freeze show.json + fountain at the current rev. list=true lists revs."));
    put(&mut tool, "inputSchema", Json::Object(schema));
    assert(jv_members(tool@) =~= snapshot_tool()->Object_0);
    Json::Object(tool)
}

pub open spec fn restore_props() -> Seq<(Seq<char>, JsonV)> {
    seq![
        ("rev"@, typed_prop("integer"@)),
        ("path"@, text_prop("Optional show.lot directory. Opens it, then runs. Omit to keep current."@)),
    ]
}

pub open spec fn restore_schema() -> Seq<(Seq<char>, JsonV)> {
    seq![
        ("type"@, JsonV::Str("object"@)),
        ("properties"@, JsonV::Object(restore_props())),
        ("required"@, JsonV::Array(seq![JsonV::Str("rev"@)])),
    ]
}

/// The `lot_restore` tool.
pub open spec fn restore_tool() -> JsonV {
    JsonV::Object(
        seq![
            ("name"@, JsonV::Str("lot_restore"@)),
            ("description"@, JsonV::Str("Restore a snapshot by rev. Later drafts do not eat earlier ones."@)),
            ("inputSchema"@, JsonV::Object(restore_schema())),
        ],
    )
}

fn restore_tool_json() -> (r: Json)
    ensures
        jv(r) == restore_tool(),
{
    let mut props: Vec<(String, Json)> = Vec::new();
    proof {
        lemma_no_members(props@);
    }
    put(&mut props, "rev", typed_prop_json("integer"));
    put(&mut props, "path", text_prop_json("Optional show.lot directory. Opens it, then runs. Omit to keep current."));
    assert(jv_members(props@) =~= restore_props());
    let mut schema: Vec<(String, Json)> = Vec::new();
    proof {
        lemma_no_members(schema@);
    }
    put(&mut schema, "type", text("object"));
    put(&mut schema, "properties", Json::Object(props));
    let mut req: Vec<Json> = Vec::new();
    proof {
        lemma_no_items(req@);
    }
    push_item(&mut req, text("rev"));
    assert(jv_seq(req@) =~= seq![JsonV::Str("rev"@)]);
    put(&mut schema, "required", Json::Array(req));
    assert(jv_members(schema@) =~= restore_schema());
    let mut tool: Vec<(String, Json)> = Vec::new();
    proof {
        lemma_no_members(tool@);
    }
    put(&mut tool, "name", text("lot_restore"));
    put(&mut tool, "description", text("Restore a snapshot by rev. Later drafts do not eat earlier ones."));
    put(&mut tool, "inputSchema", Json::Object(schema));
    assert(jv_members(tool@) =~= restore_tool()->Object_0);
    Json::Object(tool)
}

pub open spec fn help_props() -> Seq<(Seq<char>, JsonV)> {
    seq![]
}

pub open spec fn help_schema() -> Seq<(Seq<char>, JsonV)> {
    seq![
        ("type"@, JsonV::Str("object"@)),
        ("properties"@, JsonV::Object(help_props())),
    ]
}

/// The `lot_help` tool.
pub open spec fn help_tool() -> JsonV {
    JsonV::Object(
        seq![
            ("name"@, JsonV::Str("lot_help"@)),
            ("description"@, JsonV::Str("Machine-readable spec. The binary is the contract."@)),
            ("inputSchema"@, JsonV::Object(help_schema())),
        ],
    )
}

fn help_tool_json() -> (r: Json)
    ensures
        jv(r) == help_tool(),
{
    let mut props: Vec<(String, Json)> = Vec::new();
    proof {
        lemma_no_members(props@);
    }
    assert(jv_members(props@) =~= help_props());
    let mut schema: Vec<(String, Json)> = Vec::new();
    proof {
        lemma_no_members(schema@);
    }
    put(&mut schema, "type", text("object"));
    put(&mut schema, "properties", Json::Object(props));
    assert(jv_members(schema@) =~= help_schema());
    let mut tool: Vec<(String, Json)> = Vec::new();
    proof {
        lemma_no_members(tool@);
    }
    put(&mut tool, "name", text("lot_help"));
    put(&mut tool, "description", text("Machine-readable spec. The binary is the contract."));
    put(&mut tool, "inputSchema", Json::Object(schema));
    assert(jv_members(tool@) =~= help_tool()->Object_0);
    Json::Object(tool)
}

pub open spec fn doctor_props() -> Seq<(Seq<char>, JsonV)> {
    seq![]
}

pub open spec fn doctor_schema() -> Seq<(Seq<char>, JsonV)> {
    seq![
        ("type"@, JsonV::Str("object"@)),
        ("properties"@, JsonV::Object(doctor_props())),
    ]
}

/// The `lot_doctor` tool.
pub open spec fn doctor_tool() -> JsonV {
    JsonV::Object(
        seq![
            ("name"@, JsonV::Str("lot_doctor"@)),
            ("description"@, JsonV::Str("Probe ffmpeg, Comfy, Grok, Ollama (LLM + vision), VO TTS, soundtrack, prompt server, Motion Previs, Blockout, upscale."@)),
            ("inputSchema"@, JsonV::Object(doctor_schema())),
        ],
    )
}

fn doctor_tool_json() -> (r: Json)
    ensures
        jv(r) == doctor_tool(),
{
    let mut props: Vec<(String, Json)> = Vec::new();
    proof {
        lemma_no_members(props@);
    }
    assert(jv_members(props@) =~= doctor_props());
    let mut schema: Vec<(String, Json)> = Vec::new();
    proof {
        lemma_no_members(schema@);
    }
    put(&mut schema, "type", text("object"));
    put(&mut schema, "properties", Json::Object(props));
    assert(jv_members(schema@) =~= doctor_schema());
    let mut tool: Vec<(String, Json)> = Vec::new();
    proof {
        lemma_no_members(tool@);
    }
    put(&mut tool, "name", text("lot_doctor"));
    put(&mut tool, "description", text("Probe ffmpeg, Comfy, Grok, Ollama (LLM + vision), VO TTS, soundtrack, prompt server, Motion Previs, Blockout, upscale."));
    put(&mut tool, "inputSchema", Json::Object(schema));
    assert(jv_members(tool@) =~= doctor_tool()->Object_0);
    Json::Object(tool)
}

/// The tool catalogue that `tools/list` answers, in order.
pub open spec fn spec_tools_list() -> JsonV {
    JsonV::Array(
        seq![
            status_tool(),
            create_tool(),
            open_tool(),
            writer_brief_tool(),
            writer_style_tool(),
            writer_cast_tool(),
            writer_draft_tool(),
            writer_revise_tool(),
            writer_lock_tool(),
            writer_unlock_tool(),
            breakdown_import_tool(),
            breakdown_parse_tool(),
            wall_add_tool(),
            stage_place_tool(),
            stage_camera_tool(),
            stage_export_tool(),
            picture_lock_tool(),
            stills_generate_tool(),
            stills_describe_tool(),
            board_export_tool(),
            slate_set_tool(),
            slate_compile_tool(),
            slate_target_tool(),
            slate_lora_tool(),
            motion_plate_tool(),
            motion_marks_tool(),
            motion_export_tool(),
            motion_analyze_tool(),
            finish_tool(),
            dailies_ingest_tool(),
            dailies_circle_tool(),
            dailies_export_tool(),
            cut_export_tool(),
            stems_soundtrack_tool(),
            stems_vo_tool(),
            snapshot_tool(),
            restore_tool(),
            help_tool(),
            doctor_tool(),
        ],
    )
}

/// The tool catalogue: each tool's name, description and input schema.
#[verifier::spinoff_prover]
#[verifier::rlimit(100)]
pub fn tools_list() -> (r: Json)
    ensures
        jv(r) == spec_tools_list(),
{
    let mut xs: Vec<Json> = Vec::new();
    proof {
        lemma_no_items(xs@);
    }
    push_item(&mut xs, status_tool_json());
    push_item(&mut xs, create_tool_json());
    push_item(&mut xs, open_tool_json());
    push_item(&mut xs, writer_brief_tool_json());
    push_item(&mut xs, writer_style_tool_json());
    push_item(&mut xs, writer_cast_tool_json());
    push_item(&mut xs, writer_draft_tool_json());
    push_item(&mut xs, writer_revise_tool_json());
    push_item(&mut xs, writer_lock_tool_json());
    push_item(&mut xs, writer_unlock_tool_json());
    push_item(&mut xs, breakdown_import_tool_json());
    push_item(&mut xs, breakdown_parse_tool_json());
    push_item(&mut xs, wall_add_tool_json());
    push_item(&mut xs, stage_place_tool_json());
    push_item(&mut xs, stage_camera_tool_json());
    push_item(&mut xs, stage_export_tool_json());
    push_item(&mut xs, picture_lock_tool_json());
    push_item(&mut xs, stills_generate_tool_json());
    push_item(&mut xs, stills_describe_tool_json());
    push_item(&mut xs, board_export_tool_json());
    push_item(&mut xs, slate_set_tool_json());
    push_item(&mut xs, slate_compile_tool_json());
    push_item(&mut xs, slate_target_tool_json());
    push_item(&mut xs, slate_lora_tool_json());
    push_item(&mut xs, motion_plate_tool_json());
    push_item(&mut xs, motion_marks_tool_json());
    push_item(&mut xs, motion_export_tool_json());
    push_item(&mut xs, motion_analyze_tool_json());
    push_item(&mut xs, finish_tool_json());
    push_item(&mut xs, dailies_ingest_tool_json());
    push_item(&mut xs, dailies_circle_tool_json());
    push_item(&mut xs, dailies_export_tool_json());
    push_item(&mut xs, cut_export_tool_json());
    push_item(&mut xs, stems_soundtrack_tool_json());
    push_item(&mut xs, stems_vo_tool_json());
    push_item(&mut xs, snapshot_tool_json());
    push_item(&mut xs, restore_tool_json());
    push_item(&mut xs, help_tool_json());
    push_item(&mut xs, doctor_tool_json());
    assert(jv_seq(xs@) =~= spec_tools_list()->Array_0);
    Json::Array(xs)
}

} // verus!
