//! A2UI: the declarative UI an agent streams for a renderer to draw, and the
//! retry prompt that tells a generating model what was wrong with its last
//! attempt.

use vstd::prelude::*;

use crate::data_model::{
    apply_data_model_update, data_model_updated, find_member, key_position, members_model,
    with_member, JsonTree, PointerError,
};
use crate::text::{cat, trim_end, trimmed, unicode_white_space};

verus! {

/// Payload of a `deleteSurface` message.
#[derive(Debug, Clone, PartialEq, Eq)]
pub struct DeleteSurface {
    /// Surface to remove.
    pub surface_id: String,
}

/// Payload of an `error` message from the renderer.
#[derive(Debug, Clone, PartialEq, Eq)]
pub struct RendererError {
    /// Machine-readable code, e.g. `VALIDATION_FAILED`, `UNALLOWED_PARENT`.
    pub code: String,
    /// One or two sentences the agent (or its model) can act on.
    pub message: String,
    /// Surface the error relates to, for surface-scoped errors.
    pub surface_id: Option<String>,
    /// JSON Pointer to the offending field, for validation errors.
    pub path: Option<String>,
    /// Correlation id, for errors raised while running a function call.
    pub function_call_id: Option<String>,
}

/// The template form of a [`ChildList`]: one component instantiated once
/// per item of the array at `path`.
#[derive(Debug, Clone, PartialEq, Eq)]
pub struct ChildTemplate {
    /// Id of the component to instantiate per item.
    pub component_id: String,
    /// JSON Pointer to the array to iterate.
    pub path: String,
}

/// How a component declares its children: a static list of ids, or a
/// template.
#[derive(Debug, Clone, PartialEq, Eq)]
pub enum ChildList {
    /// A fixed set of child component ids.
    Ids(Vec<String>),
    /// A template instantiated once per element of a bound array.
    Template(ChildTemplate),
}

impl ChildList {
    /// The ids this child list references, as text.
    pub open spec fn referenced(&self) -> Seq<Seq<char>> {
        match self {
            ChildList::Ids(ids) => ids@.map_values(|s: String| s@),
            ChildList::Template(t) => seq![t.component_id@],
        }
    }

    /// Every component id this child list references, in order.
    pub fn referenced_ids(&self) -> (ids: Vec<&str>)
        ensures
            ids@.map_values(|s: &str| s@) == self.referenced(),
    {
        let mut out: Vec<&str> = Vec::new();
        match self {
            ChildList::Ids(ids) => {
                let mut i: usize = 0;
                while i < ids.len()
                    invariant
                        i <= ids@.len(),
                        out@.len() == i,
                        out@.map_values(|s: &str| s@) == ids@.subrange(0, i as int).map_values(|s: String| s@),
                    decreases ids@.len() - i,
                {
                    let ghost prev = out@;
                    out.push(ids[i].as_str());
                    proof {
                        let lhs = out@.map_values(|s: &str| s@);
                        let rhs = ids@.subrange(0, i as int + 1).map_values(|s: String| s@);
                        assert forall|j: int| 0 <= j < lhs.len() implies lhs[j] == rhs[j] by {
                            if j < i {
                                assert(out@[j] == prev[j]);
                                assert(prev.map_values(|s: &str| s@)[j] == ids@.subrange(0, i as int).map_values(|s: String| s@)[j]);
                            }
                        }
                        assert(lhs =~= rhs);
                    }
                    i = i + 1;
                }
                assert(ids@.subrange(0, ids@.len() as int) =~= ids@);
            },
            ChildList::Template(t) => {
                out.push(t.component_id.as_str());
                assert(out@.map_values(|s: &str| s@) =~= seq![t.component_id@]);
            },
        }
        out
    }
}

/// The A2UI protocol version stamped on every message.
pub const PROTOCOL_VERSION: &'static str = "v0.9";

/// The version a message carries when the wire names none.
pub fn default_version() -> (version: String)
    ensures
        version@ == "v0.9"@,
{
    "v0.9".to_owned()
}

/// The path an `updateDataModel` carries when the wire names none: the
/// whole model.
pub fn root_pointer() -> (path: String)
    ensures
        path@ == "/"@,
{
    "/".to_owned()
}

/// One node of the flat component adjacency list: an id, a component type,
/// and the catalog-defined properties, verbatim.
#[derive(Debug, Clone, PartialEq)]
pub struct Component {
    /// Unique id within the surface; other components reference it by this.
    pub id: String,
    /// Component type name, resolved against the surface's catalog.
    pub component: String,
    /// Catalog-defined properties, in order.
    pub props: Vec<(String, JsonTree)>,
}

impl Component {
    /// A component with no properties yet.
    pub fn new(id: &str, component: &str) -> (c: Self)
        ensures
            c.id@ == id@,
            c.component@ == component@,
            c.props@.len() == 0,
    {
        Component { id: id.to_owned(), component: component.to_owned(), props: Vec::new() }
    }

    /// This component with the property `key` set to `value`: in place
    /// where it is already set, added at the end where it is not.
    pub fn with(self, key: &str, value: JsonTree) -> (c: Self)
        ensures
            c.id == self.id,
            c.component == self.component,
            members_model(c.props@) == with_member(members_model(self.props@), key@, value@),
    {
        let mut c = self;
        let key = key.to_owned();
        let ghost before = members_model(c.props@);
        let ghost value_model = value@;
        match find_member(&c.props, &key) {
            Some(i) => {
                let _replaced = c.props.remove(i);
                c.props.insert(i, (key, value));
                assert(members_model(c.props@) =~= before.update(i as int, (key@, value_model)));
            },
            None => {
                c.props.push((key, value));
                assert(members_model(c.props@) =~= before.push((key@, value_model)));
            },
        }
        c
    }

    /// A copy of this component.
    pub fn duplicate(&self) -> (copy: Self)
        ensures
            copy.id@ == self.id@,
            copy.component@ == self.component@,
            members_model(copy.props@) == members_model(self.props@),
    {
        let mut props: Vec<(String, JsonTree)> = Vec::new();
        let mut i: usize = 0;
        while i < self.props.len()
            invariant
                i <= self.props@.len(),
                props@.len() == i,
                forall|j: int|
                    0 <= j < i ==> (#[trigger] props@[j]).0@ == self.props@[j].0@ && props@[j].1@
                        == self.props@[j].1@,
            decreases self.props@.len() - i,
        {
            props.push((self.props[i].0.clone(), self.props[i].1.duplicate()));
            i = i + 1;
        }
        assert(members_model(props@) =~= members_model(self.props@));
        Component { id: self.id.clone(), component: self.component.clone(), props }
    }

    /// The property named `key`, if it is set.
    pub fn prop(&self, key: &str) -> (value: Option<&JsonTree>)
        ensures
            match key_position(members_model(self.props@), key@) {
                Some(i) => value == Some(&self.props@[i].1),
                None => value is None,
            },
    {
        let key = key.to_owned();
        match find_member(&self.props, &key) {
            Some(i) => Some(&self.props[i].1),
            None => None,
        }
    }
}

/// Payload of a `createSurface` message.
#[derive(Debug, Clone, PartialEq)]
pub struct CreateSurface {
    /// Globally unique surface identifier, for the renderer's lifetime.
    pub surface_id: String,
    /// The component catalog this surface speaks; fixed for its life.
    pub catalog_id: String,
    /// Catalog-defined theme parameters.
    pub theme: Option<JsonTree>,
    /// Ask the renderer to echo this surface's data model back with every
    /// message it sends to the creating agent.
    pub send_data_model: Option<bool>,
}

/// Payload of an `updateComponents` message.
#[derive(Debug, Clone, PartialEq)]
pub struct UpdateComponents {
    /// Surface to update. It must already have been created.
    pub surface_id: String,
    /// Flat adjacency list of component definitions.
    pub components: Vec<Component>,
}

/// Payload of an `updateDataModel` message: upsert `value` at `path`.
#[derive(Debug, Clone, PartialEq)]
pub struct UpdateDataModel {
    /// Surface whose data model is being updated.
    pub surface_id: String,
    /// JSON Pointer into the data model; `/` is the whole model.
    pub path: String,
    /// The new value. `null` deletes the key at `path`.
    pub value: JsonTree,
}

impl UpdateDataModel {
    /// Applies this update to a surface data model in place; a path that
    /// cannot be followed is an error and leaves the model as it was.
    pub fn apply(&self, model: &mut JsonTree) -> (result: Result<(), PointerError>)
        ensures
            match data_model_updated(old(model)@, self.path@, self.value@) {
                Ok(after) => result is Ok && final(model)@ == after,
                Err(reason) => result matches Err(e) && e.path@ == trimmed(self.path@)
                    && e.reason@ == reason && final(model)@ == old(model)@,
            },
    {
        apply_data_model_update(model, self.path.as_str(), &self.value)
    }
}

/// A named function invocation.
#[derive(Debug, Clone, PartialEq)]
pub struct FunctionCall {
    /// Function name, e.g. `formatString`, `required`, `@index`.
    pub call: String,
    /// Named arguments.
    pub args: Option<Vec<(String, JsonTree)>>,
    /// Catalog the function is drawn from, when it is not the surface default.
    pub catalog_id: Option<String>,
    /// Expected return type, used to disambiguate overloads on the wire.
    pub return_type: Option<String>,
}

/// Payload of a `callRendererFunction` message.
#[derive(Debug, Clone, PartialEq)]
pub struct CallRendererFunction {
    /// Correlation id; the renderer copies it into its response.
    pub function_call_id: String,
    /// The function to invoke, with its arguments.
    pub call_function: FunctionCall,
}

/// Payload of a `callAgentFunction` message.
#[derive(Debug, Clone, PartialEq)]
pub struct CallAgentFunction {
    /// Surface the call originated from.
    pub surface_id: String,
    /// Correlation id; the agent copies it into its response.
    pub function_call_id: String,
    /// The function to invoke, with its arguments.
    pub call_function: FunctionCall,
}

/// The result of a `call*Function`, sent back by whichever side ran it.
#[derive(Debug, Clone, PartialEq)]
pub struct FunctionResponse {
    /// Correlation id copied from the originating call.
    pub function_call_id: String,
    /// Whatever the function returned.
    pub result: Option<JsonTree>,
    /// Set instead of `result` when the call failed.
    pub error: Option<String>,
}

/// The payload of an [`AgentMessage`], tagged by its wire key.
#[derive(Debug, Clone, PartialEq)]
pub enum AgentPayload {
    /// Create a surface and fix its catalog.
    CreateSurface(CreateSurface),
    /// Add or replace components on a surface.
    UpdateComponents(UpdateComponents),
    /// Upsert part of a surface's data model.
    UpdateDataModel(UpdateDataModel),
    /// Remove a surface entirely.
    DeleteSurface(DeleteSurface),
    /// Ask the renderer to run one of its local functions.
    CallRendererFunction(CallRendererFunction),
    /// Answer a renderer-initiated `callAgentFunction`.
    AgentFunctionResponse(FunctionResponse),
}

/// One agent → renderer message.
#[derive(Debug, Clone, PartialEq)]
pub struct AgentMessage {
    /// Protocol version stamped on the wire.
    pub version: String,
    /// The single payload key that gives this message its type.
    pub payload: AgentPayload,
}

impl AgentMessage {
    /// Wraps a payload with the current protocol version.
    pub fn new(payload: AgentPayload) -> (message: Self)
        ensures
            message.version@ == "v0.9"@,
            message.payload == payload,
    {
        AgentMessage { version: default_version(), payload }
    }

    /// `createSurface`: allocate a surface and fix its `catalogId`.
    pub fn create_surface(surface_id: &str, catalog_id: &str) -> (message: Self)
        ensures
            message.version@ == "v0.9"@,
            message.payload matches AgentPayload::CreateSurface(m) && m.surface_id@ == surface_id@
                && m.catalog_id@ == catalog_id@ && m.theme is None && m.send_data_model is None,
    {
        Self::new(AgentPayload::CreateSurface(CreateSurface {
            surface_id: surface_id.to_owned(),
            catalog_id: catalog_id.to_owned(),
            theme: None,
            send_data_model: None,
        }))
    }

    /// `updateComponents`: add or replace components on an existing surface.
    pub fn update_components(surface_id: &str, components: Vec<Component>) -> (message: Self)
        ensures
            message.version@ == "v0.9"@,
            message.payload matches AgentPayload::UpdateComponents(m) && m.surface_id@ == surface_id@
                && m.components == components,
    {
        Self::new(AgentPayload::UpdateComponents(UpdateComponents {
            surface_id: surface_id.to_owned(),
            components,
        }))
    }

    /// `updateDataModel`: upsert `value` at `path` (JSON Pointer, `/` = whole model).
    pub fn update_data_model(surface_id: &str, path: &str, value: JsonTree) -> (message: Self)
        ensures
            message.version@ == "v0.9"@,
            message.payload matches AgentPayload::UpdateDataModel(m) && m.surface_id@ == surface_id@
                && m.path@ == path@ && m.value == value,
    {
        Self::new(AgentPayload::UpdateDataModel(UpdateDataModel {
            surface_id: surface_id.to_owned(),
            path: path.to_owned(),
            value,
        }))
    }

    /// `deleteSurface`: drop a surface and everything under it.
    pub fn delete_surface(surface_id: &str) -> (message: Self)
        ensures
            message.version@ == "v0.9"@,
            message.payload matches AgentPayload::DeleteSurface(m) && m.surface_id@ == surface_id@,
    {
        Self::new(AgentPayload::DeleteSurface(DeleteSurface { surface_id: surface_id.to_owned() }))
    }

    /// The `surfaceId` this message targets; function-call messages are
    /// addressed by `functionCallId` instead and have none.
    pub fn surface_id(&self) -> (id: Option<&str>)
        ensures
            match self.payload {
                AgentPayload::CreateSurface(m) => id matches Some(s) && s@ == m.surface_id@,
                AgentPayload::UpdateComponents(m) => id matches Some(s) && s@ == m.surface_id@,
                AgentPayload::UpdateDataModel(m) => id matches Some(s) && s@ == m.surface_id@,
                AgentPayload::DeleteSurface(m) => id matches Some(s) && s@ == m.surface_id@,
                _ => id is None,
            },
    {
        match &self.payload {
            AgentPayload::CreateSurface(m) => Some(m.surface_id.as_str()),
            AgentPayload::UpdateComponents(m) => Some(m.surface_id.as_str()),
            AgentPayload::UpdateDataModel(m) => Some(m.surface_id.as_str()),
            AgentPayload::DeleteSurface(m) => Some(m.surface_id.as_str()),
            AgentPayload::CallRendererFunction(_) => None,
            AgentPayload::AgentFunctionResponse(_) => None,
        }
    }
}

/// Payload of an `action` message: a user interacted with a component.
#[derive(Debug, Clone, PartialEq)]
pub struct Action {
    /// Action name, taken from the component's `action.event.name`.
    pub name: String,
    /// Surface the interaction happened on.
    pub surface_id: String,
    /// Component that triggered it.
    pub source_component_id: String,
    /// ISO 8601 timestamp of the interaction.
    pub timestamp: String,
    /// The component's `action.event.context` with all bindings resolved.
    pub context: Vec<(String, JsonTree)>,
    /// Human-readable description of what the user did, if supplied.
    pub user_message: Option<String>,
}

/// The payload of a [`RendererMessage`], tagged by its wire key.
#[derive(Debug, Clone, PartialEq)]
pub enum RendererPayload {
    /// A user interacted with a component that declares an `action`.
    Action(Action),
    /// The renderer wants the agent to run a function on its behalf.
    CallAgentFunction(CallAgentFunction),
    /// Result of an agent-initiated `callRendererFunction`.
    RendererFunctionResponse(FunctionResponse),
    /// The renderer is reporting a problem.
    Error(RendererError),
}

/// One renderer → agent message.
#[derive(Debug, Clone, PartialEq)]
pub struct RendererMessage {
    /// Protocol version stamped on the wire.
    pub version: String,
    /// The single payload key that gives this message its type.
    pub payload: RendererPayload,
}

impl RendererMessage {
    /// Wraps a payload with the current protocol version.
    pub fn new(payload: RendererPayload) -> (message: Self)
        ensures
            message.version@ == "v0.9"@,
            message.payload == payload,
    {
        RendererMessage { version: default_version(), payload }
    }

    /// The `surfaceId` this message relates to, if any.
    pub fn surface_id(&self) -> (id: Option<&str>)
        ensures
            match self.payload {
                RendererPayload::Action(a) => id matches Some(s) && s@ == a.surface_id@,
                RendererPayload::CallAgentFunction(c) => id matches Some(s) && s@ == c.surface_id@,
                RendererPayload::RendererFunctionResponse(_) => id is None,
                RendererPayload::Error(e) => match e.surface_id {
                    Some(t) => id matches Some(s) && s@ == t@,
                    None => id is None,
                },
            },
    {
        match &self.payload {
            RendererPayload::Action(a) => Some(a.surface_id.as_str()),
            RendererPayload::CallAgentFunction(c) => Some(c.surface_id.as_str()),
            RendererPayload::RendererFunctionResponse(_) => None,
            RendererPayload::Error(e) => match &e.surface_id {
                Some(t) => Some(t.as_str()),
                None => None,
            },
        }
    }
}

/// What a validation error is about.
#[derive(Debug, Clone, Copy, PartialEq, Eq, Structural, Hash)]
pub enum ErrorCode {
    /// Two components share an id.
    DuplicateId,
    /// No component has the id `root`.
    NoRoot,
    /// A child reference names no component.
    UnresolvedChild,
    /// Child references form a loop.
    ChildCycle,
}

impl ErrorCode {
    /// The code as it is written in reports: snake case.
    pub open spec fn name(self) -> Seq<char> {
        match self {
            ErrorCode::DuplicateId => "duplicate_id"@,
            ErrorCode::NoRoot => "no_root"@,
            ErrorCode::UnresolvedChild => "unresolved_child"@,
            ErrorCode::ChildCycle => "child_cycle"@,
        }
    }

    /// The code as it is written in reports.
    pub fn as_str(&self) -> (name: &'static str)
        ensures
            name@ == self.name(),
    {
        match self {
            ErrorCode::DuplicateId => "duplicate_id",
            ErrorCode::NoRoot => "no_root",
            ErrorCode::UnresolvedChild => "unresolved_child",
            ErrorCode::ChildCycle => "child_cycle",
        }
    }
}

/// One problem with a generated surface: what kind, where, and how to fix
/// it.
#[derive(Debug, Clone, PartialEq, Eq)]
pub struct ValidationError {
    /// The kind of problem.
    pub code: ErrorCode,
    /// Where it is, e.g. `components[1].child`.
    pub path: String,
    /// A sentence explaining the fix.
    pub message: String,
}

impl ValidationError {
    /// An error of kind `code` at `path`.
    pub fn new(code: ErrorCode, path: &str, message: &str) -> (error: Self)
        ensures
            error.code == code,
            error.path@ == path@,
            error.message@ == message@,
    {
        ValidationError { code, path: path.to_owned(), message: message.to_owned() }
    }
}

/// The rules that keep generated A2UI parseable and renderable.
pub const GENERATION_GUIDELINES: &'static str = "\
- Reply with a flat list of A2UI messages as raw JSON. No prose inside the JSON.
- Every component object is `{\"id\": <unique id>, \"component\": <type>, ...props}`.
- Components are NEVER nested inline. A parent names its children by id.
- Exactly one component must have `\"id\": \"root\"`; it is the top of the tree.
- Order components top-down: `root` first, every parent before its children.
- Reference only ids that exist in the same payload.
- Never create a reference loop: a component must not be its own ancestor.
- Static text goes in the component; only bind to the data model when the value \
is dynamic.
- Data bindings are `{\"path\": \"/pointer\"}` (JSON Pointer, absolute) and must \
point at data you also send.
- Relative paths (no leading `/`) are only valid inside a list template.
- Use only component types and properties from the catalog below.";

/// Whether `trimmed` is `text` without its trailing white space.
pub open spec fn trimmed_end(text: Seq<char>, trimmed: Seq<char>) -> bool {
    &&& trimmed.len() <= text.len()
    &&& trimmed == text.subrange(0, trimmed.len() as int)
    &&& forall|i: int| trimmed.len() <= i < text.len() ==> unicode_white_space(#[trigger] text[i])
    &&& (trimmed.len() == 0 || !unicode_white_space(trimmed.last()))
}

/// Trimming the end of a text gives one result only: the augmented prompt
/// and the formatted list of errors are each fixed by their inputs.
pub proof fn law_trimming_is_unique(text: Seq<char>, a: Seq<char>, b: Seq<char>)
    requires
        trimmed_end(text, a),
        trimmed_end(text, b),
    ensures
        a == b,
{
    if a.len() < b.len() {
        assert(b.last() == text[b.len() - 1]);
    } else if b.len() < a.len() {
        assert(a.last() == text[a.len() - 1]);
    } else {
        assert(a =~= b);
    }
}

/// The line a validation error renders to: code first, then where, then the
/// fix.
pub open spec fn error_line(e: ValidationError) -> Seq<char> {
    "- ["@ + e.code.name() + "] at "@ + e.path@ + ": "@ + e.message@ + "\n"@
}

/// The lines of all the errors, in order.
pub open spec fn error_lines(errors: Seq<ValidationError>) -> Seq<char>
    decreases errors.len(),
{
    if errors.len() == 0 {
        Seq::empty()
    } else {
        error_lines(errors.drop_last()) + error_line(errors.last())
    }
}

/// What a retry prompt's list of problems opens with.
pub open spec fn rejection_header() -> Seq<char> {
    "The previous attempt was rejected. Fix every problem below and return the corrected A2UI, not a diff:\n"@
}

/// Formats validation errors for a retry prompt: nothing when there are
/// none, otherwise a header and one line per error, with the trailing white
/// space removed.
pub fn format_validation_errors(errors: &[ValidationError]) -> (text: String)
    ensures
        errors@.len() == 0 ==> text@ == Seq::<char>::empty(),
        errors@.len() > 0 ==> trimmed_end(rejection_header() + error_lines(errors@), text@),
{
    if errors.len() == 0 {
        return String::new();
    }
    let mut out = "The previous attempt was rejected. Fix every problem below and return the corrected A2UI, not a diff:\n".to_owned();
    let mut i: usize = 0;
    while i < errors.len()
        invariant
            i <= errors@.len(),
            out@ == rejection_header() + error_lines(errors@.subrange(0, i as int)),
        decreases errors@.len() - i,
    {
        let e = &errors[i];
        let line = cat(cat(cat(cat(cat(cat("- [".to_owned(), e.code.as_str()), "] at "), e.path.as_str()), ": "), e.message.as_str()), "\n");
        proof {
            let next = errors@.subrange(0, i as int + 1);
            assert(next.drop_last() =~= errors@.subrange(0, i as int));
            assert(next.last() == errors@[i as int]);
        }
        out = cat(out, line.as_str());
        i = i + 1;
    }
    proof {
        assert(errors@.subrange(0, errors@.len() as int) =~= errors@);
    }
    trim_end(out.as_str()).to_owned()
}

/// What joins a prompt and the problems with the last attempt.
pub open spec fn correction_heading() -> Seq<char> {
    "\n\n## Correction required\n"@
}

/// Appends the errors from a failed attempt to the prompt for the next one;
/// with no errors, the prompt is unchanged.
pub fn augment_prompt_with_errors(prompt: &str, errors: &[ValidationError]) -> (text: String)
    ensures
        errors@.len() == 0 ==> text@ == prompt@,
        errors@.len() > 0 ==> exists|listed: Seq<char>|
            trimmed_end(rejection_header() + error_lines(errors@), listed)
            && text@ == prompt@ + correction_heading() + listed,
{
    if errors.len() == 0 {
        return prompt.to_owned();
    }
    let listed = format_validation_errors(errors);
    let text = cat(cat(prompt.to_owned(), "\n\n## Correction required\n"), listed.as_str());
    assert(trimmed_end(rejection_header() + error_lines(errors@), listed@));
    assert(text@ == prompt@ + correction_heading() + listed@);
    text
}

} // verus!
