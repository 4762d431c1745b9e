//! Assembling the system prompt for the surface-generating model.
//!
//! A prompt has its parts in this order: the role, the task, the generation
//! rules, the design guidance where there is some, the catalog, the
//! conversation so far, the surface currently on screen when updating one,
//! and the response format; they are separated by a blank line.
//!
//! The catalog's instructions and the surface's JSON are rendered by their
//! owners and handed in as text.

use vstd::prelude::*;

use crate::a2ui::GENERATION_GUIDELINES;
use crate::chat::{join_next, joined};
use crate::history::DEFAULT_SURFACE_ID;
use crate::order::texts_view;
use crate::text::{cat, strip_trailing, trim, trim_end, trimmed};

verus! {

/// The tag that opens an A2UI JSON block in a model's answer.
pub const A2UI_OPEN_TAG: &'static str = "<a2ui-json>";

/// The tag that closes an A2UI JSON block.
pub const A2UI_CLOSE_TAG: &'static str = "</a2ui-json>";

/// The id of the component at the top of every surface.
pub const ROOT_ID: &'static str = "root";

/// What `serde_json::to_string_pretty` makes of `value`: the indented JSON
/// text, or `None` where serialising fails. A function of `value` alone.
pub uninterp spec fn pretty_json(value: serde_json::Value) -> Option<Seq<char>>;

/// `serde_json::to_string_pretty`, with the error dropped.
#[verifier::external_body]
fn pretty_text(value: &serde_json::Value) -> (text: Option<String>)
    ensures
        match text {
            Some(t) => pretty_json(*value) == Some(t@),
            None => pretty_json(*value) is None,
        },
{
    serde_json::to_string_pretty(value).ok()
}

/// A data model as a prompt shows it: indented JSON, or `null` where it
/// cannot be written.
pub fn render_data_model(data_model: &serde_json::Value) -> (text: String)
    ensures
        text@ == match pretty_json(*data_model) {
            Some(t) => t,
            None => "null"@,
        },
{
    match pretty_text(data_model) {
        Some(t) => t,
        None => "null".to_owned(),
    }
}

/// Whether a new surface is being built or an existing one edited.
#[derive(Clone, Copy, Debug, PartialEq, Eq, Structural)]
pub enum Intent {
    /// A new surface.
    Create,
    /// An edit of the surface on screen.
    Update,
}

impl Intent {
    /// How the intent is written.
    pub open spec fn name(self) -> Seq<char> {
        match self {
            Intent::Create => "create"@,
            Intent::Update => "update"@,
        }
    }

    /// How the intent is written.
    pub fn as_str(&self) -> (name: &'static str)
        ensures
            name@ == self.name(),
    {
        match self {
            Intent::Create => "create",
            Intent::Update => "update",
        }
    }

    /// How the intent is displayed: its name.
    pub fn to_string(&self) -> (text: String)
        ensures
            text@ == self.name(),
    {
        self.as_str().to_owned()
    }
}

/// A surface on screen, as the prompt shows it: its id, its catalog, and its
/// components and data model already rendered as pretty JSON.
pub struct RenderedSurface {
    /// The surface's id.
    pub surface_id: String,
    /// The catalog it was created with, where known.
    pub catalog_id: Option<String>,
    /// The components, as pretty JSON.
    pub components_json: String,
    /// The data model, as pretty JSON.
    pub data_model_json: String,
}

/// Everything the prompt builder needs besides the catalog.
pub struct PromptSpec {
    /// What the model is.
    pub role: String,
    /// What the user asked for on this turn.
    pub request: String,
    /// Whether a new surface is being built or an existing one edited.
    pub intent: Intent,
    /// The surface id the model should target.
    pub surface_id: String,
    /// Prior conversation turns, oldest first, as `(role, text)`.
    pub conversation: Vec<(String, String)>,
    /// The surface currently on screen, when updating one.
    pub prior_surface: Option<RenderedSurface>,
    /// Extra design guidance from the application.
    pub ui_description: Option<String>,
    /// Whether to spell out the response format with the block tags.
    pub include_response_format: bool,
}

impl PromptSpec {
    /// A spec for building a new surface under the default id: no conversation, no
    /// surface on screen, no design guidance, and the response format
    /// spelled out.
    pub fn new(role: &str, request: &str) -> (spec: Self)
        ensures
            spec.role@ == role@,
            spec.request@ == request@,
            spec.intent == Intent::Create,
            spec.surface_id@ == DEFAULT_SURFACE_ID@,
            spec.conversation@.len() == 0,
            spec.prior_surface is None,
            spec.ui_description is None,
            spec.include_response_format,
    {
        PromptSpec {
            role: role.to_owned(),
            request: request.to_owned(),
            intent: Intent::Create,
            surface_id: DEFAULT_SURFACE_ID.to_owned(),
            conversation: Vec::new(),
            prior_surface: None,
            ui_description: None,
            include_response_format: true,
        }
    }

    /// Points the spec at the surface on screen, switching to update intent.
    pub fn updating(self, prior: RenderedSurface) -> (spec: Self)
        ensures
            spec.intent == Intent::Update,
            spec.surface_id@ == prior.surface_id@,
            spec.prior_surface == Some(prior),
            spec.role == self.role,
            spec.request == self.request,
            spec.conversation == self.conversation,
            spec.ui_description == self.ui_description,
            spec.include_response_format == self.include_response_format,
    {
        let surface_id = prior.surface_id.clone();
        PromptSpec { intent: Intent::Update, surface_id, prior_surface: Some(prior), ..self }
    }

    /// Supplies prior conversation turns.
    pub fn with_conversation(self, conversation: Vec<(String, String)>) -> (spec: Self)
        ensures
            spec == (PromptSpec { conversation, ..self }),
    {
        PromptSpec { conversation, ..self }
    }
}

/// The line naming a surface's catalog, where it is known.
pub open spec fn catalog_line(catalog_id: Option<String>) -> Seq<char> {
    match catalog_id {
        Some(c) => "\ncatalogId: "@ + c@ + " (fixed; it cannot change)"@,
        None => Seq::empty(),
    }
}

/// The section showing the surface on screen, so the model can edit it.
pub open spec fn prior_section(r: RenderedSurface) -> Seq<char> {
    "## Surface currently on screen\nsurfaceId: "@ + r.surface_id@ + catalog_line(r.catalog_id)
        + "\n\nComponents:\n```json\n"@ + r.components_json@ + "\n```\n\nData model:\n```json\n"@
        + r.data_model_json@ + "\n```\n\nRe-send only the components you change, keeping their ids. Keep 'root' as the root."@
}

/// The task section.
pub open spec fn task_section(spec: PromptSpec) -> Seq<char> {
    "## Task\n"@ + trimmed(spec.request@) + "\n\nTarget surfaceId: "@ + spec.surface_id@ + "\nIntent: "@
        + spec.intent.name()
}

/// The generation rules, with the ban on re-creating the surface when
/// updating it.
pub open spec fn rules_section(spec: PromptSpec) -> Seq<char> {
    "## Generation rules\n"@ + GENERATION_GUIDELINES@ + if spec.intent == Intent::Update {
        "\n- This surface already exists. Do NOT emit `createSurface` for '"@ + spec.surface_id@
            + "'; send only the components and data that change."@
    } else {
        Seq::empty()
    }
}

/// One line per conversation turn: its role, a colon, and its trimmed text.
pub open spec fn conversation_lines(turns: Seq<(String, String)>) -> Seq<char>
    decreases turns.len(),
{
    if turns.len() == 0 {
        Seq::empty()
    } else {
        conversation_lines(turns.drop_last()) + turns.last().0@ + ": "@ + trimmed(turns.last().1@) + "\n"@
    }
}

/// The response format section.
pub open spec fn format_section() -> Seq<char> {
    "## Response format\nWrap each A2UI JSON block in <a2ui-json> and </a2ui-json>. Conversational text may go before or after a block, never inside one."@
}

/// The design guidance section, where there is guidance.
pub open spec fn guidance_part(spec: PromptSpec) -> Seq<Seq<char>> {
    match spec.ui_description {
        Some(d) => seq!["## Design guidance\n"@ + trimmed(d@)],
        None => Seq::empty(),
    }
}

/// The conversation section, where there was conversation.
pub open spec fn talk_part(spec: PromptSpec) -> Seq<Seq<char>> {
    if spec.conversation@.len() > 0 {
        seq![strip_trailing("### Conversation so far\n"@ + conversation_lines(spec.conversation@))]
    } else {
        Seq::empty()
    }
}

/// The section showing the surface on screen, when updating one.
pub open spec fn shown_part(spec: PromptSpec) -> Seq<Seq<char>> {
    match spec.prior_surface {
        Some(r) => seq![prior_section(r)],
        None => Seq::empty(),
    }
}

/// The response format section, where it is asked for.
pub open spec fn format_part(spec: PromptSpec) -> Seq<Seq<char>> {
    if spec.include_response_format {
        seq![format_section()]
    } else {
        Seq::empty()
    }
}

/// The prompt's sections, in order.
pub open spec fn prompt_sections(spec: PromptSpec, catalog_instructions: Seq<char>) -> Seq<Seq<char>> {
    seq![trimmed(spec.role@), task_section(spec), rules_section(spec)] + guidance_part(spec)
        + seq![strip_trailing(catalog_instructions)] + talk_part(spec) + shown_part(spec) + format_part(spec)
}

/// The whole prompt: the sections, a blank line between each two.
pub open spec fn subagent_prompt(spec: PromptSpec, catalog_instructions: Seq<char>) -> Seq<char> {
    joined(prompt_sections(spec, catalog_instructions), "\n\n"@)
}

/// Renders the surface currently on screen, so the model can edit it.
pub fn render_prior_surface(prior: &RenderedSurface) -> (text: String)
    ensures
        text@ == prior_section(*prior),
{
    let text = cat("## Surface currently on screen\nsurfaceId: ".to_owned(), prior.surface_id.as_str());
    let text = match &prior.catalog_id {
        Some(c) => cat(cat(cat(text, "\ncatalogId: "), c.as_str()), " (fixed; it cannot change)"),
        None => text,
    };
    let text = cat(text, "\n\nComponents:\n```json\n");
    let text = cat(text, prior.components_json.as_str());
    let text = cat(text, "\n```\n\nData model:\n```json\n");
    let text = cat(text, prior.data_model_json.as_str());
    let text = cat(
        text,
        "\n```\n\nRe-send only the components you change, keeping their ids. Keep 'root' as the root.",
    );
    proof {
        let s = text@;
        assert(s =~= prior_section(*prior));
    }
    text
}

/// The conversation section.
fn conversation_section(turns: &Vec<(String, String)>) -> (text: String)
    ensures
        text@ == strip_trailing("### Conversation so far\n"@ + conversation_lines(turns@)),
{
    let mut block = "### Conversation so far\n".to_owned();
    let mut i: usize = 0;
    assert(turns@.take(0) =~= Seq::<(String, String)>::empty());
    while i < turns.len()
        invariant
            i <= turns@.len(),
            block@ == "### Conversation so far\n"@ + conversation_lines(turns@.take(i as int)),
        decreases turns@.len() - i,
    {
        let turn = &turns[i];
        let text = trim(turn.1.as_str());
        block = cat(cat(cat(cat(block, turn.0.as_str()), ": "), text), "\n");
        proof {
            let next = turns@.take(i + 1);
            assert(next.drop_last() =~= turns@.take(i as int));
            assert(next.last() == turns@[i as int]);
        }
        i = i + 1;
    }
    assert(turns@.take(turns@.len() as int) =~= turns@);
    trim_end(block.as_str()).to_owned()
}

/// Builds the full system prompt for the generating model, given the
/// catalog's instructions.
pub fn build_subagent_prompt(spec: &PromptSpec, catalog_instructions: &str) -> (prompt: String)
    ensures
        prompt@ == subagent_prompt(*spec, catalog_instructions@),
{
    let mut sections: Vec<String> = Vec::new();
    sections.push(trim(spec.role.as_str()).to_owned());
    let task = cat(cat(cat(cat(cat("## Task\n".to_owned(), trim(spec.request.as_str())), "\n\nTarget surfaceId: "),
        spec.surface_id.as_str()), "\nIntent: "), spec.intent.as_str());
    sections.push(task);
    let rules = cat("## Generation rules\n".to_owned(), GENERATION_GUIDELINES);
    let rules = if spec.intent == Intent::Update {
        cat(cat(cat(rules, "\n- This surface already exists. Do NOT emit `createSurface` for '"), spec.surface_id.as_str()),
            "'; send only the components and data that change.")
    } else {
        rules
    };
    sections.push(rules);
    let ghost lead = seq![trimmed(spec.role@), task_section(*spec), rules_section(*spec)];
    assert(sections@[0]@ == trimmed(spec.role@));
    assert(sections@[1]@ == task_section(*spec));
    assert(sections@[2]@ == rules_section(*spec));
    assert(texts_view(sections@) =~= lead);
    let ghost guidance = guidance_part(*spec);
    match &spec.ui_description {
        Some(d) => {
            sections.push(cat("## Design guidance\n".to_owned(), trim(d.as_str())));
        },
        None => {},
    }
    assert(texts_view(sections@) =~= lead + guidance);
    sections.push(trim_end(catalog_instructions).to_owned());
    let ghost catalog = seq![strip_trailing(catalog_instructions@)];
    assert(texts_view(sections@) =~= lead + guidance + catalog);
    let ghost talk = talk_part(*spec);
    if spec.conversation.len() > 0 {
        sections.push(conversation_section(&spec.conversation));
    }
    assert(texts_view(sections@) =~= lead + guidance + catalog + talk);
    let ghost shown = shown_part(*spec);
    match &spec.prior_surface {
        Some(r) => {
            sections.push(render_prior_surface(r));
        },
        None => {},
    }
    assert(texts_view(sections@) =~= lead + guidance + catalog + talk + shown);
    let ghost format = format_part(*spec);
    if spec.include_response_format {
        sections.push(
            "## Response format\nWrap each A2UI JSON block in <a2ui-json> and </a2ui-json>. Conversational text may go before or after a block, never inside one.".to_owned(),
        );
    }
    assert(texts_view(sections@) =~= prompt_sections(*spec, catalog_instructions@));
    let ghost all = texts_view(sections@);
    let mut prompt = String::new();
    let mut i: usize = 0;
    assert(all.take(0) =~= Seq::<Seq<char>>::empty());
    while i < sections.len()
        invariant
            i <= sections@.len(),
            all == texts_view(sections@),
            prompt@ == joined(all.take(i as int), "\n\n"@),
        decreases sections@.len() - i,
    {
        prompt = join_next(prompt, i, sections[i].as_str(), "\n\n");
        proof {
            let next = all.take(i + 1);
            assert(next.drop_last() =~= all.take(i as int));
            if i == 0 {
                assert(next =~= seq![all[0]]);
            }
        }
        i = i + 1;
    }
    assert(all.take(all.len() as int) =~= all);
    prompt
}

} // verus!
