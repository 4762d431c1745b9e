//! The Gemini-backed agent's configuration: where its key comes from, and
//! what is said when there is none.

use vstd::prelude::*;

use crate::data_model::{find_member, items_model, key_position, lemma_array_model, lemma_object_model, members_model, Json, JsonTree};
use crate::text::{cat, debug_quoted, quoted, to_uppercase, trim_end, unicode_white_space, upper_cased};

verus! {

/// The environment variable holding the API key.
pub const API_KEY_ENV: &'static str = "GEMINI_API_KEY";

/// The model the agent talks to by default.
pub const DEFAULT_MODEL: &'static str = "gemini-2.5-flash-lite";

/// The tool the agent owns and executes itself.
pub const WEATHER_TOOL: &'static str = "get_weather";

/// No API key was found.
#[derive(Clone, Copy, Debug, PartialEq, Eq)]
pub struct MissingApiKey;

impl MissingApiKey {
    /// What is said about it.
    pub open spec fn text(&self) -> Seq<char> {
        "GEMINI_API_KEY is not set"@
    }

    /// What is said about it.
    pub fn to_string(&self) -> (text: String)
        ensures
            text@ == self.text(),
    {
        "GEMINI_API_KEY is not set".to_owned()
    }
}

/// Whether `key` is only white space, and so no key at all.
pub open spec fn blank(key: Seq<char>) -> bool {
    forall|i: int| 0 <= i < key.len() ==> unicode_white_space(#[trigger] key[i])
}

/// The key to use, given what the environment holds: a key that is absent,
/// or only white space, is missing.
pub fn api_key(value: Option<String>) -> (key: Result<String, MissingApiKey>)
    ensures
        match value {
            Some(v) => if blank(v@) {
                key is Err
            } else {
                key matches Ok(k) && k@ == v@
            },
            None => key is Err,
        },
{
    match value {
        Some(v) => {
            let trimmed = trim_end(v.as_str());
            if trimmed.is_empty() {
                Err(MissingApiKey)
            } else {
                assert(trimmed@.last() == v@[trimmed@.len() - 1]);
                Ok(v)
            }
        },
        None => Err(MissingApiKey),
    }
}

/// The keywords of a schema the `v1beta` dialect takes as they are.
pub open spec fn copied_keywords() -> Seq<Seq<char>> {
    seq!["description"@, "enum"@, "required"@, "format"@, "nullable"@]
}

/// The members of `schema` named by `keys`, in that order, where present.
pub open spec fn kept_members(schema: Seq<(Seq<char>, Json)>, keys: Seq<Seq<char>>) -> Seq<(Seq<char>, Json)>
    decreases keys.len(),
{
    if keys.len() == 0 {
        Seq::empty()
    } else {
        let before = kept_members(schema, keys.drop_last());
        match key_position(schema, keys.last()) {
            Some(i) => before.push((keys.last(), schema[i].1)),
            None => before,
        }
    }
}

/// The upper-cased type name of a schema's members, where it has one.
pub open spec fn typed_part(m: Seq<(Seq<char>, Json)>) -> Seq<(Seq<char>, Json)> {
    match key_position(m, "type"@) {
        Some(i) => if 0 <= i < m.len() {
            match m[i].1 {
                Json::Text(t) => seq![("type"@, Json::Text(upper_cased(t)))],
                _ => Seq::empty(),
            }
        } else {
            Seq::empty()
        },
        None => Seq::empty(),
    }
}

/// Each property's schema, translated.
pub open spec fn translated_properties(ps: Seq<(Seq<char>, Json)>) -> Seq<(Seq<char>, Json)>
    decreases ps,
{
    Seq::new(
        ps.len(),
        |j: int|
            if 0 <= j < ps.len() {
                (ps[j].0, gemini_schema(ps[j].1))
            } else {
                (Seq::empty(), Json::Null)
            },
    )
}

/// A JSON Schema in the dialect `v1beta` accepts: the type name in upper
/// case, the keywords it accepts copied, properties and items translated,
/// and everything else left out. Anything but an object becomes `{}`.
pub open spec fn gemini_schema(schema: Json) -> Json
    decreases schema,
{
    match schema {
        Json::Object(m) => {
            let properties = match key_position(m, "properties"@) {
                Some(i) => if 0 <= i < m.len() {
                    match m[i].1 {
                        Json::Object(ps) => seq![("properties"@, Json::Object(translated_properties(ps)))],
                        _ => Seq::empty(),
                    }
                } else {
                    Seq::empty()
                },
                None => Seq::empty(),
            };
            let items = match key_position(m, "items"@) {
                Some(i) => if 0 <= i < m.len() {
                    seq![("items"@, gemini_schema(m[i].1))]
                } else {
                    Seq::empty()
                },
                None => Seq::empty(),
            };
            Json::Object(typed_part(m) + kept_members(m, copied_keywords()) + properties + items)
        },
        _ => Json::Object(Seq::empty()),
    }
}

/// Where the first member named `key` is, and it is that member.
proof fn lemma_found_in_range(m: Seq<(Seq<char>, Json)>, key: Seq<char>)
    ensures
        key_position(m, key) matches Some(i) ==> 0 <= i < m.len() && m[i].0 == key,
{
}

/// Translates a JSON Schema into the dialect `v1beta` accepts.
pub fn to_gemini_schema(schema: &JsonTree) -> (translated: JsonTree)
    ensures
        translated@ == gemini_schema(schema@),
    decreases schema,
{
    match schema {
        JsonTree::Object(members) => {
            proof {
                lemma_object_model(*members);
            }
            let ghost m = members_model(members@);
            let mut out: Vec<(String, JsonTree)> = Vec::new();
            let type_key = "type".to_owned();
            match find_member(members, &type_key) {
                Some(i) => match &members[i].1 {
                    JsonTree::Text(t) => {
                        out.push((type_key, JsonTree::Text(to_uppercase(t.as_str()))));
                    },
                    _ => {},
                },
                None => {},
            }
            let ghost typed = members_model(out@);
            proof {
                reveal_strlit("type");
                lemma_found_in_range(m, "type"@);
                assert(typed =~= typed_part(m));
            }
            let keys: [&str; 5] = ["description", "enum", "required", "format", "nullable"];
            let mut k: usize = 0;
            proof {
                reveal_strlit("type");
                reveal_strlit("description");
                reveal_strlit("enum");
                reveal_strlit("required");
                reveal_strlit("format");
                reveal_strlit("nullable");
            }
            while k < 5
                invariant
                    *schema == JsonTree::Object(*members),
                    m == members_model(members@),
                    k <= 5,
                    keys@.map_values(|s: &str| s@) == copied_keywords(),
                    members_model(out@) == typed + kept_members(m, copied_keywords().take(k as int)),
                decreases 5 - k,
            {
                let key = keys[k].to_owned();
                let ghost before = members_model(out@);
                assert(copied_keywords()[k as int] == key@) by {
                    assert(keys@.map_values(|s: &str| s@)[k as int] == keys@[k as int]@);
                }
                assert(copied_keywords().take(k + 1).drop_last() =~= copied_keywords().take(k as int));
                match find_member(members, &key) {
                    Some(i) => {
                        let value = members[i].1.duplicate();
                        let ghost v = value@;
                        out.push((key, value));
                        assert(members_model(out@) =~= before.push((copied_keywords()[k as int], v)));
                        assert(v == m[i as int].1);
                    },
                    None => {},
                }
                k = k + 1;
            }
            assert(copied_keywords().take(5) =~= copied_keywords());
            let ghost kept = members_model(out@);
            let ghost properties_expected = match key_position(m, "properties"@) {
                Some(i) => if 0 <= i < m.len() {
                    match m[i].1 {
                        Json::Object(ps) => seq![("properties"@, Json::Object(translated_properties(ps)))],
                        _ => Seq::empty(),
                    }
                } else {
                    Seq::empty()
                },
                None => Seq::empty(),
            };
            let properties_key = "properties".to_owned();
            proof {
                reveal_strlit("properties");
            }
            match find_member(members, &properties_key) {
                Some(i) => match &members[i].1 {
                    JsonTree::Object(ps) => {
                        let mut translated: Vec<(String, JsonTree)> = Vec::new();
                        let mut j: usize = 0;
                        proof {
                            lemma_object_model(*ps);
                        }
                        while j < ps.len()
                            invariant
                                *schema == JsonTree::Object(*members),
                                i < members@.len(),
                                members@[i as int].1 == JsonTree::Object(*ps),
                                j <= ps@.len(),
                                translated@.len() == j,
                                forall|q: int|
                                    0 <= q < j ==> (#[trigger] translated@[q]).0@ == ps@[q].0@ && translated@[q].1@
                                        == gemini_schema(ps@[q].1@),
                            decreases ps@.len() - j,
                        {
                            assert(decreases_to!(*schema => ps@[j as int].1)) by {
                                assert(decreases_to!(*schema => (*schema)->Object_0));
                                assert(decreases_to!(*members => members@));
                                assert(decreases_to!(members@ => members@[i as int]));
                                assert(decreases_to!(members@[i as int] => members@[i as int].1));
                                assert(decreases_to!(members@[i as int].1 => (members@[i as int].1)->Object_0));
                                assert(decreases_to!(*ps => ps@));
                                assert(decreases_to!(ps@ => ps@[j as int]));
                                assert(decreases_to!(ps@[j as int] => ps@[j as int].1));
                            }
                            let sub = to_gemini_schema(&ps[j].1);
                            translated.push((ps[j].0.clone(), sub));
                            j = j + 1;
                        }
                        let ghost pm = members_model(ps@);
                        let ghost tv = members_model(translated@);
                        assert(tv =~= translated_properties(pm));
                        proof {
                            lemma_object_model(translated);
                        }
                        let ghost before = members_model(out@);
                        out.push((properties_key, JsonTree::Object(translated)));
                        assert(members_model(out@) =~= before.push(("properties"@, Json::Object(tv))));
                    },
                    _ => {},
                },
                None => {},
            }
            let ghost with_properties = members_model(out@);
            proof {
                lemma_found_in_range(m, "properties"@);
                assert(with_properties =~= kept + properties_expected);
            }
            let ghost items_expected = match key_position(m, "items"@) {
                Some(i) => if 0 <= i < m.len() {
                    seq![("items"@, gemini_schema(m[i].1))]
                } else {
                    Seq::empty()
                },
                None => Seq::empty(),
            };
            let items_key = "items".to_owned();
            proof {
                reveal_strlit("items");
            }
            match find_member(members, &items_key) {
                Some(i) => {
                    assert(decreases_to!(*schema => members@[i as int].1)) by {
                        assert(decreases_to!(*schema => (*schema)->Object_0));
                        assert(decreases_to!(*members => members@));
                        assert(decreases_to!(members@ => members@[i as int]));
                        assert(decreases_to!(members@[i as int] => members@[i as int].1));
                    }
                    let sub = to_gemini_schema(&members[i].1);
                    let ghost sv = sub@;
                    out.push((items_key, sub));
                    assert(members_model(out@) =~= with_properties.push(("items"@, sv)));
                },
                None => {},
            }
            proof {
                lemma_object_model(out);
                lemma_found_in_range(m, "items"@);
                assert(members_model(out@) =~= with_properties + items_expected);
                assert(members_model(out@) =~= typed_part(m) + kept_members(m, copied_keywords()) + properties_expected
                    + items_expected);
                assert(schema@ == Json::Object(m));

            }
            JsonTree::Object(out)
        },
        _ => {
            let out: Vec<(String, JsonTree)> = Vec::new();
            proof {
                lemma_object_model(out);
            }
            assert(members_model(out@) =~= Seq::<(Seq<char>, Json)>::empty());
            JsonTree::Object(out)
        },
    }
}

/// The JSON Schema of the weather tool's arguments: an object with a
/// required `city` string, in ordinary lowercase JSON Schema.
pub open spec fn weather_schema() -> Json {
    Json::Object(
        seq![
            ("type"@, Json::Text("object"@)),
            (
                "properties"@,
                Json::Object(
                    seq![
                        (
                            "city"@,
                            Json::Object(
                                seq![
                                    ("type"@, Json::Text("string"@)),
                                    ("description"@, Json::Text("City name, for example Seoul."@)),
                                ],
                            ),
                        ),
                    ],
                ),
            ),
            ("required"@, Json::Array(seq![Json::Text("city"@)])),
        ],
    )
}

/// A text value.
fn text_value(text: &str) -> (tree: JsonTree)
    ensures
        tree@ == Json::Text(text@),
{
    JsonTree::Text(text.to_owned())
}

/// The JSON Schema of the weather tool's arguments.
pub fn weather_parameters() -> (schema: JsonTree)
    ensures
        schema@ == weather_schema(),
{
    let mut city: Vec<(String, JsonTree)> = Vec::new();
    city.push(("type".to_owned(), text_value("string")));
    city.push(("description".to_owned(), text_value("City name, for example Seoul.")));
    let ghost city_members = seq![("type"@, Json::Text("string"@)), ("description"@, Json::Text("City name, for example Seoul."@))];
    assert(members_model(city@) =~= city_members);
    let city = JsonTree::Object(city);
    proof {
        lemma_object_model(city->Object_0);
    }
    let mut properties: Vec<(String, JsonTree)> = Vec::new();
    properties.push(("city".to_owned(), city));
    let ghost property_members = seq![("city"@, Json::Object(city_members))];
    assert(members_model(properties@) =~= property_members);
    let properties = JsonTree::Object(properties);
    proof {
        lemma_object_model(properties->Object_0);
    }
    let mut required: Vec<JsonTree> = Vec::new();
    required.push(text_value("city"));
    assert(items_model(required@) =~= seq![Json::Text("city"@)]);
    let required = JsonTree::Array(required);
    proof {
        lemma_array_model(required->Array_0);
    }
    let mut schema: Vec<(String, JsonTree)> = Vec::new();
    schema.push(("type".to_owned(), text_value("object")));
    schema.push(("properties".to_owned(), properties));
    schema.push(("required".to_owned(), required));
    assert(members_model(schema@) =~= weather_schema()->Object_0);
    let schema = JsonTree::Object(schema);
    proof {
        lemma_object_model(schema->Object_0);
    }
    schema
}

/// What the weather tool is for.
pub const WEATHER_TOOL_DESCRIPTION: &'static str = "Current weather for a city.";

/// An agent backed by Gemini's native streaming API.
pub struct GeminiAgent {
    client: reqwest::Client,
    api_key: String,
    model: String,
}

impl GeminiAgent {
    /// The key sent.
    pub closed spec fn key_spec(&self) -> Seq<char> {
        self.api_key@
    }

    /// The model asked.
    pub closed spec fn model_spec(&self) -> Seq<char> {
        self.model@
    }

    /// An agent with `api_key`, asking the default model.
    pub fn new(api_key: String) -> (agent: Self)
        ensures
            agent.key_spec() == api_key@,
            agent.model_spec() == DEFAULT_MODEL@,
    {
        GeminiAgent {
            client: crate::llm::model_client(crate::llm::CONNECT_TIMEOUT_SECS, crate::llm::READ_TIMEOUT_SECS),
            api_key,
            model: DEFAULT_MODEL.to_owned(),
        }
    }

    /// The agent for the key the environment holds, or `MissingApiKey`
    /// where it holds none that is not blank.
    pub fn from_key(value: Option<String>) -> (agent: Result<Self, MissingApiKey>)
        ensures
            match value {
                Some(v) => if blank(v@) {
                    agent is Err
                } else {
                    agent matches Ok(a) && a.key_spec() == v@ && a.model_spec() == DEFAULT_MODEL@
                },
                None => agent is Err,
            },
    {
        match api_key(value) {
            Ok(key) => Ok(Self::new(key)),
            Err(missing) => Err(missing),
        }
    }

    /// The same agent, asking `model`.
    pub fn model(self, model: &str) -> (agent: Self)
        ensures
            agent.model_spec() == model@,
            agent.key_spec() == self.key_spec(),
            agent.client_spec() == self.client_spec(),
    {
        GeminiAgent { model: model.to_owned(), ..self }
    }

    /// The model this agent asks.
    pub fn model_name(&self) -> (model: &str)
        ensures
            model@ == self.model_spec(),
    {
        self.model.as_str()
    }

    /// The key sent with each request.
    pub fn api_key(&self) -> (key: &str)
        ensures
            key@ == self.key_spec(),
    {
        self.api_key.as_str()
    }

    /// The HTTP client the agent sends with.
    pub closed spec fn client_spec(&self) -> reqwest::Client {
        self.client
    }

    /// The HTTP client the agent sends with.
    pub fn client(&self) -> (client: &reqwest::Client)
        ensures
            *client == self.client_spec(),
    {
        &self.client
    }

    /// How the agent shows in a log line: its model, with the key redacted.
    pub open spec fn debug_text(&self) -> Seq<char> {
        "GeminiAgent { model: "@ + debug_quoted(self.model_spec()) + ", api_key: \"<redacted>\" }"@
    }

    /// The agent as a log line shows it, in the layout of `Debug`; the key
    /// is never part of it.
    pub fn debug_line(&self) -> (line: String)
        ensures
            line@ == self.debug_text(),
    {
        let line = cat("GeminiAgent { model: ".to_owned(), quoted(self.model.as_str()).as_str());
        cat(line, ", api_key: \"<redacted>\" }")
    }
}

/// The key never reaches a log line: two agents that ask the same model
/// show the same, whatever their keys.
pub proof fn law_the_key_never_reaches_a_debug_line(a: GeminiAgent, b: GeminiAgent)
    requires
        a.model_spec() == b.model_spec(),
    ensures
        a.debug_text() == b.debug_text(),
{
}

} // verus!
