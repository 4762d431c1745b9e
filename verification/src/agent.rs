//! The low-level client API: what to send when starting a run, and a handle
//! on a remote agent over some transport.

use vstd::prelude::*;

use crate::ids::RunId;
use crate::input::{Context, RunAgentInput, Tool};
use crate::message::{Message, UserContent};
use crate::outcome::ResumeEntry;

verus! {

/// What to send when starting a run: a builder over [`RunAgentInput`]. The
/// two ids are required; everything else starts empty.
#[derive(Clone, Debug, Default, PartialEq)]
pub struct RunParams {
    input: RunAgentInput,
}

impl View for RunParams {
    type V = RunAgentInput;

    closed spec fn view(&self) -> RunAgentInput {
        self.input
    }
}

impl RunParams {
    /// A run in `thread_id`, identified by `run_id`.
    pub fn new(thread_id: &str, run_id: &str) -> (params: Self)
        ensures
            params@.is_fresh(thread_id@, run_id@),
    {
        RunParams { input: RunAgentInput::new(thread_id, run_id) }
    }

    /// Sets the conversation history, oldest first.
    pub fn messages(self, messages: Vec<Message>) -> (params: Self)
        ensures
            params@ == (RunAgentInput { messages: messages, ..self@ }),
    {
        let mut input = self.input;
        input.messages = messages;
        RunParams { input }
    }

    /// Appends one message.
    pub fn message(self, message: Message) -> (params: Self)
        ensures
            params@ == (RunAgentInput { messages: params@.messages, ..self@ }),
            params@.messages@ == self@.messages@.push(message),
    {
        let mut input = self.input;
        input.messages.push(message);
        RunParams { input }
    }

    /// Appends a user message with text content — the common case, spelled
    /// short.
    pub fn user(self, id: &str, content: &str) -> (params: Self)
        ensures
            params@ == (RunAgentInput { messages: params@.messages, ..self@ }),
            params@.messages@.len() == self@.messages@.len() + 1,
            params@.messages@.drop_last() == self@.messages@,
            params@.messages@.last() matches Message::User(m) && m.id@ == id@ && m.name is None
                && m.encrypted_value is None && m.subagent_run_id is None
                && (m.content matches UserContent::Text(t) && t@ == content@),
    {
        let params = self.message(Message::user(id, content));
        assert(params@.messages@.drop_last() =~= self@.messages@);
        params
    }

    /// Sets the shared state the agent starts from.
    pub fn state(self, state: serde_json::Value) -> (params: Self)
        ensures
            params@ == (RunAgentInput { state: state, ..self@ }),
    {
        let mut input = self.input;
        input.state = state;
        RunParams { input }
    }

    /// Offers tools for this run.
    pub fn tools(self, tools: Vec<Tool>) -> (params: Self)
        ensures
            params@ == (RunAgentInput { tools: tools, ..self@ }),
    {
        let mut input = self.input;
        input.tools = tools;
        RunParams { input }
    }

    /// Sets the ambient context entries.
    pub fn context(self, context: Vec<Context>) -> (params: Self)
        ensures
            params@ == (RunAgentInput { context: context, ..self@ }),
    {
        let mut input = self.input;
        input.context = context;
        RunParams { input }
    }

    /// Sets the passthrough properties, which the protocol never interprets.
    pub fn forwarded_props(self, props: serde_json::Value) -> (params: Self)
        ensures
            params@ == (RunAgentInput { forwarded_props: props, ..self@ }),
    {
        let mut input = self.input;
        input.forwarded_props = props;
        RunParams { input }
    }

    /// Answers the interrupts a previous run paused on.
    pub fn resume(self, entries: Vec<ResumeEntry>) -> (params: Self)
        ensures
            params@ == (RunAgentInput { resume: Some(entries), ..self@ }),
    {
        let mut input = self.input;
        input.resume = Some(entries);
        RunParams { input }
    }

    /// Records the run that spawned this one, for nested agents.
    pub fn parent_run_id(self, run_id: &str) -> (params: Self)
        ensures
            params@ == (RunAgentInput { parent_run_id: params@.parent_run_id, ..self@ }),
            params@.parent_run_id matches Some(r) && r@ == run_id@,
    {
        let mut input = self.input;
        input.parent_run_id = Some(RunId::new(run_id));
        RunParams { input }
    }

    /// The request this describes.
    pub fn into_input(self) -> (input: RunAgentInput)
        ensures
            input == self@,
    {
        self.input
    }
}

impl From<RunParams> for RunAgentInput {
    fn from(params: RunParams) -> (input: Self) {
        params.input
    }
}

impl vstd::std_specs::convert::FromSpecImpl<RunParams> for RunAgentInput {
    open spec fn obeys_from_spec() -> bool {
        true
    }

    open spec fn from_spec(params: RunParams) -> RunAgentInput {
        params@
    }
}

impl From<RunAgentInput> for RunParams {
    fn from(input: RunAgentInput) -> (params: Self) {
        RunParams { input }
    }
}

impl vstd::std_specs::convert::FromSpecImpl<RunAgentInput> for RunParams {
    open spec fn obeys_from_spec() -> bool {
        true
    }

    closed spec fn from_spec(input: RunAgentInput) -> RunParams {
        RunParams { input }
    }
}

/// A request made into parameters and back is the request it was; parameters
/// made into a request give the request they describe, as `into_input` does.
pub proof fn law_params_round_trip(input: RunAgentInput, params: RunParams)
    ensures
        <RunAgentInput as vstd::std_specs::convert::FromSpec<RunParams>>::from_spec(
            <RunParams as vstd::std_specs::convert::FromSpec<RunAgentInput>>::from_spec(input),
        ) == input,
        <RunAgentInput as vstd::std_specs::convert::FromSpec<RunParams>>::from_spec(params) == params@,
{
}

/// A remote agent, over any transport: a handle you hold onto someone
/// else's agent.
#[derive(Clone, Debug, Default)]
pub struct RemoteAgent<T> {
    transport: T,
}

impl<T> RemoteAgent<T> {
    /// The transport underneath, as a value.
    pub closed spec fn spec_transport(&self) -> T {
        self.transport
    }

    /// An agent reached through `transport`.
    pub fn new(transport: T) -> (agent: Self)
        ensures
            agent.spec_transport() == transport,
    {
        RemoteAgent { transport }
    }

    /// The transport underneath.
    pub fn transport(&self) -> (transport: &T)
        ensures
            *transport == self.spec_transport(),
    {
        &self.transport
    }

    /// Unwraps the transport.
    pub fn into_transport(self) -> (transport: T)
        ensures
            transport == self.spec_transport(),
    {
        self.transport
    }
}

/// What an HTTP agent is configured with: its address, the headers sent with
/// every request, and the two timeouts.
#[derive(Clone, Debug)]
pub struct HttpAgentBuilder {
    url: String,
    headers: Vec<(String, String)>,
    timeout: Option<std::time::Duration>,
    connect_timeout: Option<std::time::Duration>,
}

/// The configuration an [`HttpAgentBuilder`] holds.
pub struct HttpConfig {
    /// The agent's address.
    pub url: Seq<char>,
    /// Every header, in the order it was added.
    pub headers: Seq<(Seq<char>, Seq<char>)>,
    /// The bound on a whole run.
    pub timeout: Option<std::time::Duration>,
    /// The bound on connecting.
    pub connect_timeout: Option<std::time::Duration>,
}

/// The texts of the header pairs.
pub open spec fn header_texts(headers: Seq<(String, String)>) -> Seq<(Seq<char>, Seq<char>)> {
    headers.map_values(|h: (String, String)| (h.0@, h.1@))
}

impl View for HttpAgentBuilder {
    type V = HttpConfig;

    closed spec fn view(&self) -> HttpConfig {
        HttpConfig {
            url: self.url@,
            headers: header_texts(self.headers@),
            timeout: self.timeout,
            connect_timeout: self.connect_timeout,
        }
    }
}

impl HttpAgentBuilder {
    /// A builder for an agent at `url`, with no headers and no timeouts.
    pub fn new(url: &str) -> (builder: Self)
        ensures
            builder@.url == url@,
            builder@.headers.len() == 0,
            builder@.timeout is None,
            builder@.connect_timeout is None,
    {
        let builder = HttpAgentBuilder { url: url.to_owned(), headers: Vec::new(), timeout: None, connect_timeout: None };
        assert(header_texts(builder.headers@) =~= Seq::empty());
        builder
    }

    /// Adds a header to every request.
    pub fn header(self, name: &str, value: &str) -> (builder: Self)
        ensures
            builder@ == (HttpConfig { headers: self@.headers.push((name@, value@)), ..self@ }),
    {
        let mut builder = self;
        let ghost before = builder.headers@;
        builder.headers.push((name.to_owned(), value.to_owned()));
        assert(header_texts(builder.headers@) =~= header_texts(before).push((name@, value@)));
        builder
    }

    /// Adds several headers, in order.
    pub fn headers(self, headers: &[(&str, &str)]) -> (builder: Self)
        ensures
            builder@ == (HttpConfig {
                headers: self@.headers + headers@.map_values(|h: (&str, &str)| (h.0@, h.1@)),
                ..self@
            }),
    {
        let mut builder = self;
        let mut i: usize = 0;
        while i < headers.len()
            invariant
                i <= headers@.len(),
                builder@ == (HttpConfig {
                    headers: self@.headers + headers@.subrange(0, i as int).map_values(|h: (&str, &str)| (h.0@, h.1@)),
                    ..self@
                }),
            decreases headers@.len() - i,
        {
            let (name, value) = headers[i];
            builder = builder.header(name, value);
            assert(headers@.subrange(0, i as int + 1).map_values(|h: (&str, &str)| (h.0@, h.1@))
                =~= headers@.subrange(0, i as int).map_values(|h: (&str, &str)| (h.0@, h.1@)).push((name@, value@)));
            i = i + 1;
        }
        assert(headers@.subrange(0, headers@.len() as int) =~= headers@);
        builder
    }

    /// Bounds the whole run, streaming included.
    pub fn timeout(self, timeout: std::time::Duration) -> (builder: Self)
        ensures
            builder@ == (HttpConfig { timeout: Some(timeout), ..self@ }),
    {
        let mut builder = self;
        builder.timeout = Some(timeout);
        builder
    }

    /// Bounds connection setup only, leaving the stream unbounded.
    pub fn connect_timeout(self, timeout: std::time::Duration) -> (builder: Self)
        ensures
            builder@ == (HttpConfig { connect_timeout: Some(timeout), ..self@ }),
    {
        let mut builder = self;
        builder.connect_timeout = Some(timeout);
        builder
    }

    /// The agent's address.
    pub fn url(&self) -> (url: &str)
        ensures
            url@ == self@.url,
    {
        self.url.as_str()
    }

    /// The headers, in the order they were added.
    pub fn header_list(&self) -> (headers: &Vec<(String, String)>)
        ensures
            header_texts(headers@) == self@.headers,
    {
        &self.headers
    }

    /// The bound on a whole run, if one was set.
    pub fn run_timeout(&self) -> (timeout: Option<std::time::Duration>)
        ensures
            timeout == self@.timeout,
    {
        self.timeout
    }

    /// The bound on connecting, if one was set.
    pub fn connection_timeout(&self) -> (timeout: Option<std::time::Duration>)
        ensures
            timeout == self@.connect_timeout,
    {
        self.connect_timeout
    }
}

} // verus!
