//! Connections and the client facade.
//!
//! A `Connection` pairs one server's lifecycle, handshake phase and
//! correlation state with the tools it advertised. `McpSystem` aggregates
//! the connections, serves `list_tools` from the ready ones, and routes
//! `call_tool` to the connection that owns the named server. All I/O stays
//! with the host: the facade only produces the exact request lines to write
//! and consumes the decoded replies the host read.

use vstd::prelude::*;

use crate::correlate::{Correlator, Delivery};
use crate::json;
use crate::lifecycle::{
    hs_step, life_step, life_step_spec, HsEvent, HsPhase, LifeEvent,
    LifeState,
};
use crate::tool::{tool_views, Tool, ToolView};
use crate::wire;

verus! {

/// The payload a JSON-RPC response carried: its `result` member on
/// success, or its `error` member when the server reported a failure.
pub enum RpcOutcome {
    Success(serde_json::Value),
    Failure(serde_json::Value),
}

/// The typed failures of the call path.
#[derive(Clone, Copy, Debug, PartialEq, Eq, Structural)]
pub enum CallError {
    /// No ready connection owns this server name; nothing was sent.
    ServerNotFound,
    /// The server does not advertise a tool of this name; nothing was sent.
    ToolNotFound,
    /// The connection closed; every pending and future call on it fails so.
    ConnectionClosed,
    /// The caller gave the call up; a late response will be dropped.
    TimedOut,
}

/// What one decoded reply did to a connection.
pub enum ReplyEffect {
    /// The id matched no outstanding request: the reply is dropped and the
    /// connection is untouched.
    Dropped,
    /// The outstanding call with this id completed with this payload.
    Completed(u64, RpcOutcome),
    /// `initialize` succeeded: the host must write this `tools/list`
    /// request line, whose id is now outstanding.
    SendToolsList(u64, String),
    /// `tools/list` succeeded: the connection is ready and its tools are
    /// visible to the registry.
    Published,
    /// The handshake failed: the connection is torn down; the ids in the
    /// vector (outstanding requests other than the one just resolved) fail
    /// with `ConnectionClosed`.
    HandshakeFailed(Vec<u64>),
}

/// The `tools/call` params document: the JSON object holding exactly the
/// tool's name under `name` and the caller's arguments under `arguments`.
pub open spec fn call_params(name: Seq<char>, args: serde_json::Value) -> serde_json::Value {
    json::object_of(
        Map::<Seq<char>, serde_json::Value>::empty().insert("name"@, json::string_of(name)).insert(
            "arguments"@,
            args,
        ),
    )
}

/// One advertised tool as a `tools/list` result element describes it: a
/// text `name`, a text `description`, and an optional `inputSchema`
/// document; any other shape is malformed.
pub open spec fn tool_of(v: serde_json::Value) -> Option<ToolView> {
    match json::field_of(v, "name"@) {
        Some(nv) => match json::text_content_of(nv) {
            Some(nm) => match json::field_of(v, "description"@) {
                Some(dv) => match json::text_content_of(dv) {
                    Some(ds) => Some(
                        ToolView {
                            name: nm,
                            description: ds,
                            schema: json::field_of(v, "inputSchema"@),
                        },
                    ),
                    None => None,
                },
                None => None,
            },
            None => None,
        },
        None => None,
    }
}

/// What a `tools/list` result publishes: the views of its `tools` array's
/// elements, in order, or None when the result, the array, or any element
/// is malformed.
pub open spec fn tools_result_views(v: serde_json::Value) -> Option<Seq<ToolView>> {
    match json::field_of(v, "tools"@) {
        Some(tv) => match json::array_of(tv) {
            Some(items) => if forall|i: int|
                0 <= i < items.len() ==> (#[trigger] tool_of(items[i])) is Some {
                Some(Seq::new(items.len(), |i: int| tool_of(items[i])->Some_0))
            } else {
                None
            },
            None => None,
        },
        None => None,
    }
}

/// The tools a `tools/list` reply publishes: present exactly when the
/// reply succeeded with a well-formed result.
pub open spec fn published_views(outcome: RpcOutcome) -> Option<Seq<ToolView>> {
    match outcome {
        RpcOutcome::Success(v) => tools_result_views(v),
        RpcOutcome::Failure(_) => None,
    }
}

/// What one line of a server's output decodes to: its response id and
/// payload when it is a JSON object with an unsigned integer `id` and
/// exactly one of `result` and `error`, or None when it is malformed.
pub open spec fn decoded_line(s: Seq<char>) -> Option<(u64, RpcOutcome)> {
    match json::parsed_of(s) {
        Some(v) => match json::field_of(v, "id"@) {
            Some(idv) => match json::u64_of(idv) {
                Some(id) => match (json::field_of(v, "error"@), json::field_of(v, "result"@)) {
                    (Some(e), None) => Some((id, RpcOutcome::Failure(e))),
                    (None, Some(res)) => Some((id, RpcOutcome::Success(res))),
                    _ => None,
                },
                None => None,
            },
            None => None,
        },
        None => None,
    }
}

/// The fixed `initialize` params: protocol version and (empty) capabilities.
pub open spec fn init_params_text() -> Seq<char> {
    "{\"protocolVersion\":\"2025-06-18\",\"capabilities\":{}}"@
}

fn init_params() -> (s: &'static str)
    ensures
        s@ == init_params_text(),
{
    "{\"protocolVersion\":\"2025-06-18\",\"capabilities\":{}}"
}

/// One server connection: the live pairing of a spawned process with its
/// transport, correlation state, handshake phase and advertised tools.
pub struct Connection {
    name: String,
    life: LifeState,
    hs: HsPhase,
    correlator: Correlator,
    tools: Vec<Tool>,
    init_id: Option<u64>,
    tools_id: Option<u64>,
}

impl Connection {
    /// The server name this connection serves.
    pub closed spec fn name_spec(self) -> Seq<char> {
        self.name@
    }

    /// Lifecycle state.
    pub closed spec fn lstate(self) -> LifeState {
        self.life
    }

    /// Handshake phase.
    pub closed spec fn phase(self) -> HsPhase {
        self.hs
    }

    /// Outstanding request ids, oldest first.
    pub closed spec fn pending(self) -> Seq<u64> {
        self.correlator.pending_ids()
    }

    /// The id the next request on this connection will get.
    pub closed spec fn next_id(self) -> u64 {
        self.correlator.next()
    }

    /// The correlation state, for stating facts proved in `correlate`.
    pub closed spec fn correlator_ref(self) -> Correlator {
        self.correlator
    }

    /// Views of the tools this connection advertised.
    pub closed spec fn tools_spec(self) -> Seq<ToolView> {
        tool_views(self.tools@)
    }

    /// Whether a tool of this name is advertised.
    pub closed spec fn has_tool(self, tool: Seq<char>) -> bool {
        exists|j: int| 0 <= j < self.tools@.len() && self.tools@[j].name@ == tool
    }

    /// The connection's invariant. The correlation state is well formed and
    /// open exactly while the connection is live; during the handshake the
    /// only outstanding id is the handshake exchange in flight, so no user
    /// call can be confused with a handshake reply; a failed or closed
    /// connection keeps nothing outstanding.
    pub closed spec fn wf(self) -> bool {
        &&& self.correlator.wf()
        &&& (self.correlator.is_open() <==> !(self.life is Failed || self.life is Closed))
        &&& (self.life is Ready ==> self.hs is Done)
        &&& (self.life is Spawning ==> self.hs is Start)
        &&& (self.life is Initializing ==> !(self.hs is Done) && !(self.hs is Aborted))
        &&& (self.hs is Start ==> self.pending() =~= Seq::<u64>::empty())
        &&& (self.hs is AwaitInit ==> self.init_id is Some && self.pending() =~= seq![
            self.init_id->Some_0,
        ])
        &&& (self.hs is AwaitTools ==> self.tools_id is Some && self.pending() =~= seq![
            self.tools_id->Some_0,
        ])
        &&& ((self.life is Failed || self.life is Closed) ==> self.pending() =~= Seq::<
            u64,
        >::empty())
    }

    /// A new connection for this server, about to be spawned.
    pub fn new(name: String) -> (c: Connection)
        ensures
            c.wf(),
            c.name_spec() == name@,
            c.lstate() is Spawning,
            c.phase() is Start,
            c.pending() =~= Seq::<u64>::empty(),
            c.tools_spec() =~= Seq::<ToolView>::empty(),
            c.next_id() == 0,
    {
        let c = Connection {
            name,
            life: LifeState::Spawning,
            hs: HsPhase::Start,
            correlator: Correlator::new(),
            tools: Vec::new(),
            init_id: None,
            tools_id: None,
        };
        proof {
            assert(c.tools_spec() =~= Seq::<ToolView>::empty());
        }
        c
    }

    /// Record the outcome of spawning the child process. A spawn failure is
    /// fatal to this connection only.
    pub fn on_spawn(&mut self, ok: bool)
        requires
            old(self).wf(),
            old(self).lstate() is Spawning,
        ensures
            final(self).wf(),
            final(self).name_spec() == old(self).name_spec(),
            final(self).lstate() == life_step_spec(
                old(self).lstate(),
                if ok {
                    LifeEvent::SpawnOk
                } else {
                    LifeEvent::SpawnFailed
                },
            ),
            ok ==> final(self).lstate() is Initializing && final(self).phase() is Start,
            !ok ==> final(self).lstate() is Failed,
            final(self).pending() =~= Seq::<u64>::empty(),
            final(self).tools_spec() == old(self).tools_spec(),
            final(self).next_id() == old(self).next_id(),
    {
        if ok {
            self.life = life_step(self.life, LifeEvent::SpawnOk);
        } else {
            self.life = life_step(self.life, LifeEvent::SpawnFailed);
            let hs_r = hs_step(self.hs, HsEvent::ConnectionLost);
            self.hs = hs_r.0;
            let _failed = self.correlator.close();
        }
    }

    /// Begin the handshake: allocate an id, move to `AwaitInit`, and hand
    /// back the exact `initialize` request line the host must write.
    pub fn start_handshake(&mut self) -> (r: (u64, String))
        requires
            old(self).wf(),
            old(self).lstate() is Initializing,
            old(self).phase() is Start,
            old(self).next_id() < u64::MAX,
        ensures
            final(self).wf(),
            final(self).name_spec() == old(self).name_spec(),
            final(self).lstate() is Initializing,
            final(self).phase() is AwaitInit,
            r.0 == old(self).next_id(),
            final(self).next_id() == old(self).next_id() + 1,
            final(self).pending() =~= seq![r.0],
            r.1@ == wire::request_text(r.0, "initialize"@, init_params_text()) + "\n"@,
            wire::one_line(r.1@),
            final(self).tools_spec() == old(self).tools_spec(),
    {
        let id = self.correlator.register();
        let line = wire::encode_request(id, "initialize", init_params());
        let hs_r = hs_step(self.hs, HsEvent::Begin);
        self.hs = hs_r.0;
        self.init_id = Some(id);
        proof {
            reveal_strlit("initialize");
            reveal_strlit("{\"protocolVersion\":\"2025-06-18\",\"capabilities\":{}}");
            assert(forall|k: int|
                0 <= k < "initialize"@.len() ==> "initialize"@[k] != '\n');
            assert(forall|k: int|
                0 <= k < init_params_text().len() ==> init_params_text()[k] != '\n');
            wire::lemma_framed_line(id, "initialize"@, init_params_text());
        }
        (id, line)
    }

    /// Feed one decoded reply into this connection. An id with no matching
    /// outstanding request is dropped without delivering it to anyone and
    /// without touching anything. A matching reply either resolves a user
    /// call with exactly this payload, or advances the handshake.
    pub fn on_reply(&mut self, id: u64, outcome: RpcOutcome) -> (eff: ReplyEffect)
        requires
            old(self).wf(),
            old(self).next_id() < u64::MAX,
        ensures
            final(self).wf(),
            final(self).name_spec() == old(self).name_spec(),
            eff is Dropped <==> !old(self).pending().contains(id),
            eff is Dropped ==> *final(self) == *old(self),
            old(self).lstate() is Ready && old(self).pending().contains(id) ==> eff
                == ReplyEffect::Completed(id, outcome),
            eff is Completed ==> {
                &&& final(self).lstate() == old(self).lstate()
                &&& final(self).phase() == old(self).phase()
                &&& final(self).pending() =~= old(self).pending().remove_value(id)
                &&& final(self).tools_spec() == old(self).tools_spec()
                &&& final(self).next_id() == old(self).next_id()
            },
            old(self).phase() is AwaitInit && old(self).pending().contains(id) && outcome
                is Success ==> eff is SendToolsList,
            old(self).phase() is AwaitInit && old(self).pending().contains(id) && outcome
                is Failure ==> eff is HandshakeFailed,
            eff matches ReplyEffect::SendToolsList(tid, out_line) ==> {
                &&& old(self).phase() is AwaitInit
                &&& final(self).phase() is AwaitTools
                &&& final(self).lstate() is Initializing
                &&& tid == old(self).next_id()
                &&& final(self).next_id() == old(self).next_id() + 1
                &&& final(self).pending() =~= seq![tid]
                &&& out_line@ == wire::request_text(tid, "tools/list"@, "{}"@) + "\n"@
                &&& wire::one_line(out_line@)
            },
            old(self).phase() is AwaitTools && old(self).pending().contains(id)
                && published_views(outcome) is Some ==> eff is Published,
            old(self).phase() is AwaitTools && old(self).pending().contains(id)
                && published_views(outcome) is None ==> eff is HandshakeFailed,
            eff is Published ==> {
                &&& old(self).phase() is AwaitTools
                &&& final(self).phase() is Done
                &&& final(self).lstate() is Ready
                &&& final(self).pending() =~= Seq::<u64>::empty()
                &&& Some(final(self).tools_spec()) == published_views(outcome)
            },
            eff matches ReplyEffect::HandshakeFailed(failed) ==> {
                &&& final(self).lstate() is Failed
                &&& final(self).phase() is Aborted
                &&& final(self).pending() =~= Seq::<u64>::empty()
                &&& failed@ =~= old(self).pending().remove_value(id)
            },
            !final(self).pending().contains(id),
    {
        let d = self.correlator.deliver(id);
        match d {
            Delivery::Unknown => ReplyEffect::Dropped,
            Delivery::Matched => {
                proof {
                    old(self).pending().index_of_first_ensures(id);
                }
                match self.life {
                    LifeState::Ready => ReplyEffect::Completed(id, outcome),
                    LifeState::Initializing => {
                        match self.hs {
                            HsPhase::AwaitInit => {
                                let ok = match &outcome {
                                    RpcOutcome::Success(_) => true,
                                    RpcOutcome::Failure(_) => false,
                                };
                                let hs_r = hs_step(self.hs, HsEvent::InitResult(ok));
                                self.hs = hs_r.0;
                                if ok {
                                    proof {
                                        old(self).correlator_ref().lemma_pending_below_next();
                                        let p = old(self).pending();
                                        let k0 = choose|k: int| 0 <= k < p.len() && p[k] == id;
                                        assert(p[k0] < old(self).next_id());
                                    }
                                    let tid = self.correlator.register();
                                    let line = wire::encode_request(tid, "tools/list", "{}");
                                    self.tools_id = Some(tid);
                                    proof {
                                        reveal_strlit("tools/list");
                                        reveal_strlit("{}");
                                        assert(forall|k: int|
                                            0 <= k < "tools/list"@.len() ==> "tools/list"@[k]
                                                != '\n');
                                        assert(forall|k: int|
                                            0 <= k < "{}"@.len() ==> "{}"@[k] != '\n');
                                        wire::lemma_framed_line(tid, "tools/list"@, "{}"@);
                                    }
                                    ReplyEffect::SendToolsList(tid, line)
                                } else {
                                    self.life = life_step(self.life, LifeEvent::HandshakeFailed);
                                    let failed = self.correlator.close();
                                    ReplyEffect::HandshakeFailed(failed)
                                }
                            },
                            HsPhase::AwaitTools => {
                                let parsed: Option<Vec<Tool>> = match &outcome {
                                    RpcOutcome::Success(v) => parse_tool_list(v),
                                    RpcOutcome::Failure(_) => None,
                                };
                                match parsed {
                                    Some(ts) => {
                                        let hs_r = hs_step(self.hs, HsEvent::ToolsResult(true));
                                        self.hs = hs_r.0;
                                        self.life = life_step(self.life, LifeEvent::HandshakeOk);
                                        self.tools = ts;
                                        ReplyEffect::Published
                                    },
                                    None => {
                                        let hs_r = hs_step(self.hs, HsEvent::ToolsResult(false));
                                        self.hs = hs_r.0;
                                        self.life = life_step(
                                            self.life,
                                            LifeEvent::HandshakeFailed,
                                        );
                                        let failed = self.correlator.close();
                                        ReplyEffect::HandshakeFailed(failed)
                                    },
                                }
                            },
                            _ => {
                                // A matched id means an outstanding request,
                                // and before the handshake's first send
                                // nothing is outstanding.
                                proof {
                                    assert(false);
                                }
                                ReplyEffect::Dropped
                            },
                        }
                    },
                    _ => {
                        // A matched id means an outstanding request, and a
                        // spawning, failed or closed connection has none.
                        proof {
                            assert(false);
                        }
                        ReplyEffect::Dropped
                    },
                }
            },
        }
    }

    /// Issue a `tools/call` request for a tool this connection advertises.
    /// Nothing is sent and nothing changes unless a request line is
    /// returned; its id is then outstanding until the matching reply, a
    /// timeout, or the connection's close resolves it.
    #[verifier::rlimit(50)]
    pub fn begin_call(&mut self, tool: &str, args: &serde_json::Value) -> (r: Result<
        (u64, String),
        CallError,
    >)
        requires
            old(self).wf(),
            old(self).lstate() is Ready,
            old(self).next_id() < u64::MAX,
        ensures
            final(self).wf(),
            final(self).name_spec() == old(self).name_spec(),
            final(self).lstate() == old(self).lstate(),
            final(self).phase() == old(self).phase(),
            final(self).tools_spec() == old(self).tools_spec(),
            r is Ok <==> old(self).has_tool(tool@),
            r matches Result::Err(e) ==> e is ToolNotFound,
            r is Err ==> *final(self) == *old(self),
            r matches Result::Ok((out_id, out_line)) ==> {
                &&& out_id == old(self).next_id()
                &&& final(self).next_id() == old(self).next_id() + 1
                &&& final(self).pending() =~= old(self).pending().push(out_id)
                &&& !old(self).pending().contains(out_id)
                &&& out_line@ == wire::request_text(
                    out_id,
                    "tools/call"@,
                    json::text_of(call_params(tool@, *args)),
                ) + "\n"@
                &&& wire::one_line(out_line@)
            },
    {
        let owned = tool.to_owned();
        let mut found: bool = false;
        let n = self.tools.len();
        let mut j: usize = 0;
        while j < n
            invariant
                self == old(self),
                n == self.tools@.len(),
                owned@ == tool@,
                0 <= j <= n,
                found <==> exists|k: int| 0 <= k < j && self.tools@[k].name@ == tool@,
            decreases n - j,
        {
            if self.tools[j].name == owned {
                found = true;
            }
            j = j + 1;
        }
        if !found {
            return Result::Err(CallError::ToolNotFound);
        }
        let mut m = json::map_new();
        json::map_insert(&mut m, String::from_str("name"), json::string_value(tool.to_owned()));
        json::map_insert(&mut m, String::from_str("arguments"), json::clone_value(args));
        let ghost model = json::map_model(m);
        let params = json::object_value(m);
        proof {
            assert(model =~= Map::<Seq<char>, serde_json::Value>::empty().insert(
                "name"@,
                json::string_of(tool@),
            ).insert("arguments"@, *args));
            assert(params == call_params(tool@, *args));
        }
        let ptext = json::to_compact_text(&params);
        let id = self.correlator.register();
        let line = wire::encode_request(id, "tools/call", ptext.as_str());
        proof {
            assert(line@ == wire::request_text(id, "tools/call"@, json::text_of(call_params(
                tool@,
                *args,
            ))) + "\n"@);
            reveal_strlit("tools/call");
            assert(forall|i: int| 0 <= i < "tools/call"@.len() ==> "tools/call"@[i] != '\n');
            wire::lemma_framed_line(id, "tools/call"@, ptext@);
        }
        Result::Ok((id, line))
    }

    /// Give up the outstanding call with this id, so that a late response
    /// for it will be dropped. Reports the error the waiter receives.
    pub fn give_up_call(&mut self, id: u64) -> (r: Option<CallError>)
        requires
            old(self).wf(),
            old(self).lstate() is Ready,
        ensures
            final(self).wf(),
            final(self).name_spec() == old(self).name_spec(),
            final(self).lstate() == old(self).lstate(),
            final(self).phase() == old(self).phase(),
            final(self).tools_spec() == old(self).tools_spec(),
            final(self).next_id() == old(self).next_id(),
            r is Some <==> old(self).pending().contains(id),
            r is Some ==> r->Some_0 is TimedOut,
            final(self).pending() =~= old(self).pending().remove_value(id),
            !final(self).pending().contains(id),
            r is None ==> *final(self) == *old(self),
    {
        match self.correlator.deliver(id) {
            Delivery::Matched => Some(CallError::TimedOut),
            Delivery::Unknown => None,
        }
    }

    /// The ids outstanding on a well-formed connection are pairwise
    /// distinct, so a response id resolves at most one call and a removed
    /// id leaves no second occurrence behind.
    pub proof fn lemma_pending_unique(self)
        requires
            self.wf(),
        ensures
            crate::correlate::unique_ids(self.pending()),
    {
        self.correlator.lemma_pending_unique();
    }

    /// Ids never repeat for the lifetime of a connection: every
    /// outstanding id is below the connection-local counter, which only
    /// grows, so a fresh id can never collide with an outstanding one.
    pub proof fn lemma_pending_below_next(self)
        requires
            self.wf(),
        ensures
            forall|k: int|
                0 <= k < self.pending().len() ==> #[trigger] self.pending()[k]
                    < self.next_id(),
    {
        self.correlator.lemma_pending_below_next();
    }

    /// The connection is going away: the process exited or the host shuts
    /// it down. Every outstanding call fails; none stays suspended.
    pub fn conn_down(&mut self, exited: bool) -> (failed: Vec<u64>)
        requires
            old(self).wf(),
        ensures
            final(self).wf(),
            final(self).name_spec() == old(self).name_spec(),
            final(self).lstate() == life_step_spec(
                old(self).lstate(),
                if exited {
                    LifeEvent::ProcessExit
                } else {
                    LifeEvent::Shutdown
                },
            ),
            !(final(self).lstate() is Ready) && !(final(self).lstate() is Initializing) && !(
            final(self).lstate() is Spawning),
            failed@ =~= old(self).pending(),
            final(self).pending() =~= Seq::<u64>::empty(),
            final(self).next_id() == old(self).next_id(),
            final(self).tools_spec() == old(self).tools_spec(),
    {
        let ev = if exited {
            LifeEvent::ProcessExit
        } else {
            LifeEvent::Shutdown
        };
        self.life = life_step(self.life, ev);
        if !matches!(self.hs, HsPhase::Done) {
            let hs_r = hs_step(self.hs, HsEvent::ConnectionLost);
            self.hs = hs_r.0;
        }
        self.correlator.close()
    }

    /// The advertised tools, as exact copies.
    pub fn tools_copy(&self) -> (ts: Vec<Tool>)
        ensures
            tool_views(ts@) =~= self.tools_spec(),
    {
        copy_tools(&self.tools)
    }

    /// Current lifecycle state, for the host to inspect.
    pub fn life_now(&self) -> (s: LifeState)
        ensures
            s == self.lstate(),
    {
        self.life
    }
}

/// Exact copies of a tool list.
fn copy_tools(ts: &Vec<Tool>) -> (r: Vec<Tool>)
    ensures
        tool_views(r@) =~= tool_views(ts@),
{
    let mut r: Vec<Tool> = Vec::new();
    let n = ts.len();
    let mut j: usize = 0;
    while j < n
        invariant
            n == ts@.len(),
            0 <= j <= n,
            r@.len() == j,
            tool_views(r@) =~= tool_views(ts@.take(j as int)),
        decreases n - j,
    {
        let t = ts[j].duplicate();
        let ghost rpre = r@;
        r.push(t);
        proof {
            let m = ts@.take(j as int + 1);
            assert forall|k: int| 0 <= k < r@.len() implies tool_views(r@)[k] == tool_views(m)[k] by {
                assert(tool_views(r@)[k] == r@[k]@);
                assert(tool_views(m)[k] == m[k]@);
                if k < j as int {
                    assert(r@[k] == rpre[k]);
                    assert(tool_views(rpre)[k] == rpre[k]@);
                    assert(tool_views(ts@.take(j as int))[k] == ts@.take(j as int)[k]@);
                } else {
                    assert(r@[k] == t);
                    assert(m[k] == ts@[j as int]);
                }
            }
            assert(tool_views(r@) =~= tool_views(m));
        }
        j = j + 1;
    }
    proof {
        assert(ts@.take(n as int) =~= ts@);
    }
    r
}

/// Read one `tools/list` result: its `tools` array of objects each with a
/// text `name` and `description` and an optional `inputSchema` document.
/// Exactly the well-formed results parse (to exactly the views
/// `tools_result_views` gives); any other shape is rejected whole.
fn parse_tool_list(v: &serde_json::Value) -> (r: Option<Vec<Tool>>)
    ensures
        r matches Some(ts) ==> tools_result_views(*v) == Some(tool_views(ts@)),
        r is None ==> tools_result_views(*v) is None,
{
    let tv = match json::get_field(v, "tools") {
        Some(t) => t,
        None => {
            return None;
        },
    };
    let arr = match json::as_array(tv) {
        Some(a) => a,
        None => {
            return None;
        },
    };
    let mut out: Vec<Tool> = Vec::new();
    let n = arr.len();
    let mut i: usize = 0;
    while i < n
        invariant
            json::field_of(*v, "tools"@) == Some(*tv),
            json::array_of(*tv) == Some(arr@),
            n == arr@.len(),
            0 <= i <= n,
            out@.len() == i,
            forall|k: int| 0 <= k < i ==> #[trigger] tool_of(arr@[k]) == Some(out@[k]@),
        decreases n - i,
    {
        let item = &arr[i];
        let name = match json::get_field(item, "name") {
            Some(nv) => match json::as_text(nv) {
                Some(s) => s.to_owned(),
                None => {
                    proof {
                        lemma_malformed_element(*v, *tv, arr@, i as int);
                    }
                    return None;
                },
            },
            None => {
                proof {
                    lemma_malformed_element(*v, *tv, arr@, i as int);
                }
                return None;
            },
        };
        let description = match json::get_field(item, "description") {
            Some(dv) => match json::as_text(dv) {
                Some(s) => s.to_owned(),
                None => {
                    proof {
                        lemma_malformed_element(*v, *tv, arr@, i as int);
                    }
                    return None;
                },
            },
            None => {
                proof {
                    lemma_malformed_element(*v, *tv, arr@, i as int);
                }
                return None;
            },
        };
        let schema = match json::get_field(item, "inputSchema") {
            Some(sv) => Some(json::clone_value(sv)),
            None => None,
        };
        let t = Tool { name, description, input_schema: schema };
        proof {
            assert(tool_of(arr@[i as int]) == Some(t@));
        }
        out.push(t);
        i = i + 1;
    }
    proof {
        let items = arr@;
        assert(forall|k: int| 0 <= k < items.len() ==> (#[trigger] tool_of(items[k])) is Some);
        let s = Seq::new(items.len(), |k: int| tool_of(items[k])->Some_0);
        assert(s =~= tool_views(out@));
        assert(tools_result_views(*v) == Some(tool_views(out@)));
    }
    Some(out)
}

/// A malformed element makes the whole `tools/list` result malformed.
proof fn lemma_malformed_element(
    v: serde_json::Value,
    tv: serde_json::Value,
    items: Seq<serde_json::Value>,
    i: int,
)
    requires
        json::field_of(v, "tools"@) == Some(tv),
        json::array_of(tv) == Some(items),
        0 <= i < items.len(),
        tool_of(items[i]) is None,
    ensures
        tools_result_views(v) is None,
{
    assert(!(forall|k: int| 0 <= k < items.len() ==> (#[trigger] tool_of(items[k])) is Some));
}

/// The relation `Connection::on_reply` establishes between the connection
/// before and after one decoded reply, restated for aggregate contracts.
pub open spec fn reply_transition(
    pre: Connection,
    post: Connection,
    id: u64,
    outcome: RpcOutcome,
    eff: ReplyEffect,
) -> bool {
    &&& post.wf()
    &&& post.name_spec() == pre.name_spec()
    &&& (eff is Dropped <==> !pre.pending().contains(id))
    &&& (eff is Dropped ==> post == pre)
    &&& (pre.lstate() is Ready && pre.pending().contains(id) ==> eff == ReplyEffect::Completed(
        id,
        outcome,
    ))
    &&& (eff is Completed ==> {
        &&& post.lstate() == pre.lstate()
        &&& post.phase() == pre.phase()
        &&& post.pending() =~= pre.pending().remove_value(id)
        &&& post.tools_spec() == pre.tools_spec()
        &&& post.next_id() == pre.next_id()
    })
    &&& (pre.phase() is AwaitInit && pre.pending().contains(id) && outcome is Success ==> eff
        is SendToolsList)
    &&& (pre.phase() is AwaitInit && pre.pending().contains(id) && outcome is Failure ==> eff
        is HandshakeFailed)
    &&& (eff matches ReplyEffect::SendToolsList(tid, out_line) ==> {
        &&& pre.phase() is AwaitInit
        &&& post.phase() is AwaitTools
        &&& post.lstate() is Initializing
        &&& tid == pre.next_id()
        &&& post.next_id() == pre.next_id() + 1
        &&& post.pending() =~= seq![tid]
        &&& out_line@ == wire::request_text(tid, "tools/list"@, "{}"@) + "\n"@
        &&& wire::one_line(out_line@)
    })
    &&& (pre.phase() is AwaitTools && pre.pending().contains(id) && published_views(outcome)
        is Some ==> eff is Published)
    &&& (pre.phase() is AwaitTools && pre.pending().contains(id) && published_views(outcome)
        is None ==> eff is HandshakeFailed)
    &&& (eff is Published ==> {
        &&& pre.phase() is AwaitTools
        &&& post.phase() is Done
        &&& post.lstate() is Ready
        &&& post.pending() =~= Seq::<u64>::empty()
        &&& Some(post.tools_spec()) == published_views(outcome)
    })
    &&& (eff matches ReplyEffect::HandshakeFailed(failed) ==> {
        &&& post.lstate() is Failed
        &&& post.phase() is Aborted
        &&& post.pending() =~= Seq::<u64>::empty()
        &&& failed@ =~= pre.pending().remove_value(id)
    })
    &&& !post.pending().contains(id)
}

/// `post` is `pre` with at most the connection at `i` replaced.
pub open spec fn updated_at(pre: Seq<Connection>, post: Seq<Connection>, i: int) -> bool {
    &&& post.len() == pre.len()
    &&& forall|j: int| 0 <= j < pre.len() && j != i ==> post[j] == pre[j]
}

/// The tools the registry serves: the concatenation of every ready
/// connection's tools, in connection-registration order, each connection's
/// own tool order kept.
pub open spec fn registry_view(conns: Seq<Connection>) -> Seq<ToolView>
    decreases conns.len(),
{
    if conns.len() == 0 {
        Seq::<ToolView>::empty()
    } else {
        registry_view(conns.drop_last()) + if conns.last().lstate() is Ready {
            conns.last().tools_spec()
        } else {
            Seq::<ToolView>::empty()
        }
    }
}

/// Before any server finishes its handshake no connection is ready, so the
/// registry snapshot is empty; reading it is pure and total, so it can
/// neither block nor fail.
pub proof fn lemma_registry_empty_before_ready(conns: Seq<Connection>)
    requires
        forall|i: int| 0 <= i < conns.len() ==> !((#[trigger] conns[i]).lstate() is Ready),
    ensures
        registry_view(conns) =~= Seq::<ToolView>::empty(),
    decreases conns.len(),
{
    if conns.len() > 0 {
        assert(forall|i: int|
            0 <= i < conns.drop_last().len() ==> conns.drop_last()[i] == conns[i]);
        lemma_registry_empty_before_ready(conns.drop_last());
    }
}

/// One server's failure is isolated: changing a single connection that is
/// not ready before or after the change (it failed to spawn, failed its
/// handshake, or closed) leaves the registry exactly as it was — every
/// other server's tools are untouched.
pub proof fn lemma_failure_isolated(pre: Seq<Connection>, post: Seq<Connection>, i: int)
    requires
        pre.len() == post.len(),
        updated_at(pre, post, i),
        0 <= i < pre.len(),
        !(pre[i].lstate() is Ready),
        !(post[i].lstate() is Ready),
    ensures
        registry_view(post) =~= registry_view(pre),
    decreases pre.len(),
{
    let n = pre.len() as int;
    assert(updated_at(pre.drop_last(), post.drop_last(), i));
    if i == n - 1 {
        assert(pre.drop_last() =~= post.drop_last());
        assert(registry_view(pre.drop_last()) == registry_view(post.drop_last()));
        assert(registry_view(pre) =~= registry_view(pre.drop_last()));
        assert(registry_view(post) =~= registry_view(post.drop_last()));
    } else {
        lemma_failure_isolated(pre.drop_last(), post.drop_last(), i);
        assert(pre.last() == post.last());
    }
}

/// Reading the registry twice with no intervening connection-state change
/// returns identical results: the snapshot is a function of the connection
/// states alone.
pub proof fn lemma_registry_read_idempotent(
    r1: Seq<ToolView>,
    r2: Seq<ToolView>,
    conns: Seq<Connection>,
)
    requires
        r1 =~= registry_view(conns),
        r2 =~= registry_view(conns),
    ensures
        r1 =~= r2,
{
}

/// The aggregated client: every configured server's connection, the
/// registry over the ready ones, and the call path. This is the only
/// surface the host touches; it performs no I/O itself.
pub struct McpSystem {
    conns: Vec<Connection>,
}

impl McpSystem {
    /// The connections, in registration order.
    pub closed spec fn conns_seq(self) -> Seq<Connection> {
        self.conns@
    }

    /// Every connection is well formed and server names never collide, so
    /// a server name resolves to at most one connection.
    pub open spec fn wf(self) -> bool {
        &&& forall|i: int|
            0 <= i < self.conns_seq().len() ==> (#[trigger] self.conns_seq()[i]).wf()
        &&& forall|i: int, j: int|
            0 <= i < j < self.conns_seq().len() ==> self.conns_seq()[i].name_spec()
                != self.conns_seq()[j].name_spec()
    }

    /// Whether some connection serves this name.
    pub open spec fn has_server(self, name: Seq<char>) -> bool {
        exists|i: int|
            0 <= i < self.conns_seq().len() && (#[trigger] self.conns_seq()[i]).name_spec()
                == name
    }

    /// Room to allocate one more request id on every connection.
    pub open spec fn can_issue(self) -> bool {
        forall|i: int|
            0 <= i < self.conns_seq().len() ==> (#[trigger] self.conns_seq()[i]).next_id()
                < u64::MAX
    }

    pub fn new() -> (s: McpSystem)
        ensures
            s.wf(),
            s.conns_seq() =~= Seq::<Connection>::empty(),
    {
        McpSystem { conns: Vec::new() }
    }

    /// How many servers are registered, in any state.
    pub fn server_count(&self) -> (n: usize)
        ensures
            n == self.conns_seq().len(),
    {
        self.conns.len()
    }

    /// Lifecycle state of the connection at `i`, for the host to inspect.
    pub fn life_of(&self, i: usize) -> (s: LifeState)
        requires
            i < self.conns_seq().len(),
        ensures
            s == self.conns_seq()[i as int].lstate(),
    {
        self.conns[i].life_now()
    }

    /// Register a server by name, about to be spawned. A name already
    /// taken is refused, so names stay unique.
    pub fn add_server(&mut self, name: String) -> (r: Option<usize>)
        requires
            old(self).wf(),
        ensures
            final(self).wf(),
            r is Some <==> !old(self).has_server(name@),
            r is None ==> *final(self) == *old(self),
            r matches Some(i) ==> {
                &&& i == old(self).conns_seq().len()
                &&& final(self).conns_seq().len() == old(self).conns_seq().len() + 1
                &&& updated_at(old(self).conns_seq(), final(self).conns_seq().drop_last(), -1)
                &&& final(self).conns_seq()[i as int].name_spec() == name@
                &&& final(self).conns_seq()[i as int].lstate() is Spawning
                &&& final(self).conns_seq()[i as int].pending() =~= Seq::<u64>::empty()
                &&& final(self).conns_seq()[i as int].next_id() == 0
                &&& final(self).conns_seq()[i as int].tools_spec() =~= Seq::<ToolView>::empty()
                &&& final(self).has_server(name@)
            },
    {
        let n = self.conns.len();
        let mut k: usize = 0;
        while k < n
            invariant
                self == old(self),
                self.wf(),
                n == self.conns@.len(),
                0 <= k <= n,
                forall|j: int| 0 <= j < k ==> (#[trigger] self.conns@[j]).name_spec() != name@,
            decreases n - k,
        {
            if self.conns[k].name == name {
                proof {
                    assert(self.conns_seq()[k as int].name_spec() == name@);
                    assert(self.has_server(name@));
                }
                return None;
            }
            k = k + 1;
        }
        let c = Connection::new(name);
        self.conns.push(c);
        proof {
            assert(self.conns@.drop_last() =~= old(self).conns_seq());
        }
        Some(n)
    }

    /// Record the spawn outcome for the connection at `i`.
    pub fn spawn_result(&mut self, i: usize, ok: bool)
        requires
            old(self).wf(),
            i < old(self).conns_seq().len(),
            old(self).conns_seq()[i as int].lstate() is Spawning,
        ensures
            final(self).wf(),
            updated_at(old(self).conns_seq(), final(self).conns_seq(), i as int),
            final(self).conns_seq()[i as int].name_spec() == old(self).conns_seq()[
                i as int
            ].name_spec(),
            ok ==> final(self).conns_seq()[i as int].lstate() is Initializing
                && final(self).conns_seq()[i as int].phase() is Start,
            !ok ==> final(self).conns_seq()[i as int].lstate() is Failed,
            final(self).conns_seq()[i as int].pending() =~= Seq::<u64>::empty(),
            final(self).conns_seq()[i as int].next_id() == old(self).conns_seq()[
                i as int
            ].next_id(),
            final(self).conns_seq()[i as int].tools_spec() == old(self).conns_seq()[
                i as int
            ].tools_spec(),
    {
        let mut c = self.conns.remove(i);
        c.on_spawn(ok);
        self.conns.insert(i, c);
        proof {
            lemma_remove_insert(old(self).conns_seq(), self.conns@, i as int);
        }
    }

    /// Begin the handshake on the connection at `i`: the returned line is
    /// the exact `initialize` request the host must write.
    pub fn start_handshake(&mut self, i: usize) -> (r: (u64, String))
        requires
            old(self).wf(),
            i < old(self).conns_seq().len(),
            old(self).conns_seq()[i as int].lstate() is Initializing,
            old(self).conns_seq()[i as int].phase() is Start,
            old(self).conns_seq()[i as int].next_id() < u64::MAX,
        ensures
            final(self).wf(),
            updated_at(old(self).conns_seq(), final(self).conns_seq(), i as int),
            final(self).conns_seq()[i as int].name_spec() == old(self).conns_seq()[
                i as int
            ].name_spec(),
            final(self).conns_seq()[i as int].lstate() is Initializing,
            final(self).conns_seq()[i as int].phase() is AwaitInit,
            r.0 == old(self).conns_seq()[i as int].next_id(),
            final(self).conns_seq()[i as int].next_id() == old(self).conns_seq()[
                i as int
            ].next_id() + 1,
            final(self).conns_seq()[i as int].pending() =~= seq![r.0],
            final(self).conns_seq()[i as int].tools_spec() == old(self).conns_seq()[
                i as int
            ].tools_spec(),
            r.1@ == wire::request_text(r.0, "initialize"@, init_params_text()) + "\n"@,
            wire::one_line(r.1@),
    {
        let mut c = self.conns.remove(i);
        let r = c.start_handshake();
        self.conns.insert(i, c);
        proof {
            lemma_remove_insert(old(self).conns_seq(), self.conns@, i as int);
        }
        r
    }

    /// Feed one decoded reply to the connection at `i`.
    pub fn reply(&mut self, i: usize, id: u64, outcome: RpcOutcome) -> (eff: ReplyEffect)
        requires
            old(self).wf(),
            i < old(self).conns_seq().len(),
            old(self).conns_seq()[i as int].next_id() < u64::MAX,
        ensures
            final(self).wf(),
            updated_at(old(self).conns_seq(), final(self).conns_seq(), i as int),
            reply_transition(
                old(self).conns_seq()[i as int],
                final(self).conns_seq()[i as int],
                id,
                outcome,
                eff,
            ),
    {
        let mut c = self.conns.remove(i);
        let eff = c.on_reply(id, outcome);
        self.conns.insert(i, c);
        proof {
            lemma_remove_insert(old(self).conns_seq(), self.conns@, i as int);
        }
        eff
    }

    /// Give up the outstanding call `id` on the connection at `i`; a late
    /// response for it will be dropped, not delivered.
    pub fn give_up_call(&mut self, i: usize, id: u64) -> (r: Option<CallError>)
        requires
            old(self).wf(),
            i < old(self).conns_seq().len(),
            old(self).conns_seq()[i as int].lstate() is Ready,
        ensures
            final(self).wf(),
            updated_at(old(self).conns_seq(), final(self).conns_seq(), i as int),
            r is Some <==> old(self).conns_seq()[i as int].pending().contains(id),
            r is Some ==> r->Some_0 is TimedOut,
            final(self).conns_seq()[i as int].pending() =~= old(self).conns_seq()[
                i as int
            ].pending().remove_value(id),
            !final(self).conns_seq()[i as int].pending().contains(id),
            final(self).conns_seq()[i as int].lstate() == old(self).conns_seq()[
                i as int
            ].lstate(),
            final(self).conns_seq()[i as int].name_spec() == old(self).conns_seq()[
                i as int
            ].name_spec(),
            final(self).conns_seq()[i as int].next_id() == old(self).conns_seq()[
                i as int
            ].next_id(),
            final(self).conns_seq()[i as int].tools_spec() == old(self).conns_seq()[
                i as int
            ].tools_spec(),
    {
        let mut c = self.conns.remove(i);
        let r = c.give_up_call(id);
        self.conns.insert(i, c);
        proof {
            lemma_remove_insert(old(self).conns_seq(), self.conns@, i as int);
        }
        r
    }

    /// The connection at `i` is going away: the process exited (`exited`)
    /// or the host shuts it down. Every outstanding call on it fails with
    /// `ConnectionClosed` (the returned ids); none stays suspended, and no
    /// other connection is touched.
    pub fn close_connection(&mut self, i: usize, exited: bool) -> (failed: Vec<u64>)
        requires
            old(self).wf(),
            i < old(self).conns_seq().len(),
        ensures
            final(self).wf(),
            updated_at(old(self).conns_seq(), final(self).conns_seq(), i as int),
            failed@ =~= old(self).conns_seq()[i as int].pending(),
            final(self).conns_seq()[i as int].pending() =~= Seq::<u64>::empty(),
            final(self).conns_seq()[i as int].lstate() == life_step_spec(
                old(self).conns_seq()[i as int].lstate(),
                if exited {
                    LifeEvent::ProcessExit
                } else {
                    LifeEvent::Shutdown
                },
            ),
            !(final(self).conns_seq()[i as int].lstate() is Ready),
            final(self).conns_seq()[i as int].name_spec() == old(self).conns_seq()[
                i as int
            ].name_spec(),
            final(self).conns_seq()[i as int].next_id() == old(self).conns_seq()[
                i as int
            ].next_id(),
            final(self).conns_seq()[i as int].tools_spec() == old(self).conns_seq()[
                i as int
            ].tools_spec(),
    {
        let mut c = self.conns.remove(i);
        let failed = c.conn_down(exited);
        self.conns.insert(i, c);
        proof {
            lemma_remove_insert(old(self).conns_seq(), self.conns@, i as int);
        }
        failed
    }

    /// The index of the connection serving this name, if any.
    pub fn find_server(&self, name: &str) -> (r: Option<usize>)
        requires
            self.wf(),
        ensures
            r is None <==> !self.has_server(name@),
            r matches Some(i) ==> i < self.conns_seq().len() && self.conns_seq()[
                i as int
            ].name_spec() == name@,
    {
        let owned = name.to_owned();
        let n = self.conns.len();
        let mut k: usize = 0;
        while k < n
            invariant
                n == self.conns@.len(),
                owned@ == name@,
                0 <= k <= n,
                forall|j: int| 0 <= j < k ==> (#[trigger] self.conns@[j]).name_spec() != name@,
            decreases n - k,
        {
            if self.conns[k].name == owned {
                proof {
                    assert(self.conns_seq()[k as int].name_spec() == name@);
                    assert(self.has_server(name@));
                }
                return Some(k);
            }
            k = k + 1;
        }
        None
    }

    /// The registry snapshot: every ready connection's tools, concatenated
    /// in registration order. Safe to call at any time — connections still
    /// initializing simply contribute nothing yet — and read-only, so two
    /// reads around no state change return identical lists.
    pub fn list_tools(&self) -> (r: Vec<Tool>)
        ensures
            tool_views(r@) =~= registry_view(self.conns_seq()),
    {
        let mut out: Vec<Tool> = Vec::new();
        let n = self.conns.len();
        let mut i: usize = 0;
        while i < n
            invariant
                n == self.conns@.len(),
                0 <= i <= n,
                tool_views(out@) =~= registry_view(self.conns@.take(i as int)),
            decreases n - i,
        {
            let ghost pre = out@;
            match self.conns[i].life_now() {
                LifeState::Ready => {
                    let mut ts = self.conns[i].tools_copy();
                    out.append(&mut ts);
                },
                _ => {},
            }
            proof {
                let t = self.conns@.take(i as int + 1);
                assert(t.drop_last() =~= self.conns@.take(i as int));
                assert(t.last() == self.conns@[i as int]);
                assert(registry_view(t) == registry_view(t.drop_last()) + if t.last().lstate()
                    is Ready {
                    t.last().tools_spec()
                } else {
                    Seq::<ToolView>::empty()
                });
                if self.conns@[i as int].lstate() is Ready {
                    assert(tool_views(out@) =~= tool_views(pre) + self.conns@[
                        i as int
                    ].tools_spec());
                } else {
                    assert(out@ == pre);
                }
                assert(tool_views(out@) =~= registry_view(t));
            }
            i = i + 1;
        }
        proof {
            assert(self.conns@.take(n as int) =~= self.conns@);
        }
        out
    }

    /// The call path: resolve the server by name, refuse servers that are
    /// unknown, not ready, or closed, refuse tools the server does not
    /// advertise, and otherwise produce the exact `tools/call` request
    /// line. Nothing is changed and nothing is handed to the host to send
    /// unless `Ok` is returned; the returned id is then outstanding on
    /// connection `r.0` until its reply, a timeout, or the close resolves
    /// it.
    pub fn call_tool(&mut self, server: &str, tool: &str, args: &serde_json::Value) -> (r:
        Result<(usize, u64, String), CallError>)
        requires
            old(self).wf(),
            old(self).can_issue(),
        ensures
            final(self).wf(),
            r is Err ==> final(self).conns_seq() =~= old(self).conns_seq(),
            r == Result::<(usize, u64, String), CallError>::Err(CallError::ServerNotFound)
                <==> (!old(self).has_server(server@) || (exists|i: int|
                0 <= i < old(self).conns_seq().len() && (#[trigger] old(self).conns_seq()[
                    i
                ]).name_spec() == server@ && (old(self).conns_seq()[i].lstate() is Spawning
                    || old(self).conns_seq()[i].lstate() is Initializing || old(
                    self,
                ).conns_seq()[i].lstate() is Failed))),
            r matches Result::Ok((ci, id, out_line)) ==> {
                &&& ci < old(self).conns_seq().len()
                &&& old(self).conns_seq()[ci as int].name_spec() == server@
                &&& old(self).conns_seq()[ci as int].lstate() is Ready
                &&& old(self).conns_seq()[ci as int].has_tool(tool@)
                &&& id == old(self).conns_seq()[ci as int].next_id()
                &&& updated_at(old(self).conns_seq(), final(self).conns_seq(), ci as int)
                &&& final(self).conns_seq()[ci as int].pending() =~= old(self).conns_seq()[
                    ci as int
                ].pending().push(id)
                &&& !old(self).conns_seq()[ci as int].pending().contains(id)
                &&& final(self).conns_seq()[ci as int].next_id() == old(self).conns_seq()[
                    ci as int
                ].next_id() + 1
                &&& final(self).conns_seq()[ci as int].lstate() is Ready
                &&& final(self).conns_seq()[ci as int].name_spec() == server@
                &&& out_line@ == wire::request_text(
                    id,
                    "tools/call"@,
                    json::text_of(call_params(tool@, *args)),
                ) + "\n"@
                &&& wire::one_line(out_line@)
            },
            (exists|i: int|
                0 <= i < old(self).conns_seq().len() && (#[trigger] old(self).conns_seq()[
                    i
                ]).name_spec() == server@ && old(self).conns_seq()[i].lstate() is Ready && old(
                    self,
                ).conns_seq()[i].has_tool(tool@)) <==> r is Ok,
            r == Result::<(usize, u64, String), CallError>::Err(CallError::ConnectionClosed)
                <==> (exists|i: int|
                0 <= i < old(self).conns_seq().len() && (#[trigger] old(self).conns_seq()[
                    i
                ]).name_spec() == server@ && old(self).conns_seq()[i].lstate() is Closed),
            r == Result::<(usize, u64, String), CallError>::Err(CallError::ToolNotFound) <==> (
            exists|i: int|
                0 <= i < old(self).conns_seq().len() && (#[trigger] old(self).conns_seq()[
                    i
                ]).name_spec() == server@ && old(self).conns_seq()[i].lstate() is Ready && !old(
                    self,
                ).conns_seq()[i].has_tool(tool@)),
    {
        let found = self.find_server(server);
        let i = match found {
            None => {
                return Result::Err(CallError::ServerNotFound);
            },
            Some(i) => i,
        };
        proof {
            lemma_unique_name_index(self.conns@, i as int, server@);
        }
        match self.conns[i].life_now() {
            LifeState::Ready => {
                let mut c = self.conns.remove(i);
                let r = c.begin_call(tool, args);
                self.conns.insert(i, c);
                proof {
                    lemma_remove_insert(old(self).conns_seq(), self.conns@, i as int);
                    if !(r is Ok) {
                        assert(self.conns@ =~= old(self).conns_seq());
                    }
                }
                match r {
                    Result::Ok((id, line)) => Result::Ok((i, id, line)),
                    Result::Err(e) => Result::Err(e),
                }
            },
            LifeState::Closed => Result::Err(CallError::ConnectionClosed),
            _ => Result::Err(CallError::ServerNotFound),
        }
    }
}

impl McpSystem {
    /// The ids outstanding on any connection of a well-formed system are
    /// pairwise distinct.
    pub proof fn lemma_pending_unique(self, i: int)
        requires
            self.wf(),
            0 <= i < self.conns_seq().len(),
        ensures
            crate::correlate::unique_ids(self.conns_seq()[i].pending()),
    {
        self.conns_seq()[i].lemma_pending_unique();
    }
}

/// With pairwise-distinct names, any index whose connection carries the
/// name is the only one: every other index carries another name.
pub proof fn lemma_unique_name_index(conns: Seq<Connection>, i: int, name: Seq<char>)
    requires
        0 <= i < conns.len(),
        conns[i].name_spec() == name,
        forall|a: int, b: int|
            0 <= a < b < conns.len() ==> conns[a].name_spec() != conns[b].name_spec(),
    ensures
        forall|j: int|
            0 <= j < conns.len() && j != i ==> (#[trigger] conns[j]).name_spec() != name,
{
    assert forall|j: int|
        0 <= j < conns.len() && j != i implies (#[trigger] conns[j]).name_spec() != name by {
        if j < i {
            assert(conns[j].name_spec() != conns[i].name_spec());
        } else {
            assert(conns[i].name_spec() != conns[j].name_spec());
        }
    }
}

/// Removing the element at `i` and inserting a replacement back at `i`
/// leaves every other element in place.
pub proof fn lemma_remove_insert(pre: Seq<Connection>, post: Seq<Connection>, i: int)
    requires
        0 <= i < pre.len(),
        post =~= pre.remove(i).insert(i, post[i]),
        post.len() == pre.len(),
    ensures
        updated_at(pre, post, i),
{
    assert forall|j: int| 0 <= j < pre.len() && j != i implies post[j] == pre[j] by {
        if j < i {
            assert(post[j] == pre.remove(i).insert(i, post[i])[j]);
        }
    }
}

/// One line read from a server's output stream, decoded.
pub enum Inbound {
    /// A response: its correlating id, and its `result` payload on success
    /// or its `error` payload on a server-reported failure.
    Reply(u64, RpcOutcome),
    /// Not JSON, no usable id, or not exactly one of `result`/`error`: a
    /// protocol error for this message only. The caller drops the message;
    /// the connection stays alive.
    Malformed,
}

/// Decode one newline-framed line of a server's output. A response must
/// carry an unsigned integer `id` and exactly one of `result` and `error`;
/// anything else is malformed and is dropped without touching any
/// connection state.
pub fn decode_line(line: &str) -> (r: Inbound)
    ensures
        decoded_line(line@) matches Some(reply) ==> r == Inbound::Reply(reply.0, reply.1),
        decoded_line(line@) is None ==> r is Malformed,
{
    let v = match json::parse_value(line) {
        Some(v) => v,
        None => {
            return Inbound::Malformed;
        },
    };
    let id = match json::get_field(&v, "id") {
        Some(idv) => match json::as_u64(idv) {
            Some(n) => n,
            None => {
                return Inbound::Malformed;
            },
        },
        None => {
            return Inbound::Malformed;
        },
    };
    let err = json::get_field(&v, "error");
    let res = json::get_field(&v, "result");
    match (err, res) {
        (Some(e), None) => Inbound::Reply(id, RpcOutcome::Failure(json::clone_value(e))),
        (None, Some(payload)) => Inbound::Reply(id, RpcOutcome::Success(json::clone_value(payload))),
        _ => Inbound::Malformed,
    }
}

} // verus!
