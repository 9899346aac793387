use vstd::prelude::*;
use crate::address::Address;
use crate::client::AskEvent;
use crate::client::Client;
use crate::client::ClientError;
use crate::client::Reply;
use crate::client::ReplyModel;
use crate::client::run_ask;
use crate::client::spec_run_ask;
use crate::envelope::RequestEnvelope;
use crate::route::Route;

verus! {

/// The persisted descriptor of a locally known node: its name and, when
/// its setup recorded one, the port its API transport listens on. The
/// store that persists these on disk is a collaborator; it hands the
/// records in as plain values.
pub struct NodeRecord {
    pub name: String,
    pub api_port: Option<u16>,
}

impl Clone for NodeRecord {
    fn clone(&self) -> (r: Self)
        ensures
            r == *self,
    {
        NodeRecord { name: self.name.clone(), api_port: self.api_port }
    }
}

/// The locally persisted node descriptors, as loaded from the state store.
pub struct NodeStore {
    pub nodes: Vec<NodeRecord>,
}

/// The first record named `name`, if any.
pub open spec fn spec_lookup(nodes: Seq<NodeRecord>, name: Seq<char>) -> Option<NodeRecord>
    decreases nodes.len(),
{
    if nodes.len() == 0 {
        None
    } else if nodes[0].name@ == name {
        Some(nodes[0])
    } else {
        spec_lookup(nodes.drop_first(), name)
    }
}

impl NodeStore {
    /// Look the named node's record up.
    pub fn lookup(&self, name: &str) -> (r: Option<NodeRecord>)
        ensures
            r == spec_lookup(self.nodes@, name@),
    {
        proof {
            assert(self.nodes@.subrange(0, self.nodes@.len() as int) =~= self.nodes@);
        }
        let name_owned = name.to_owned();
        let mut i: usize = 0;
        while i < self.nodes.len()
            invariant
                i <= self.nodes@.len(),
                spec_lookup(self.nodes@.subrange(i as int, self.nodes@.len() as int), name@)
                    == spec_lookup(self.nodes@, name@),
            decreases self.nodes@.len() - i,
        {
            let ghost rest = self.nodes@.subrange(i as int, self.nodes@.len() as int);
            proof {
                assert(rest[0] == self.nodes@[i as int]);
                assert(rest.drop_first() =~= self.nodes@.subrange(
                    i + 1 as int,
                    self.nodes@.len() as int,
                ));
            }
            if self.nodes[i].name == name_owned {
                return Some(self.nodes[i].clone());
            }
            i += 1;
        }
        None
    }
}

/// The name of the node manager's mailbox, the well-known base of every
/// route to a node's API.
pub open spec fn nodemanager_name() -> Seq<char> {
    "_internal.nodemanager"@
}

pub fn nodemanager_addr() -> (r: Address)
    ensures
        r@ == nodemanager_name(),
{
    Address::from_string("_internal.nodemanager")
}

/// The errors of turning a node name into a reachable endpoint: the name
/// has no persisted record, or the record never stored an API transport.
#[derive(Debug)]
pub enum CreateError {
    NoSuchNode,
    MissingTransportConfig,
}

/// The decimal digits of `n`, most significant first, as ASCII bytes.
pub open spec fn spec_decimal(n: int) -> Seq<u8>
    decreases n,
{
    if n < 10 {
        seq![(48 + if n >= 0 { n } else { 0 }) as u8]
    } else {
        spec_decimal(n / 10).push((48 + n % 10) as u8)
    }
}

/// Render a port number in decimal.
pub fn decimal_bytes(n: u16) -> (r: Vec<u8>)
    ensures
        r@ == spec_decimal(n as int),
    decreases n,
{
    if n < 10 {
        let mut v: Vec<u8> = Vec::new();
        v.push(48 + n as u8);
        proof {
            assert(v@ =~= spec_decimal(n as int));
        }
        v
    } else {
        let mut v = decimal_bytes(n / 10);
        v.push(48 + (n % 10) as u8);
        v
    }
}

/// The endpoint a node listening on `port` of this machine is reached at.
pub open spec fn spec_endpoint(port: u16) -> Seq<u8> {
    seq![
        108u8,
        111u8,
        99u8,
        97u8,
        108u8,
        104u8,
        111u8,
        115u8,
        116u8,
        58u8,
    ] + spec_decimal(port as int)
}

/// A handle to a node already running on this machine under a given name,
/// hiding connection setup from call sites. Every call rebuilds its route
/// from a fresh connection, so no stale connection outlives a restart of
/// the remote node.
pub struct BackgroundNode {
    pub node_store: NodeStore,
    pub node_name: String,
    pub to: Route,
    pub timeout_ms: Option<u64>,
}

impl BackgroundNode {
    /// Create a handle for `node_name`: fails with `NoSuchNode` right away
    /// when no record of a running node with that name is persisted, and
    /// attempts no connection either way.
    pub fn new(node_store: NodeStore, node_name: &str) -> (r: Result<
        BackgroundNode,
        CreateError,
    >)
        ensures
            match r {
                Ok(bn) => {
                    &&& spec_lookup(node_store.nodes@, node_name@) is Some
                    &&& bn.node_store == node_store
                    &&& bn.node_name@ == node_name@
                    &&& bn.to@ == seq![nodemanager_name()]
                    &&& bn.timeout_ms is None
                },
                Err(e) => spec_lookup(node_store.nodes@, node_name@) is None && e
                    == CreateError::NoSuchNode,
            },
    {
        if node_store.lookup(node_name).is_none() {
            return Err(CreateError::NoSuchNode);
        }
        Ok(
            BackgroundNode {
                node_store,
                node_name: node_name.to_owned(),
                to: Route::single(nodemanager_addr()),
                timeout_ms: None,
            },
        )
    }

    /// Create a handle for `node_name`, as `new`; the transport instance
    /// the calls will ride on is the collaborator's to make once.
    pub fn create(node_store: NodeStore, node_name: &str) -> (r: Result<
        BackgroundNode,
        CreateError,
    >)
        ensures
            match r {
                Ok(bn) => {
                    &&& spec_lookup(node_store.nodes@, node_name@) is Some
                    &&& bn.node_store == node_store
                    &&& bn.node_name@ == node_name@
                    &&& bn.to@ == seq![nodemanager_name()]
                    &&& bn.timeout_ms is None
                },
                Err(e) => spec_lookup(node_store.nodes@, node_name@) is None && e
                    == CreateError::NoSuchNode,
            },
    {
        BackgroundNode::new(node_store, node_name)
    }

    /// Point the handle at another node for subsequent calls.
    pub fn set_node_name(&mut self, node_name: &str)
        ensures
            final(self).node_name@ == node_name@,
            final(self).node_store == old(self).node_store,
            final(self).to == old(self).to,
            final(self).timeout_ms == old(self).timeout_ms,
    {
        self.node_name = node_name.to_owned();
    }

    /// Use a default timeout for subsequent calls; in-flight calls keep
    /// the timer they were given.
    pub fn set_timeout(&mut self, timeout_ms: u64)
        ensures
            final(self).timeout_ms == Some(timeout_ms),
            final(self).node_store == old(self).node_store,
            final(self).node_name == old(self).node_name,
            final(self).to == old(self).to,
    {
        self.timeout_ms = Some(timeout_ms);
    }

    /// Resolve the handle's node to the endpoint its API listens on, from
    /// the persisted record alone.
    pub fn endpoint(&self) -> (r: Result<Vec<u8>, CreateError>)
        ensures
            match spec_lookup(self.node_store.nodes@, self.node_name@) {
                Option::None => r matches Err(e) && e == CreateError::NoSuchNode,
                Option::Some(rec) => match rec.api_port {
                    Option::None => r matches Err(e) && e == CreateError::MissingTransportConfig,
                    Option::Some(port) => r matches Ok(v) && v@ == spec_endpoint(port),
                },
            },
    {
        let rec = match self.node_store.lookup(self.node_name.as_str()) {
            Some(rec) => rec,
            None => {
                return Err(CreateError::NoSuchNode);
            },
        };
        let port = match rec.api_port {
            Some(port) => port,
            None => {
                return Err(CreateError::MissingTransportConfig);
            },
        };
        let mut v: Vec<u8> = Vec::new();
        v.push(108);
        v.push(111);
        v.push(99);
        v.push(97);
        v.push(108);
        v.push(104);
        v.push(111);
        v.push(115);
        v.push(116);
        v.push(58);
        let mut digits = decimal_bytes(port);
        v.append(&mut digits);
        proof {
            assert(v@ =~= spec_endpoint(port));
        }
        Ok(v)
    }

    /// Build the route of one call: the transport connection's send-side
    /// address first, then the handle's base route, so a message first
    /// traverses the transport and then the remaining local path.
    pub fn create_route(&self, connection_sender: &Address) -> (r: Route)
        ensures
            r@ == seq![connection_sender@] + self.to@,
    {
        let mut route = self.to.clone();
        route.prepend(connection_sender.clone());
        route
    }

    /// Make a request/reply client over a fresh connection to the node,
    /// carrying the handle's default timeout.
    pub fn make_client(&self, connection_sender: &Address) -> (r: Client)
        ensures
            r.route@ == seq![connection_sender@] + self.to@,
            r.timeout_ms == self.timeout_ms,
    {
        self.make_client_with_timeout(connection_sender, self.timeout_ms)
    }

    /// Make a request/reply client over a fresh connection to the node,
    /// with a per-call timeout.
    pub fn make_client_with_timeout(
        &self,
        connection_sender: &Address,
        timeout_ms: Option<u64>,
    ) -> (r: Client)
        ensures
            r.route@ == seq![connection_sender@] + self.to@,
            r.timeout_ms == timeout_ms,
    {
        let route = self.create_route(connection_sender);
        Client::new(&route, timeout_ms)
    }

    /// Send a request and wait for either a decodable reply or an API
    /// failure: the outcome over the observed events, by the correlation
    /// rule; a timeout is an outcome of its own.
    pub fn ask_and_get_reply(&self, req: &RequestEnvelope, events: &Vec<AskEvent>) -> (r: Reply)
        ensures
            r@ == spec_run_ask(req.id, events@),
    {
        run_ask(req.id, events)
    }

    /// Send a request and expect a decodable response: the correlated
    /// reply's payload, or the distinct error that ended the wait.
    pub fn ask(&self, req: &RequestEnvelope, events: &Vec<AskEvent>) -> (r: Result<
        Vec<u8>,
        ClientError,
    >)
        ensures
            match spec_run_ask(req.id, events@) {
                ReplyModel::Successful(body) => r matches Ok(b) && b@ == body,
                ReplyModel::Failed(status, message) => r matches Err(e) && e
                    matches ClientError::RemoteFailure(f) && f.status == status && f.message@
                    == message,
                ReplyModel::Timeout => r matches Err(e) && e matches ClientError::Timeout,
            },
    {
        self.ask_and_get_reply(req, events).success()
    }

    /// As `ask`, with a per-call timeout: the timer it configures reaches
    /// the wait as a `TimerElapsed` event, and the outcome is decided by
    /// the same correlation rule.
    pub fn ask_with_timeout(
        &self,
        req: &RequestEnvelope,
        events: &Vec<AskEvent>,
        timeout_ms: u64,
    ) -> (r: Result<Vec<u8>, ClientError>)
        ensures
            match spec_run_ask(req.id, events@) {
                ReplyModel::Successful(body) => r matches Ok(b) && b@ == body,
                ReplyModel::Failed(status, message) => r matches Err(e) && e
                    matches ClientError::RemoteFailure(f) && f.status == status && f.message@
                    == message,
                ReplyModel::Timeout => r matches Err(e) && e matches ClientError::Timeout,
            },
    {
        let _ = timeout_ms;
        self.ask_and_get_reply(req, events).success()
    }

    /// Send a request but decode no response: only the delivery
    /// acknowledgement is waited for.
    pub fn tell(&self, req: &RequestEnvelope, events: &Vec<AskEvent>) -> (r: Result<
        (),
        ClientError,
    >)
        ensures
            match spec_run_ask(req.id, events@) {
                ReplyModel::Successful(_) => r is Ok,
                ReplyModel::Failed(status, message) => r matches Err(e) && e
                    matches ClientError::RemoteFailure(f) && f.status == status && f.message@
                    == message,
                ReplyModel::Timeout => r matches Err(e) && e matches ClientError::Timeout,
            },
    {
        match run_ask(req.id, events) {
            Reply::Successful(_) => Ok(()),
            Reply::Failed(f) => Err(ClientError::RemoteFailure(f)),
            Reply::Timeout => Err(ClientError::Timeout),
        }
    }
}

} // verus!
