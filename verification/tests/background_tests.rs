use routing_core::address::Address;
use routing_core::background::{BackgroundNode, CreateError, NodeRecord, NodeStore};
use routing_core::client::{AskEvent, ClientError};
use routing_core::envelope::{ReplyEnvelope, RequestEnvelope};

fn store_with(name: &str, port: Option<u16>) -> NodeStore {
    NodeStore {
        nodes: vec![NodeRecord { name: name.to_string(), api_port: port }],
    }
}

#[test]
fn end_to_end_ask_over_built_route() {
    // a node "n1" with persisted port 4000
    let node = BackgroundNode::create(store_with("n1", Some(4000)), "n1")
        .expect("a persisted node must be found");
    assert_eq!(node.endpoint().unwrap(), b"localhost:4000".to_vec());
    // the route built over the connection: the transport address first,
    // then the node manager's address
    let conn = Address::from_string("tcp.sender.0");
    let route = node.create_route(&conn);
    assert_eq!(route.len(), 2);
    assert_eq!(route.hop(0).name(), "tcp.sender.0");
    assert_eq!(route.hop(1).name(), "_internal.nodemanager");
    // a noop request against a responder that echoes success
    let req = RequestEnvelope { id: 1, path: b"noop".to_vec(), body: vec![] };
    let events = vec![AskEvent::ReplyArrived(ReplyEnvelope {
        id: 1,
        success: true,
        status: 0,
        body: vec![],
    })];
    let got = node.ask(&req, &events).expect("the echoed success is returned");
    assert_eq!(got, Vec::<u8>::new());
}

#[test]
fn create_fails_before_any_connection_for_unknown_node() {
    let outcome = BackgroundNode::create(store_with("n1", Some(4000)), "ghost");
    assert!(matches!(outcome, Err(CreateError::NoSuchNode)));
}

#[test]
fn missing_transport_config_is_its_own_error() {
    let node = BackgroundNode::new(store_with("n1", None), "n1").unwrap();
    assert!(matches!(node.endpoint(), Err(CreateError::MissingTransportConfig)));
}

#[test]
fn handle_mutations_apply_to_subsequent_calls() {
    let store = NodeStore {
        nodes: vec![
            NodeRecord { name: "n1".to_string(), api_port: Some(4000) },
            NodeRecord { name: "n2".to_string(), api_port: Some(5000) },
        ],
    };
    let mut node = BackgroundNode::new(store, "n1").unwrap();
    node.set_node_name("n2");
    assert_eq!(node.endpoint().unwrap(), b"localhost:5000".to_vec());
    node.set_timeout(250);
    let client = node.make_client(&Address::from_string("tcp.sender.1"));
    assert_eq!(client.timeout_ms, Some(250));
    let overridden = node.make_client_with_timeout(&Address::from_string("tcp.sender.1"), None);
    assert_eq!(overridden.timeout_ms, None);
}

#[test]
fn ask_with_timeout_reports_the_elapsed_timer() {
    let node = BackgroundNode::new(store_with("n1", Some(4000)), "n1").unwrap();
    let req = RequestEnvelope { id: 4, path: b"noop".to_vec(), body: vec![] };
    let outcome = node.ask_with_timeout(&req, &vec![AskEvent::TimerElapsed], 50);
    assert!(matches!(outcome, Err(ClientError::Timeout)));
    // tell over the same handle sees the acknowledgement
    let events = vec![AskEvent::ReplyArrived(ReplyEnvelope {
        id: 4,
        success: true,
        status: 0,
        body: vec![],
    })];
    assert!(node.tell(&req, &events).is_ok());
}
