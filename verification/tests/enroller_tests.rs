use routing_core::enroller::{AddEnrollerCommand, CloudOpts, NodeOpts};
use routing_core::envelope::RequestEnvelope;

fn command(description: Option<&str>) -> AddEnrollerCommand {
    AddEnrollerCommand {
        project_id: "p1".to_string(),
        enroller_identity_id: "idabc".to_string(),
        description: description.map(|d| d.to_string()),
        node_opts: NodeOpts { api_node: "n1".to_string() },
        cloud_opts: CloudOpts { identity: None },
    }
}

#[test]
fn run_builds_the_add_enroller_request() {
    let req = command(None).run(77);
    assert_eq!(req.id, 77);
    assert_eq!(req.path, b"v0/project/p1/enroller".to_vec());
    let mut body = vec![5, 0, 0, 0];
    body.extend_from_slice(b"idabc");
    body.push(0);
    assert_eq!(req.body, body);
}

#[test]
fn run_carries_the_description_when_given() {
    let req = command(Some("ops")).run(78);
    let mut body = vec![5, 0, 0, 0];
    body.extend_from_slice(b"idabc");
    body.push(1);
    body.extend_from_slice(&[3, 0, 0, 0]);
    body.extend_from_slice(b"ops");
    assert_eq!(req.body, body);
    // the built request frames and reads back unchanged
    let frame = req.encode();
    let back = RequestEnvelope::decode(&frame).unwrap();
    assert_eq!(back.id, 78);
    assert_eq!(back.path, req.path);
    assert_eq!(back.body, req.body);
}
