use vstd::prelude::*;
use vstd::bytes::u32_to_le_bytes;
use vstd::bytes::spec_u32_to_le_bytes;
use vstd::utf8::encode_utf8;
use crate::envelope::RequestEnvelope;

verus! {

/// Which node runs the call.
pub struct NodeOpts {
    pub api_node: String,
}

/// How the call reaches the cloud controller; the identity to enroll under
/// is optional, the runner's default applies otherwise.
pub struct CloudOpts {
    pub identity: Option<String>,
}

/// The command that authorizes an identity as an enroller of a project:
/// the project, the identity to authorize, and an optional description of
/// it.
pub struct AddEnrollerCommand {
    pub project_id: String,
    pub enroller_identity_id: String,
    pub description: Option<String>,
    pub node_opts: NodeOpts,
    pub cloud_opts: CloudOpts,
}

/// The method path of the call: the add-enroller endpoint of the project.
pub open spec fn spec_enroller_path(project_id: Seq<char>) -> Seq<u8> {
    seq![118u8, 48u8, 47u8, 112u8, 114u8, 111u8, 106u8, 101u8, 99u8, 116u8, 47u8] + encode_utf8(
        project_id,
    ) + seq![47u8, 101u8, 110u8, 114u8, 111u8, 108u8, 108u8, 101u8, 114u8]
}

/// The body of the call: the length-prefixed identity to authorize, then a
/// presence flag and, when present, the length-prefixed description.
pub open spec fn spec_enroller_body(identity: Seq<char>, description: Option<Seq<char>>) -> Seq<
    u8,
> {
    spec_u32_to_le_bytes(encode_utf8(identity).len() as u32) + encode_utf8(identity) + match description {
        Option::None => seq![0u8],
        Option::Some(d) => seq![1u8] + spec_u32_to_le_bytes(encode_utf8(d).len() as u32)
            + encode_utf8(d),
    }
}

/// Append a copy of the slice to `out`.
fn push_slice(out: &mut Vec<u8>, src: &[u8])
    ensures
        final(out)@ == old(out)@ + src@,
{
    let ghost base = out@;
    let n = src.len();
    let mut i: usize = 0;
    while i < n
        invariant
            i <= src@.len(),
            n == src@.len(),
            out@ == base + src@.subrange(0, i as int),
        decreases n - i,
    {
        out.push(*vstd::slice::slice_index_get(src, i));
        proof {
            assert(out@ =~= base + src@.subrange(0, i + 1 as int));
        }
        i += 1;
    }
    proof {
        assert(out@ =~= base + src@);
    }
}

impl AddEnrollerCommand {
    /// Build the request this command sends under the correlation id the
    /// runner drew: the runner connects to the command's node, sends the
    /// request, waits by the correlation rule and prints the outcome.
    pub fn run(&self, id: u64) -> (r: RequestEnvelope)
        requires
            encode_utf8(self.enroller_identity_id@).len() <= u32::MAX,
            self.description matches Some(d) ==> encode_utf8(d@).len() <= u32::MAX,
        ensures
            r.id == id,
            r.path@ == spec_enroller_path(self.project_id@),
            r.body@ == spec_enroller_body(
                self.enroller_identity_id@,
                match self.description {
                    Option::None => Option::<Seq<char>>::None,
                    Option::Some(d) => Option::<Seq<char>>::Some(d@),
                },
            ),
    {
        let mut path: Vec<u8> = Vec::new();
        path.push(118);
        path.push(48);
        path.push(47);
        path.push(112);
        path.push(114);
        path.push(111);
        path.push(106);
        path.push(101);
        path.push(99);
        path.push(116);
        path.push(47);
        push_slice(&mut path, self.project_id.as_str().as_bytes());
        path.push(47);
        path.push(101);
        path.push(110);
        path.push(114);
        path.push(111);
        path.push(108);
        path.push(108);
        path.push(101);
        path.push(114);
        proof {
            assert(path@ =~= spec_enroller_path(self.project_id@));
        }
        let mut body: Vec<u8> = Vec::new();
        let ident = self.enroller_identity_id.as_str().as_bytes();
        let mut prefix = u32_to_le_bytes(ident.len() as u32);
        body.append(&mut prefix);
        push_slice(&mut body, ident);
        match &self.description {
            None => {
                body.push(0);
            },
            Some(d) => {
                body.push(1);
                let dbytes = d.as_str().as_bytes();
                let mut dprefix = u32_to_le_bytes(dbytes.len() as u32);
                body.append(&mut dprefix);
                push_slice(&mut body, dbytes);
            },
        }
        proof {
            assert(body@ =~= spec_enroller_body(
                self.enroller_identity_id@,
                match self.description {
                    Option::None => Option::<Seq<char>>::None,
                    Option::Some(d) => Option::<Seq<char>>::Some(d@),
                },
            ));
        }
        RequestEnvelope { id, path, body }
    }
}

} // verus!
