use vstd::prelude::*;
use vstd::bytes::*;

verus! {

/// The wire envelope of a request: the correlation id linking the request
/// to its eventual reply, the method/path identifier of the operation, and
/// the encoded body owned by the encoding collaborator.
pub struct RequestEnvelope {
    pub id: u64,
    pub path: Vec<u8>,
    pub body: Vec<u8>,
}

/// The wire envelope of a reply: the correlation id it answers, whether the
/// peer reports success, the peer's status code when it does not, and the
/// encoded body or error detail.
pub struct ReplyEnvelope {
    pub id: u64,
    pub success: bool,
    pub status: u32,
    pub body: Vec<u8>,
}

/// Frame layout of a request: id, length-prefixed path, length-prefixed
/// body, all little endian.
pub open spec fn spec_encode_request(id: u64, path: Seq<u8>, body: Seq<u8>) -> Seq<u8> {
    spec_u64_to_le_bytes(id) + spec_u32_to_le_bytes(path.len() as u32) + path
        + spec_u32_to_le_bytes(body.len() as u32) + body
}

/// The one parse a request frame admits: `None` on any malformed input,
/// among them trailing bytes.
pub open spec fn spec_decode_request(b: Seq<u8>) -> Option<(u64, Seq<u8>, Seq<u8>)> {
    if b.len() < 16 {
        None
    } else {
        let id = spec_u64_from_le_bytes(b.subrange(0, 8));
        let plen = spec_u32_from_le_bytes(b.subrange(8, 12)) as int;
        if b.len() < 16 + plen {
            None
        } else {
            let path = b.subrange(12, 12 + plen);
            let blen = spec_u32_from_le_bytes(b.subrange(12 + plen, 16 + plen)) as int;
            if b.len() != 16 + plen + blen {
                None
            } else {
                Some((id, path, b.subrange(16 + plen, 16 + plen + blen)))
            }
        }
    }
}

/// Frame layout of a reply: id, one success flag byte, status code,
/// length-prefixed body.
pub open spec fn spec_encode_reply(id: u64, success: bool, status: u32, body: Seq<u8>) -> Seq<u8> {
    spec_u64_to_le_bytes(id) + seq![if success { 1u8 } else { 0u8 }] + spec_u32_to_le_bytes(status)
        + spec_u32_to_le_bytes(body.len() as u32) + body
}

/// The one parse a reply frame admits; the flag byte must be exactly 0 or 1.
pub open spec fn spec_decode_reply(b: Seq<u8>) -> Option<(u64, bool, u32, Seq<u8>)> {
    if b.len() < 17 {
        None
    } else {
        let id = spec_u64_from_le_bytes(b.subrange(0, 8));
        let flag = b[8];
        let status = spec_u32_from_le_bytes(b.subrange(9, 13));
        let blen = spec_u32_from_le_bytes(b.subrange(13, 17)) as int;
        if flag != 0 && flag != 1 {
            None
        } else if b.len() != 17 + blen {
            None
        } else {
            Some((id, flag == 1, status, b.subrange(17, 17 + blen)))
        }
    }
}

/// Append a copy of `src` to `out`.
fn push_bytes(out: &mut Vec<u8>, src: &Vec<u8>)
    ensures
        final(out)@ == old(out)@ + src@,
{
    let ghost base = out@;
    let mut i: usize = 0;
    while i < src.len()
        invariant
            i <= src@.len(),
            out@ == base + src@.subrange(0, i as int),
        decreases src@.len() - i,
    {
        out.push(src[i]);
        proof {
            assert(out@ =~= base + src@.subrange(0, i + 1 as int));
        }
        i += 1;
    }
    proof {
        assert(out@ =~= base + src@);
    }
}

impl RequestEnvelope {
    pub open spec fn wire_sized(self) -> bool {
        self.path@.len() <= u32::MAX && self.body@.len() <= u32::MAX
    }

    /// Encode the envelope into its frame.
    pub fn encode(&self) -> (r: Vec<u8>)
        requires
            self.wire_sized(),
        ensures
            r@ == spec_encode_request(self.id, self.path@, self.body@),
    {
        let mut out = u64_to_le_bytes(self.id);
        let mut plen = u32_to_le_bytes(self.path.len() as u32);
        out.append(&mut plen);
        push_bytes(&mut out, &self.path);
        let mut blen = u32_to_le_bytes(self.body.len() as u32);
        out.append(&mut blen);
        push_bytes(&mut out, &self.body);
        proof {
            assert(out@ =~= spec_encode_request(self.id, self.path@, self.body@));
        }
        out
    }

    /// Decode a frame; `None` on any malformed input, a decode failure the
    /// caller must keep distinct from transport and remote failures.
    pub fn decode(bytes: &Vec<u8>) -> (r: Option<RequestEnvelope>)
        ensures
            match r {
                Some(env) => spec_decode_request(bytes@) == Some((env.id, env.path@, env.body@)),
                None => spec_decode_request(bytes@) is None,
            },
    {
        let n = bytes.len();
        if n < 16 {
            return None;
        }
        let s = bytes.as_slice();
        let id = u64_from_le_bytes(vstd::slice::slice_subrange(s, 0, 8));
        let plen32 = u32_from_le_bytes(vstd::slice::slice_subrange(s, 8, 12));
        let plen = plen32 as usize;
        if n - 16 < plen {
            return None;
        }
        let path = vstd::slice::slice_to_vec(vstd::slice::slice_subrange(s, 12, 12 + plen));
        let blen32 = u32_from_le_bytes(vstd::slice::slice_subrange(s, 12 + plen, 16 + plen));
        let blen = blen32 as usize;
        if n - 16 - plen != blen {
            return None;
        }
        let body = vstd::slice::slice_to_vec(
            vstd::slice::slice_subrange(s, 16 + plen, 16 + plen + blen),
        );
        Some(RequestEnvelope { id, path, body })
    }
}

impl ReplyEnvelope {
    pub open spec fn wire_sized(self) -> bool {
        self.body@.len() <= u32::MAX
    }

    /// Encode the envelope into its frame.
    pub fn encode(&self) -> (r: Vec<u8>)
        requires
            self.wire_sized(),
        ensures
            r@ == spec_encode_reply(self.id, self.success, self.status, self.body@),
    {
        let mut out = u64_to_le_bytes(self.id);
        out.push(if self.success { 1u8 } else { 0u8 });
        let mut st = u32_to_le_bytes(self.status);
        out.append(&mut st);
        let mut blen = u32_to_le_bytes(self.body.len() as u32);
        out.append(&mut blen);
        push_bytes(&mut out, &self.body);
        proof {
            assert(out@ =~= spec_encode_reply(self.id, self.success, self.status, self.body@));
        }
        out
    }

    /// Decode a frame; `None` on any malformed input.
    pub fn decode(bytes: &Vec<u8>) -> (r: Option<ReplyEnvelope>)
        ensures
            match r {
                Some(env) => spec_decode_reply(bytes@) == Some(
                    (env.id, env.success, env.status, env.body@),
                ),
                None => spec_decode_reply(bytes@) is None,
            },
    {
        let n = bytes.len();
        if n < 17 {
            return None;
        }
        let s = bytes.as_slice();
        let id = u64_from_le_bytes(vstd::slice::slice_subrange(s, 0, 8));
        let flag = *vstd::slice::slice_index_get(s, 8);
        if flag != 0 && flag != 1 {
            return None;
        }
        let status = u32_from_le_bytes(vstd::slice::slice_subrange(s, 9, 13));
        let blen32 = u32_from_le_bytes(vstd::slice::slice_subrange(s, 13, 17));
        let blen = blen32 as usize;
        if n - 17 != blen {
            return None;
        }
        let body = vstd::slice::slice_to_vec(vstd::slice::slice_subrange(s, 17, 17 + blen));
        Some(ReplyEnvelope { id, success: flag == 1, status, body })
    }
}

/// Round trip: decoding an encoded request frame yields exactly the
/// original id, path and body, for every representable envelope.
pub proof fn lemma_request_round_trip(id: u64, path: Seq<u8>, body: Seq<u8>)
    requires
        path.len() <= u32::MAX,
        body.len() <= u32::MAX,
    ensures
        spec_decode_request(spec_encode_request(id, path, body)) == Some((id, path, body)),
{
    lemma_auto_spec_u64_to_from_le_bytes();
    lemma_auto_spec_u32_to_from_le_bytes();
    let b = spec_encode_request(id, path, body);
    let plen = path.len() as int;
    let blen = body.len() as int;
    assert(b.len() == 16 + plen + blen);
    assert(b.subrange(0, 8) =~= spec_u64_to_le_bytes(id));
    assert(b.subrange(8, 12) =~= spec_u32_to_le_bytes(path.len() as u32));
    assert(spec_u32_from_le_bytes(b.subrange(8, 12)) == plen);
    assert(b.subrange(12, 12 + plen) =~= path);
    assert(b.subrange(12 + plen, 16 + plen) =~= spec_u32_to_le_bytes(body.len() as u32));
    assert(spec_u32_from_le_bytes(b.subrange(12 + plen, 16 + plen)) == blen);
    assert(b.subrange(16 + plen, 16 + plen + blen) =~= body);
}

/// Round trip: decoding an encoded reply frame yields exactly the original
/// id, flag, status and body, for every representable envelope.
pub proof fn lemma_reply_round_trip(id: u64, success: bool, status: u32, body: Seq<u8>)
    requires
        body.len() <= u32::MAX,
    ensures
        spec_decode_reply(spec_encode_reply(id, success, status, body)) == Some(
            (id, success, status, body),
        ),
{
    lemma_auto_spec_u64_to_from_le_bytes();
    lemma_auto_spec_u32_to_from_le_bytes();
    let b = spec_encode_reply(id, success, status, body);
    let blen = body.len() as int;
    assert(b.len() == 17 + blen);
    assert(b.subrange(0, 8) =~= spec_u64_to_le_bytes(id));
    assert(b[8] == if success { 1u8 } else { 0u8 });
    assert(b.subrange(9, 13) =~= spec_u32_to_le_bytes(status));
    assert(b.subrange(13, 17) =~= spec_u32_to_le_bytes(body.len() as u32));
    assert(spec_u32_from_le_bytes(b.subrange(13, 17)) == blen);
    assert(b.subrange(17, 17 + blen) =~= body);
}

} // verus!
