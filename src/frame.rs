use vstd::prelude::*;

verus! {

/// Length of the little-endian prefix that precedes every payload.
pub const PREFIX_LEN: usize = 8;

/// The value of eight bytes read as a little-endian `u64`.
pub open spec fn le_u64(b: Seq<u8>) -> u64
    recommends
        b.len() == 8,
{
    (b[0] as u64) | ((b[1] as u64) << 8u64) | ((b[2] as u64) << 16u64) | ((b[3] as u64) << 24u64)
        | ((b[4] as u64) << 32u64) | ((b[5] as u64) << 40u64) | ((b[6] as u64) << 48u64) | ((
    b[7] as u64) << 56u64)
}

/// The eight little-endian bytes of `n`, least significant first.
pub open spec fn le_bytes(n: u64) -> Seq<u8> {
    seq![
        n as u8,
        (n >> 8u64) as u8,
        (n >> 16u64) as u8,
        (n >> 24u64) as u8,
        (n >> 32u64) as u8,
        (n >> 40u64) as u8,
        (n >> 48u64) as u8,
        (n >> 56u64) as u8,
    ]
}

/// One message on the IPC stream: the payload's length, then the payload.
pub open spec fn frame_of(payload: Seq<u8>) -> Seq<u8> {
    le_bytes(payload.len() as u64) + payload
}

/// What a buffer holding one message carries: `None` where the buffer ends
/// inside the prefix or inside the payload. Bytes after the payload are ignored.
pub open spec fn parse_frame(b: Seq<u8>) -> Option<Seq<u8>> {
    if b.len() < 8 {
        None
    } else if b.len() - 8 < le_u64(b.take(8)) {
        None
    } else {
        Some(b.subrange(8, 8 + le_u64(b.take(8))))
    }
}

/// Why a message could not be read from the IPC stream.
#[derive(Clone, Copy, Debug, PartialEq, Eq, Structural)]
pub enum ProtocolError {
    /// The stream ended inside the length prefix or inside the payload.
    MalformedFrame,
    /// The payload is not the encoding of a command.
    BadCommand,
}

impl ProtocolError {
    /// The message that reports this error.
    pub fn message(&self) -> (r: String)
        ensures
            *self == ProtocolError::MalformedFrame ==> r@ == "malformed frame"@,
            *self == ProtocolError::BadCommand ==> r@ == "bad command"@,
    {
        proof {
            reveal_strlit("malformed frame");
            reveal_strlit("bad command");
        }
        match self {
            ProtocolError::MalformedFrame => String::from_str("malformed frame"),
            ProtocolError::BadCommand => String::from_str("bad command"),
        }
    }
}

/// Decoding the little-endian bytes of a number gives the number back.
pub proof fn lemma_le_round_trip(n: u64)
    ensures
        le_bytes(n).len() == 8,
        le_u64(le_bytes(n)) == n,
{
    let b = le_bytes(n);
    assert(((n as u8) as u64) | ((((n >> 8u64) as u8) as u64) << 8u64) | ((((n >> 16u64) as u8)
        as u64) << 16u64) | ((((n >> 24u64) as u8) as u64) << 24u64) | ((((n >> 32u64) as u8)
        as u64) << 32u64) | ((((n >> 40u64) as u8) as u64) << 40u64) | ((((n >> 48u64) as u8)
        as u64) << 48u64) | ((((n >> 56u64) as u8) as u64) << 56u64) == n) by (bit_vector);
}

/// The payload length announced by a length prefix.
pub fn payload_len(prefix: &[u8; 8]) -> (r: u64)
    ensures
        r == le_u64(prefix@),
{
    (prefix[0] as u64) | ((prefix[1] as u64) << 8u64) | ((prefix[2] as u64) << 16u64) | ((
    prefix[3] as u64) << 24u64) | ((prefix[4] as u64) << 32u64) | ((prefix[5] as u64) << 40u64)
        | ((prefix[6] as u64) << 48u64) | ((prefix[7] as u64) << 56u64)
}

/// The length prefix announcing `n` payload bytes.
pub fn length_prefix(n: u64) -> (r: [u8; 8])
    ensures
        r@ == le_bytes(n),
{
    let r = [
        n as u8,
        (n >> 8u64) as u8,
        (n >> 16u64) as u8,
        (n >> 24u64) as u8,
        (n >> 32u64) as u8,
        (n >> 40u64) as u8,
        (n >> 48u64) as u8,
        (n >> 56u64) as u8,
    ];
    assert(r@ =~= le_bytes(n));
    r
}

/// Frames a payload for the IPC stream: its length as eight little-endian
/// bytes, then the payload itself.
pub fn encode_frame(payload: &[u8]) -> (r: Vec<u8>)
    ensures
        r@ == frame_of(payload@),
        r@.len() == PREFIX_LEN + payload@.len(),
        le_u64(r@.take(8)) == payload@.len(),
        r@.skip(8) == payload@,
{
    let n = payload.len() as u64;
    let prefix = length_prefix(n);
    let mut r: Vec<u8> = Vec::new();
    let mut i: usize = 0;
    while i < 8
        invariant
            i <= 8,
            r@ == prefix@.take(i as int),
        decreases 8 - i,
    {
        r.push(prefix[i]);
        i = i + 1;
        assert(r@ =~= prefix@.take(i as int));
    }
    let mut j: usize = 0;
    while j < payload.len()
        invariant
            j <= payload@.len(),
            r@ == prefix@ + payload@.take(j as int),
        decreases payload@.len() - j,
    {
        r.push(payload[j]);
        j = j + 1;
        assert(r@ =~= prefix@ + payload@.take(j as int));
    }
    assert(payload@.take(j as int) =~= payload@);
    proof {
        lemma_le_round_trip(n);
        assert(r@.take(8) =~= le_bytes(n));
        assert(r@.skip(8) =~= payload@);
    }
    r
}

/// Reads one message out of a buffer that holds what the stream delivered.
/// Fails with `MalformedFrame` exactly where the buffer ends inside the prefix
/// or the payload; anything after the payload is ignored.
pub fn decode_frame(buf: &[u8]) -> (r: Result<Vec<u8>, ProtocolError>)
    ensures
        match parse_frame(buf@) {
            Some(p) => r is Ok && r->Ok_0@ == p,
            None => r is Err && r->Err_0 == ProtocolError::MalformedFrame,
        },
{
    if buf.len() < PREFIX_LEN {
        return Err(ProtocolError::MalformedFrame);
    }
    let prefix: [u8; 8] = [buf[0], buf[1], buf[2], buf[3], buf[4], buf[5], buf[6], buf[7]];
    assert(prefix@ =~= buf@.take(8));
    let n = payload_len(&prefix);
    if ((buf.len() - PREFIX_LEN) as u64) < n {
        return Err(ProtocolError::MalformedFrame);
    }
    let end = PREFIX_LEN + n as usize;
    let mut out: Vec<u8> = Vec::new();
    let mut i: usize = PREFIX_LEN;
    while i < end
        invariant
            PREFIX_LEN <= i <= end,
            end <= buf@.len(),
            out@ == buf@.subrange(8, i as int),
        decreases end - i,
    {
        out.push(buf[i]);
        i = i + 1;
        assert(out@ =~= buf@.subrange(8, i as int));
    }
    Ok(out)
}

/// Every framed payload reads back as itself, and its prefix announces its
/// exact length.
pub proof fn lemma_frame_round_trip(payload: Seq<u8>)
    requires
        payload.len() <= u64::MAX,
    ensures
        frame_of(payload).take(8) == le_bytes(payload.len() as u64),
        le_u64(frame_of(payload).take(8)) == payload.len(),
        parse_frame(frame_of(payload)) == Some(payload),
{
    let f = frame_of(payload);
    lemma_le_round_trip(payload.len() as u64);
    assert(f.take(8) =~= le_bytes(payload.len() as u64));
    assert(f.subrange(8, 8 + payload.len() as int) =~= payload);
}

} // verus!
