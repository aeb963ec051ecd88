//! The RTDE binary protocol: frames of `u16 length | u8 type | body`, the
//! handshake payloads, and the decoding of data packages by recipe.
//!
//! Doubles travel as their IEEE-754 bit patterns (`u64`); turning them into
//! floating-point numbers is left to the caller.
use vstd::prelude::*;
use crate::error::URError;
use crate::text::{split_at_char, split_on, str_eq, string_views};

verus! {

/// Port of the RTDE interface.
pub const RTDE_PORT: u16 = 30004;

#[derive(Debug, Clone, Copy, PartialEq, Eq, Structural)]
pub enum RTDEMessage {
    RequestProtocolVersion,
    TextMessage,
    DataPackage,
    ControlPackageSetupOutputs,
    ControlPackageSetupInputs,
    ControlPackageStart,
    ControlPackagePause,
}

/// The type byte of a message kind.
pub open spec fn type_byte(m: RTDEMessage) -> u8 {
    match m {
        RTDEMessage::RequestProtocolVersion => 86,
        RTDEMessage::TextMessage => 77,
        RTDEMessage::DataPackage => 85,
        RTDEMessage::ControlPackageSetupOutputs => 79,
        RTDEMessage::ControlPackageSetupInputs => 78,
        RTDEMessage::ControlPackageStart => 83,
        RTDEMessage::ControlPackagePause => 84,
    }
}

/// The message kind a type byte names, if any.
pub open spec fn message_of(b: u8) -> Option<RTDEMessage> {
    if b == 86 {
        Some(RTDEMessage::RequestProtocolVersion)
    } else if b == 77 {
        Some(RTDEMessage::TextMessage)
    } else if b == 85 {
        Some(RTDEMessage::DataPackage)
    } else if b == 79 {
        Some(RTDEMessage::ControlPackageSetupOutputs)
    } else if b == 78 {
        Some(RTDEMessage::ControlPackageSetupInputs)
    } else if b == 83 {
        Some(RTDEMessage::ControlPackageStart)
    } else if b == 84 {
        Some(RTDEMessage::ControlPackagePause)
    } else {
        None
    }
}

impl RTDEMessage {
    pub fn to_byte(self) -> (b: u8)
        ensures
            b == type_byte(self),
    {
        match self {
            RTDEMessage::RequestProtocolVersion => 86,
            RTDEMessage::TextMessage => 77,
            RTDEMessage::DataPackage => 85,
            RTDEMessage::ControlPackageSetupOutputs => 79,
            RTDEMessage::ControlPackageSetupInputs => 78,
            RTDEMessage::ControlPackageStart => 83,
            RTDEMessage::ControlPackagePause => 84,
        }
    }

    pub fn from_byte(b: u8) -> (r: Option<RTDEMessage>)
        ensures
            r == message_of(b),
    {
        if b == 86 {
            Some(RTDEMessage::RequestProtocolVersion)
        } else if b == 77 {
            Some(RTDEMessage::TextMessage)
        } else if b == 85 {
            Some(RTDEMessage::DataPackage)
        } else if b == 79 {
            Some(RTDEMessage::ControlPackageSetupOutputs)
        } else if b == 78 {
            Some(RTDEMessage::ControlPackageSetupInputs)
        } else if b == 83 {
            Some(RTDEMessage::ControlPackageStart)
        } else if b == 84 {
            Some(RTDEMessage::ControlPackagePause)
        } else {
            None
        }
    }
}

/// `256^k`.
pub open spec fn pow256(k: nat) -> nat
    decreases k,
{
    if k == 0 {
        1
    } else {
        256 * pow256((k - 1) as nat)
    }
}

/// The big-endian value of a byte string.
pub open spec fn be_value(s: Seq<u8>) -> nat
    decreases s.len(),
{
    if s.len() == 0 {
        0
    } else {
        be_value(s.drop_last()) * 256 + s.last() as nat
    }
}

/// The `k` low bytes of `x`, most significant first.
pub open spec fn be_bytes(x: nat, k: nat) -> Seq<u8>
    decreases k,
{
    if k == 0 {
        Seq::empty()
    } else {
        be_bytes(x / 256, (k - 1) as nat).push((x % 256) as u8)
    }
}

proof fn lemma_pow256_pos(k: nat)
    ensures
        pow256(k) > 0,
    decreases k,
{
    if k > 0 {
        lemma_pow256_pos((k - 1) as nat);
    }
}

/// Reading back `k` big-endian bytes gives the value modulo `256^k`.
proof fn lemma_be_round_trip(x: nat, k: nat)
    ensures
        be_bytes(x, k).len() == k,
        be_value(be_bytes(x, k)) == x % pow256(k),
    decreases k,
{
    if k == 0 {
        assert(x % 1 == 0);
    } else {
        let p = pow256((k - 1) as nat);
        lemma_pow256_pos((k - 1) as nat);
        lemma_be_round_trip(x / 256, (k - 1) as nat);
        let s = be_bytes(x, k);
        assert(s.drop_last() == be_bytes(x / 256, (k - 1) as nat));
        vstd::arithmetic::div_mod::lemma_breakdown(x as int, 256, p as int);
        assert(be_value(s) == be_value(s.drop_last()) * 256 + (x % 256));
        assert(be_value(s) == ((x / 256) % p) * 256 + x % 256);
        assert(x % (256 * p) == 256 * ((x / 256) % p) + x % 256);
    }
}

proof fn lemma_be_value_bound(s: Seq<u8>)
    ensures
        be_value(s) < pow256(s.len()),
    decreases s.len(),
{
    if s.len() > 0 {
        lemma_be_value_bound(s.drop_last());
        let v = be_value(s.drop_last());
        let p = pow256(s.drop_last().len());
        assert(v * 256 + s.last() < 256 * p) by (nonlinear_arith)
            requires
                v < p,
                s.last() < 256,
        ;
    }
}

proof fn lemma_pow256_values()
    ensures
        pow256(2) == 0x1_0000,
        pow256(4) == 0x1_0000_0000,
        pow256(8) == 0x1_0000_0000_0000_0000,
{
    reveal_with_fuel(pow256, 9);
}

/// Appends the `k` low bytes of `x`, most significant first.
fn push_be(out: &mut Vec<u8>, x: u64, k: usize)
    requires
        k <= 8,
    ensures
        final(out)@ == old(out)@ + be_bytes(x as nat, k as nat),
    decreases k,
{
    if k > 0 {
        push_be(out, x / 256, k - 1);
        out.push((x % 256) as u8);
        assert(final(out)@ =~= old(out)@ + be_bytes(x as nat, k as nat));
    }
}

/// The big-endian value of `data[off..off + k]`.
fn read_be(data: &[u8], off: usize, k: usize) -> (v: u64)
    requires
        k <= 8,
        off + k <= data@.len(),
    ensures
        v == be_value(data@.subrange(off as int, off + k)),
{
    let n = data.len();
    let mut acc: u64 = 0;
    let mut j: usize = 0;
    proof {
        assert(data@.subrange(off as int, off as int) =~= Seq::<u8>::empty());
        lemma_pow256_values();
    }
    while j < k
        invariant
            k <= 8,
            n == data@.len(),
            off + k <= data@.len(),
            j <= k,
            acc == be_value(data@.subrange(off as int, off + j)),
            pow256(8) == 0x1_0000_0000_0000_0000,
        decreases k - j,
    {
        let ghost p = data@.subrange(off as int, off + j);
        let ghost q = data@.subrange(off as int, off + j + 1);
        proof {
            assert(q.drop_last() =~= p);
            lemma_be_value_bound(q);
            lemma_pow_mono(q.len(), 8);
        }
        acc = acc * 256 + data[off + j] as u64;
        j = j + 1;
    }
    acc
}

proof fn lemma_pow_mono(a: nat, b: nat)
    requires
        a <= b,
    ensures
        pow256(a) <= pow256(b),
    decreases b,
{
    if a < b {
        lemma_pow_mono(a, (b - 1) as nat);
        lemma_pow256_pos((b - 1) as nat);
    }
}

/// A whole frame: the big-endian total length (header included), the type
/// byte, then the body.
pub open spec fn frame_bytes(m: RTDEMessage, body: Seq<u8>) -> Seq<u8> {
    be_bytes((body.len() + 3) as nat, 2) + seq![type_byte(m)] + body
}

/// Frames `body` as a message of kind `m`; a body too long for the 16-bit
/// length is a protocol error.
pub fn encode_frame(m: RTDEMessage, body: &[u8]) -> (r: Result<Vec<u8>, URError>)
    ensures
        r is Ok <==> body@.len() + 3 <= 0xFFFF,
        r matches Ok(f) ==> f@ == frame_bytes(m, body@),
        r matches Err(e) ==> e is Protocol,
{
    if body.len() > 0xFFFF - 3 {
        return Err(URError::Protocol(String::from_str("Message too large for one frame")));
    }
    let mut out: Vec<u8> = Vec::new();
    push_be(&mut out, (body.len() + 3) as u64, 2);
    out.push(m.to_byte());
    let mut i: usize = 0;
    let ghost head = out@;
    while i < body.len()
        invariant
            i <= body@.len(),
            out@ == head + body@.subrange(0, i as int),
        decreases body@.len() - i,
    {
        out.push(body[i]);
        proof {
            assert(body@.subrange(0, i + 1) =~= body@.subrange(0, i as int).push(body@[i as int]));
        }
        i = i + 1;
    }
    proof {
        assert(body@.subrange(0, body@.len() as int) =~= body@);
        assert(out@ =~= frame_bytes(m, body@));
    }
    Ok(out)
}

/// Reads a frame header: the message kind and the body length. A length
/// under 3 or an unknown type byte is a protocol error.
pub fn decode_header(b0: u8, b1: u8, b2: u8) -> (r: Result<(RTDEMessage, usize), URError>)
    ensures
        ({
            let size = b0 as nat * 256 + b1 as nat;
            &&& r is Ok <==> (size >= 3 && message_of(b2) is Some)
            &&& r matches Ok((m, n)) ==> Some(m) == message_of(b2) && n == size - 3
            &&& r matches Err(e) ==> e is Protocol
        }),
{
    let size: usize = (b0 as usize) * 256 + (b1 as usize);
    if size < 3 {
        return Err(URError::Protocol(String::from_str("Frame length below header size")));
    }
    match RTDEMessage::from_byte(b2) {
        Some(m) => Ok((m, size - 3)),
        None => {
            let mut msg = String::from_str("Unknown message type: ");
            crate::text::push_decimal(&mut msg, b2 as u64);
            Err(URError::Protocol(msg))
        },
    }
}

/// Splits a whole frame into its kind and body. The frame must be as long
/// as its length field says.
pub fn decode_frame(frame: &[u8]) -> (r: Result<(RTDEMessage, Vec<u8>), URError>)
    ensures
        r is Ok <==> (frame@.len() >= 3 && frame@.len() == be_value(frame@.subrange(0, 2))
            && message_of(frame@[2]) is Some),
        r matches Ok((m, body)) ==> Some(m) == message_of(frame@[2]) && body@ == frame@.subrange(
            3,
            frame@.len() as int,
        ),
        r matches Err(e) ==> e is Protocol,
{
    if frame.len() < 3 {
        return Err(URError::Protocol(String::from_str("Frame shorter than its header")));
    }
    proof {
        reveal_with_fuel(be_value, 3);
        assert(frame@.subrange(0, 2).drop_last() =~= seq![frame@[0]]);
        assert(seq![frame@[0]].drop_last() =~= Seq::<u8>::empty());
    }
    let (m, n) = match decode_header(frame[0], frame[1], frame[2]) {
        Ok(h) => h,
        Err(e) => {
            return Err(e);
        },
    };
    if frame.len() != n + 3 {
        return Err(URError::Protocol(String::from_str("Frame length does not match its header")));
    }
    let mut body: Vec<u8> = Vec::new();
    let mut i: usize = 3;
    while i < frame.len()
        invariant
            3 <= i <= frame@.len(),
            body@ == frame@.subrange(3, i as int),
        decreases frame@.len() - i,
    {
        body.push(frame[i]);
        proof {
            assert(frame@.subrange(3, i + 1) =~= frame@.subrange(3, i as int).push(frame@[i as int]));
        }
        i = i + 1;
    }
    Ok((m, body))
}

/// Body of a protocol-version request: the version, big-endian.
pub fn version_request(version: u16) -> (body: Vec<u8>)
    ensures
        body@ == be_bytes(version as nat, 2),
{
    let mut body: Vec<u8> = Vec::new();
    push_be(&mut body, version as u64, 2);
    assert(body@ =~= be_bytes(version as nat, 2));
    body
}

/// A reply of the same kind whose first body byte is 1 accepts the request.
pub open spec fn accepted(expected: RTDEMessage, m: RTDEMessage, body: Seq<u8>) -> bool {
    m == expected && body.len() > 0 && body[0] == 1
}

/// Whether the reply accepts the protocol version asked for.
pub fn version_accepted(m: RTDEMessage, body: &[u8]) -> (r: bool)
    ensures
        r == accepted(RTDEMessage::RequestProtocolVersion, m, body@),
{
    m == RTDEMessage::RequestProtocolVersion && body.len() > 0 && body[0] == 1
}

/// Whether the reply confirms that synchronization started.
pub fn start_accepted(m: RTDEMessage, body: &[u8]) -> (r: bool)
    ensures
        r == accepted(RTDEMessage::ControlPackageStart, m, body@),
{
    m == RTDEMessage::ControlPackageStart && body.len() > 0 && body[0] == 1
}

/// Body of an output-recipe request: the frequency's bit pattern,
/// big-endian, then the variable names joined by commas.
pub open spec fn joined_names(names: Seq<Seq<u8>>) -> Seq<u8>
    decreases names.len(),
{
    if names.len() == 0 {
        Seq::empty()
    } else if names.len() == 1 {
        names[0]
    } else {
        joined_names(names.drop_last()) + seq![44u8] + names.last()
    }
}

/// The UTF-8 bytes of each name.
pub open spec fn name_bytes(names: Seq<String>) -> Seq<Seq<u8>> {
    Seq::new(names.len(), |i: int| vstd::utf8::encode_utf8(names[i]@))
}

pub fn setup_outputs_request(frequency_bits: u64, variables: &Vec<String>) -> (body: Vec<u8>)
    ensures
        body@ == be_bytes(frequency_bits as nat, 8) + joined_names(name_bytes(variables@)),
{
    let mut body: Vec<u8> = Vec::new();
    push_be(&mut body, frequency_bits, 8);
    let ghost head = body@;
    let mut i: usize = 0;
    proof {
        assert(head =~= be_bytes(frequency_bits as nat, 8));
        assert(name_bytes(variables@).subrange(0, 0) =~= Seq::<Seq<u8>>::empty());
        assert(body@ =~= head + joined_names(name_bytes(variables@).subrange(0, 0)));
    }
    while i < variables.len()
        invariant
            i <= variables@.len(),
            head == be_bytes(frequency_bits as nat, 8),
            body@ == head + joined_names(name_bytes(variables@).subrange(0, i as int)),
        decreases variables@.len() - i,
    {
        let ghost names = name_bytes(variables@);
        let ghost before = body@;
        if i > 0 {
            body.push(44u8);
        }
        let bytes = variables[i].as_str().as_bytes();
        let mut j: usize = 0;
        let ghost mid = body@;
        while j < bytes.len()
            invariant
                j <= bytes@.len(),
                body@ == mid + bytes@.subrange(0, j as int),
            decreases bytes@.len() - j,
        {
            body.push(bytes[j]);
            proof {
                assert(bytes@.subrange(0, j + 1) =~= bytes@.subrange(0, j as int).push(bytes@[j as int]));
            }
            j = j + 1;
        }
        proof {
            assert(bytes@.subrange(0, bytes@.len() as int) =~= bytes@);
            assert(bytes@ == names[i as int]);
            let pre = names.subrange(0, i as int);
            let post = names.subrange(0, i + 1);
            assert(post.drop_last() =~= pre);
            assert(post.last() == names[i as int]);
            if i == 0 {
                assert(joined_names(post) == post[0]);
                assert(body@ =~= head + joined_names(post));
            } else {
                assert(body@ =~= head + (joined_names(pre) + seq![44u8] + names[i as int]));
            }
        }
        i = i + 1;
    }
    proof {
        assert(name_bytes(variables@).subrange(0, variables@.len() as int) =~= name_bytes(variables@));
    }
    body
}

/// What an output-recipe reply's type list reads as, byte for byte.
pub uninterp spec fn lossy_utf8(b: Seq<u8>) -> Seq<char>;

pub open spec fn is_ascii_bytes(b: Seq<u8>) -> bool {
    forall|i: int| 0 <= i < b.len() ==> #[trigger] b[i] < 128
}

/// Relies on `String::from_utf8_lossy`: the result depends on the bytes
/// alone, and valid UTF-8 (so every ASCII string) comes back unchanged.
#[verifier::external_body]
fn utf8_lossy(b: &[u8]) -> (r: String)
    ensures
        r@ == lossy_utf8(b@),
        is_ascii_bytes(b@) ==> r@ == Seq::new(b@.len(), |i: int| b@[i] as char),
{
    String::from_utf8_lossy(b).into_owned()
}

/// The recipe the controller confirmed: its id and the type tag of each variable.
#[derive(Debug, Clone)]
pub struct OutputRecipe {
    pub recipe_id: u8,
    pub variables: Vec<String>,
    pub types: Vec<String>,
}

/// Reads the reply to an output-recipe request: a setup-outputs message
/// whose first byte is the recipe id and whose rest is the comma-separated
/// type tags, in the order of the variables asked for.
pub fn parse_setup_reply(m: RTDEMessage, body: &[u8], variables: Vec<String>) -> (r: Result<
    OutputRecipe,
    URError,
>)
    ensures
        r is Ok <==> (m == RTDEMessage::ControlPackageSetupOutputs && body@.len() > 0),
        r matches Ok(rc) ==> {
            &&& rc.recipe_id == body@[0]
            &&& rc.variables@ == variables@
            &&& string_views(rc.types@) == split_on(lossy_utf8(body@.drop_first()), ',')
        },
        r matches Err(e) ==> e is Protocol,
{
    if m != RTDEMessage::ControlPackageSetupOutputs || body.len() == 0 {
        return Err(URError::Protocol(String::from_str("Output recipe setup failed")));
    }
    let mut rest: Vec<u8> = Vec::new();
    let mut i: usize = 1;
    while i < body.len()
        invariant
            1 <= i <= body@.len(),
            rest@ == body@.subrange(1, i as int),
        decreases body@.len() - i,
    {
        rest.push(body[i]);
        proof {
            assert(body@.subrange(1, i + 1) =~= body@.subrange(1, i as int).push(body@[i as int]));
        }
        i = i + 1;
    }
    proof {
        assert(rest@ =~= body@.drop_first());
    }
    let text = utf8_lossy(rest.as_slice());
    let types = split_at_char(text.as_str(), ',');
    Ok(OutputRecipe { recipe_id: body[0], variables, types })
}

#[derive(Debug, Clone, Copy, PartialEq, Eq, Structural)]
pub enum VarType {
    Vector6d,
    Double,
    Int32,
    Uint32,
}

/// The type a tag names, if it is one of the supported ones.
pub open spec fn var_type_of(tag: Seq<char>) -> Option<VarType> {
    if tag == "VECTOR6D"@ {
        Some(VarType::Vector6d)
    } else if tag == "DOUBLE"@ {
        Some(VarType::Double)
    } else if tag == "INT32"@ {
        Some(VarType::Int32)
    } else if tag == "UINT32"@ {
        Some(VarType::Uint32)
    } else {
        None
    }
}

/// Bytes a value of the type takes.
pub open spec fn width(t: VarType) -> nat {
    match t {
        VarType::Vector6d => 48,
        VarType::Double => 8,
        VarType::Int32 => 4,
        VarType::Uint32 => 4,
    }
}

/// Bytes the field with this tag takes (0 for an unsupported tag).
pub open spec fn tag_width(tag: Seq<char>) -> nat {
    match var_type_of(tag) {
        Some(t) => width(t),
        None => 0,
    }
}

/// Where field `k` starts in a data package's data.
pub open spec fn field_offset(tags: Seq<Seq<char>>, k: int) -> nat
    decreases k,
{
    if k <= 0 {
        0
    } else {
        field_offset(tags, k - 1) + tag_width(tags[k - 1])
    }
}

/// Field `k` can be read: it has a name, a supported type, and enough data.
pub open spec fn field_fits(tags: Seq<Seq<char>>, n_names: nat, data_len: nat, k: int) -> bool {
    &&& k < n_names
    &&& var_type_of(tags[k]) is Some
    &&& field_offset(tags, k) + tag_width(tags[k]) <= data_len
}

pub open spec fn decodable(tags: Seq<Seq<char>>, n_names: nat, data_len: nat) -> bool {
    forall|k: int| 0 <= k < tags.len() ==> field_fits(tags, n_names, data_len, k)
}

/// A decoded value; doubles as their IEEE-754 bit patterns.
#[derive(Debug, Clone, Copy, PartialEq, Eq)]
pub enum FieldValue {
    Vector6d([u64; 6]),
    Double(u64),
    Int32(i32),
    Uint32(u32),
}

pub open spec fn type_of_value(v: FieldValue) -> VarType {
    match v {
        FieldValue::Vector6d(_) => VarType::Vector6d,
        FieldValue::Double(_) => VarType::Double,
        FieldValue::Int32(_) => VarType::Int32,
        FieldValue::Uint32(_) => VarType::Uint32,
    }
}

/// The big-endian value of `data[off..off + k]`.
pub open spec fn be_at(data: Seq<u8>, off: int, k: int) -> nat {
    be_value(data.subrange(off, off + k))
}

/// `v` is what a field of type `t` at `off` of `data` holds.
pub open spec fn value_is(v: FieldValue, t: VarType, data: Seq<u8>, off: int) -> bool {
    type_of_value(v) == t && match v {
        FieldValue::Vector6d(w) => forall|j: int| 0 <= j < 6 ==> #[trigger] w@[j] == be_at(data, off + 8 * j, 8),
        FieldValue::Double(x) => x == be_at(data, off, 8),
        FieldValue::Int32(x) => x == (be_at(data, off, 4) as u32) as i32,
        FieldValue::Uint32(x) => x == be_at(data, off, 4),
    }
}

/// `out` is the decoding of `data` under the recipe: one named value per tag.
pub open spec fn decoded_as(
    names: Seq<String>,
    tags: Seq<Seq<char>>,
    data: Seq<u8>,
    out: Seq<(String, FieldValue)>,
) -> bool {
    &&& out.len() == tags.len()
    &&& forall|k: int|
        0 <= k < tags.len() ==> {
            &&& (#[trigger] out[k]).0@ == names[k]@
            &&& value_is(out[k].1, var_type_of(tags[k])->0, data, field_offset(tags, k) as int)
        }
}

fn type_of_tag(tag: &str) -> (r: Option<VarType>)
    ensures
        r == var_type_of(tag@),
{
    if str_eq(tag, "VECTOR6D") {
        Some(VarType::Vector6d)
    } else if str_eq(tag, "DOUBLE") {
        Some(VarType::Double)
    } else if str_eq(tag, "INT32") {
        Some(VarType::Int32)
    } else if str_eq(tag, "UINT32") {
        Some(VarType::Uint32)
    } else {
        None
    }
}

fn width_of(t: VarType) -> (w: usize)
    ensures
        w == width(t),
{
    match t {
        VarType::Vector6d => 48,
        VarType::Double => 8,
        VarType::Int32 => 4,
        VarType::Uint32 => 4,
    }
}

/// Reads the value of type `t` at `off`.
fn read_value(t: VarType, data: &[u8], off: usize) -> (v: FieldValue)
    requires
        off + width(t) <= data@.len(),
    ensures
        value_is(v, t, data@, off as int),
{
    let n = data.len();
    match t {
        VarType::Vector6d => {
            let w: [u64; 6] = [
                read_be(data, off, 8),
                read_be(data, off + 8, 8),
                read_be(data, off + 16, 8),
                read_be(data, off + 24, 8),
                read_be(data, off + 32, 8),
                read_be(data, off + 40, 8),
            ];
            FieldValue::Vector6d(w)
        },
        VarType::Double => FieldValue::Double(read_be(data, off, 8)),
        VarType::Int32 => {
            let x = read_be(data, off, 4);
            proof {
                lemma_be_value_bound(data@.subrange(off as int, off + 4));
                lemma_pow256_values();
            }
            FieldValue::Int32(#[verifier::truncate] ((x as u32) as i32))
        },
        VarType::Uint32 => {
            let x = read_be(data, off, 4);
            proof {
                lemma_be_value_bound(data@.subrange(off as int, off + 4));
                lemma_pow256_values();
            }
            FieldValue::Uint32(x as u32)
        },
    }
}

/// Decodes the data of a data package (after its recipe-id byte) by the
/// recipe: field `k` is named `names[k]` and has type tag `tags[k]`. A field
/// without a name, with an unsupported tag, or without enough data left is a
/// protocol error.
pub fn parse_data_package(names: &Vec<String>, tags: &Vec<String>, data: &[u8]) -> (r: Result<
    Vec<(String, FieldValue)>,
    URError,
>)
    ensures
        r is Ok <==> decodable(string_views(tags@), names@.len(), data@.len()),
        r matches Ok(out) ==> decoded_as(names@, string_views(tags@), data@, out@),
        r matches Err(e) ==> e is Protocol,
{
    let ghost tv = string_views(tags@);
    let mut out: Vec<(String, FieldValue)> = Vec::new();
    let mut off: usize = 0;
    let mut i: usize = 0;
    while i < tags.len()
        invariant
            tv == string_views(tags@),
            i <= tags@.len(),
            off == field_offset(tv, i as int),
            off <= data@.len(),
            forall|k: int| 0 <= k < i ==> field_fits(tv, names@.len(), data@.len(), k),
            out@.len() == i,
            forall|k: int|
                0 <= k < i ==> {
                    &&& (#[trigger] out@[k]).0@ == names@[k]@
                    &&& value_is(out@[k].1, var_type_of(tv[k])->0, data@, field_offset(tv, k) as int)
                },
        decreases tags@.len() - i,
    {
        proof {
            assert(tv[i as int] == tags@[i as int]@);
        }
        if i >= names.len() {
            proof {
                assert(!field_fits(tv, names@.len(), data@.len(), i as int));
            }
            return Err(URError::Protocol(String::from_str("Variable name missing")));
        }
        let t = match type_of_tag(tags[i].as_str()) {
            Some(t) => t,
            None => {
                proof {
                    assert(!field_fits(tv, names@.len(), data@.len(), i as int));
                }
                let mut msg = String::from_str("Unsupported variable type: ");
                msg.append(tags[i].as_str());
                return Err(URError::Protocol(msg));
            },
        };
        let w = width_of(t);
        if w > data.len() - off {
            proof {
                assert(!field_fits(tv, names@.len(), data@.len(), i as int));
            }
            let mut msg = String::from_str("Insufficient data for ");
            msg.append(tags[i].as_str());
            return Err(URError::Protocol(msg));
        }
        let v = read_value(t, data, off);
        out.push((names[i].clone(), v));
        off = off + w;
        i = i + 1;
    }
    Ok(out)
}

/// Reads the fields of a received data package: a data-package message whose
/// body is the recipe id followed by the data.
pub fn read_data_package(m: RTDEMessage, body: &[u8], names: &Vec<String>, tags: &Vec<String>) -> (r:
    Result<Vec<(String, FieldValue)>, URError>)
    ensures
        r is Ok <==> (m == RTDEMessage::DataPackage && body@.len() > 0 && decodable(
            string_views(tags@),
            names@.len(),
            (body@.len() - 1) as nat,
        )),
        r matches Ok(out) ==> decoded_as(names@, string_views(tags@), body@.drop_first(), out@),
        r matches Err(e) ==> e is Protocol,
{
    if m != RTDEMessage::DataPackage {
        return Err(URError::Protocol(String::from_str("Expected data package")));
    }
    if body.len() == 0 {
        return Err(URError::Protocol(String::from_str("Empty data package")));
    }
    let (_, data) = body.split_at(1);
    proof {
        assert(data@ =~= body@.drop_first());
    }
    parse_data_package(names, tags, data)
}

/// The bytes of one value, big-endian.
pub open spec fn value_bytes(v: FieldValue) -> Seq<u8> {
    match v {
        FieldValue::Vector6d(w) => be_bytes(w@[0] as nat, 8) + be_bytes(w@[1] as nat, 8) + be_bytes(
            w@[2] as nat,
            8,
        ) + be_bytes(w@[3] as nat, 8) + be_bytes(w@[4] as nat, 8) + be_bytes(w@[5] as nat, 8),
        FieldValue::Double(x) => be_bytes(x as nat, 8),
        FieldValue::Int32(x) => be_bytes((x as u32) as nat, 4),
        FieldValue::Uint32(x) => be_bytes(x as nat, 4),
    }
}

/// The bytes of a sequence of values, one after the other.
pub open spec fn values_bytes(vs: Seq<FieldValue>) -> Seq<u8>
    decreases vs.len(),
{
    if vs.len() == 0 {
        Seq::empty()
    } else {
        values_bytes(vs.drop_last()) + value_bytes(vs.last())
    }
}

/// Two values are the same type with the same bits.
pub open spec fn same_value(a: FieldValue, b: FieldValue) -> bool {
    match (a, b) {
        (FieldValue::Vector6d(x), FieldValue::Vector6d(y)) => x@ == y@,
        (FieldValue::Double(x), FieldValue::Double(y)) => x == y,
        (FieldValue::Int32(x), FieldValue::Int32(y)) => x == y,
        (FieldValue::Uint32(x), FieldValue::Uint32(y)) => x == y,
        _ => false,
    }
}

fn push_value(out: &mut Vec<u8>, v: &FieldValue)
    ensures
        final(out)@ == old(out)@ + value_bytes(*v),
{
    match v {
        FieldValue::Vector6d(w) => {
            push_be(out, w[0], 8);
            push_be(out, w[1], 8);
            push_be(out, w[2], 8);
            push_be(out, w[3], 8);
            push_be(out, w[4], 8);
            push_be(out, w[5], 8);
            assert(final(out)@ =~= old(out)@ + value_bytes(*v));
        },
        FieldValue::Double(x) => {
            push_be(out, *x, 8);
        },
        FieldValue::Int32(x) => {
            push_be(out, (*x as u32) as u64, 4);
        },
        FieldValue::Uint32(x) => {
            push_be(out, *x as u64, 4);
        },
    }
}

/// The data of a data package holding `values`, in order.
pub fn encode_fields(values: &Vec<FieldValue>) -> (data: Vec<u8>)
    ensures
        data@ == values_bytes(values@),
{
    let mut data: Vec<u8> = Vec::new();
    let mut i: usize = 0;
    proof {
        assert(values@.subrange(0, 0) =~= Seq::<FieldValue>::empty());
    }
    while i < values.len()
        invariant
            i <= values@.len(),
            data@ == values_bytes(values@.subrange(0, i as int)),
        decreases values@.len() - i,
    {
        push_value(&mut data, &values[i]);
        proof {
            assert(values@.subrange(0, i + 1).drop_last() =~= values@.subrange(0, i as int));
        }
        i = i + 1;
    }
    proof {
        assert(values@.subrange(0, values@.len() as int) =~= values@);
    }
    data
}

/// A whole data-package frame: the recipe id, then the values.
pub fn encode_data_package(recipe_id: u8, values: &Vec<FieldValue>) -> (r: Result<Vec<u8>, URError>)
    ensures
        r is Ok <==> values_bytes(values@).len() + 4 <= 0xFFFF,
        r matches Ok(f) ==> f@ == frame_bytes(
            RTDEMessage::DataPackage,
            seq![recipe_id] + values_bytes(values@),
        ),
        r matches Err(e) ==> e is Protocol,
{
    let mut body: Vec<u8> = Vec::new();
    body.push(recipe_id);
    let data = encode_fields(values);
    let mut i: usize = 0;
    while i < data.len()
        invariant
            i <= data@.len(),
            body@ == seq![recipe_id] + data@.subrange(0, i as int),
        decreases data@.len() - i,
    {
        body.push(data[i]);
        proof {
            assert(data@.subrange(0, i + 1) =~= data@.subrange(0, i as int).push(data@[i as int]));
        }
        i = i + 1;
    }
    proof {
        assert(data@.subrange(0, data@.len() as int) =~= data@);
    }
    encode_frame(RTDEMessage::DataPackage, body.as_slice())
}

proof fn lemma_value_bytes_len(v: FieldValue)
    ensures
        value_bytes(v).len() == width(type_of_value(v)),
{
    match v {
        FieldValue::Vector6d(w) => {
            lemma_be_round_trip(w@[0] as nat, 8);
            lemma_be_round_trip(w@[1] as nat, 8);
            lemma_be_round_trip(w@[2] as nat, 8);
            lemma_be_round_trip(w@[3] as nat, 8);
            lemma_be_round_trip(w@[4] as nat, 8);
            lemma_be_round_trip(w@[5] as nat, 8);
        },
        FieldValue::Double(x) => {
            lemma_be_round_trip(x as nat, 8);
        },
        FieldValue::Int32(x) => {
            lemma_be_round_trip((x as u32) as nat, 4);
        },
        FieldValue::Uint32(x) => {
            lemma_be_round_trip(x as nat, 4);
        },
    }
}

/// The bytes of the first `k` values start the bytes of all of them.
proof fn lemma_values_prefix(vs: Seq<FieldValue>, k: int)
    requires
        0 <= k <= vs.len(),
    ensures
        values_bytes(vs.subrange(0, k)).len() <= values_bytes(vs).len(),
        values_bytes(vs).subrange(0, values_bytes(vs.subrange(0, k)).len() as int) == values_bytes(
            vs.subrange(0, k),
        ),
    decreases vs.len(),
{
    if k == vs.len() {
        assert(vs.subrange(0, k) =~= vs);
        assert(values_bytes(vs).subrange(0, values_bytes(vs).len() as int) =~= values_bytes(vs));
    } else {
        lemma_values_prefix(vs.drop_last(), k);
        assert(vs.drop_last().subrange(0, k) =~= vs.subrange(0, k));
        let a = values_bytes(vs.drop_last());
        let p = values_bytes(vs.subrange(0, k));
        assert(values_bytes(vs) == a + value_bytes(vs.last()));
        assert((a + value_bytes(vs.last())).subrange(0, p.len() as int) =~= a.subrange(
            0,
            p.len() as int,
        ));
    }
}

/// Field `k` starts after the bytes of the values before it.
proof fn lemma_offsets(tags: Seq<Seq<char>>, vs: Seq<FieldValue>, k: int)
    requires
        tags.len() == vs.len(),
        0 <= k <= vs.len(),
        forall|i: int| 0 <= i < vs.len() ==> var_type_of(#[trigger] tags[i]) == Some(
            type_of_value(vs[i]),
        ),
    ensures
        field_offset(tags, k) == values_bytes(vs.subrange(0, k)).len(),
    decreases k,
{
    if k > 0 {
        lemma_offsets(tags, vs, k - 1);
        let s = vs.subrange(0, k);
        assert(s.drop_last() =~= vs.subrange(0, k - 1));
        assert(s.last() == vs[k - 1]);
        lemma_value_bytes_len(vs[k - 1]);
        assert(var_type_of(tags[k - 1]) == Some(type_of_value(vs[k - 1])));
    } else {
        assert(vs.subrange(0, 0) =~= Seq::<FieldValue>::empty());
    }
}

/// The value that an encoding holds is read back with the same bits.
proof fn lemma_value_read_back(v: FieldValue, data: Seq<u8>, off: int)
    requires
        0 <= off,
        off + value_bytes(v).len() <= data.len(),
        data.subrange(off, off + value_bytes(v).len()) == value_bytes(v),
    ensures
        forall|u: FieldValue| value_is(u, type_of_value(v), data, off) ==> same_value(u, v),
{
    lemma_pow256_values();
    lemma_value_bytes_len(v);
    let b = value_bytes(v);
    match v {
        FieldValue::Vector6d(w) => {
            let s0 = be_bytes(w@[0] as nat, 8);
            let s1 = be_bytes(w@[1] as nat, 8);
            let s2 = be_bytes(w@[2] as nat, 8);
            let s3 = be_bytes(w@[3] as nat, 8);
            let s4 = be_bytes(w@[4] as nat, 8);
            let s5 = be_bytes(w@[5] as nat, 8);
            lemma_be_round_trip(w@[0] as nat, 8);
            lemma_be_round_trip(w@[1] as nat, 8);
            lemma_be_round_trip(w@[2] as nat, 8);
            lemma_be_round_trip(w@[3] as nat, 8);
            lemma_be_round_trip(w@[4] as nat, 8);
            lemma_be_round_trip(w@[5] as nat, 8);
            assert(b == s0 + s1 + s2 + s3 + s4 + s5);
            assert(b.subrange(0, 8) =~= s0);
            assert(b.subrange(8, 16) =~= s1);
            assert(b.subrange(16, 24) =~= s2);
            assert(b.subrange(24, 32) =~= s3);
            assert(b.subrange(32, 40) =~= s4);
            assert(b.subrange(40, 48) =~= s5);
            assert forall|j: int| 0 <= j < 6 implies be_at(data, off + 8 * j, 8) == w@[j] by {
                lemma_be_round_trip(w@[j] as nat, 8);
                assert(data.subrange(off + 8 * j, off + 8 * j + 8) =~= b.subrange(8 * j, 8 * j + 8));
                if j == 0 {
                    assert(b.subrange(8 * j, 8 * j + 8) == s0);
                } else if j == 1 {
                    assert(b.subrange(8 * j, 8 * j + 8) == s1);
                } else if j == 2 {
                    assert(b.subrange(8 * j, 8 * j + 8) == s2);
                } else if j == 3 {
                    assert(b.subrange(8 * j, 8 * j + 8) == s3);
                } else if j == 4 {
                    assert(b.subrange(8 * j, 8 * j + 8) == s4);
                } else {
                    assert(b.subrange(8 * j, 8 * j + 8) == s5);
                }
                vstd::arithmetic::div_mod::lemma_small_mod(w@[j] as nat, pow256(8));
            }
            assert forall|u: FieldValue| value_is(u, type_of_value(v), data, off) implies same_value(
                u,
                v,
            ) by {
                match u {
                    FieldValue::Vector6d(x) => {
                        assert forall|j: int| 0 <= j < 6 implies x@[j] == w@[j] by {
                            assert(x@[j] == be_at(data, off + 8 * j, 8));
                            assert(be_at(data, off + 8 * j, 8) == w@[j]);
                        }
                        assert(x@.len() == 6 && w@.len() == 6);
                        assert(x@ =~= w@);
                        assert(same_value(u, v));
                    },
                    _ => {
                        assert(type_of_value(u) != VarType::Vector6d);
                    },
                }
            }
        },
        FieldValue::Double(x) => {
            lemma_be_round_trip(x as nat, 8);
            assert(data.subrange(off, off + 8) =~= b);
            vstd::arithmetic::div_mod::lemma_small_mod(x as nat, pow256(8));
        },
        FieldValue::Int32(x) => {
            lemma_be_round_trip((x as u32) as nat, 4);
            assert(((x as u32) as i32) == x) by (bit_vector);
            assert(data.subrange(off, off + 4) =~= b);
            vstd::arithmetic::div_mod::lemma_small_mod((x as u32) as nat, pow256(4));
        },
        FieldValue::Uint32(x) => {
            lemma_be_round_trip(x as nat, 4);
            assert(data.subrange(off, off + 4) =~= b);
            vstd::arithmetic::div_mod::lemma_small_mod(x as nat, pow256(4));
        },
    }
}

/// Round trip of a data package's data: the bytes that `encode_fields`
/// writes for values that match the recipe's types decode, under that
/// recipe, to the same values, bit for bit.
pub proof fn lemma_data_round_trip(
    names: Seq<String>,
    tags: Seq<Seq<char>>,
    values: Seq<FieldValue>,
    out: Seq<(String, FieldValue)>,
)
    requires
        tags.len() == values.len() <= names.len(),
        forall|k: int| 0 <= k < values.len() ==> var_type_of(#[trigger] tags[k]) == Some(
            type_of_value(values[k]),
        ),
    ensures
        decodable(tags, names.len(), values_bytes(values).len()),
        decoded_as(names, tags, values_bytes(values), out) ==> forall|k: int|
            0 <= k < values.len() ==> same_value(#[trigger] out[k].1, values[k]),
{
    let data = values_bytes(values);
    assert forall|k: int| 0 <= k < values.len() implies field_fits(tags, names.len(), data.len(), k) by {
        lemma_field_round_trip(names, tags, values, out, k);
    }
    assert forall|k: int| 0 <= k < values.len() && decoded_as(names, tags, data, out) implies same_value(
        #[trigger] out[k].1,
        values[k],
    ) by {
        lemma_field_round_trip(names, tags, values, out, k);
    }
}

proof fn lemma_field_round_trip(
    names: Seq<String>,
    tags: Seq<Seq<char>>,
    values: Seq<FieldValue>,
    out: Seq<(String, FieldValue)>,
    k: int,
)
    requires
        tags.len() == values.len() <= names.len(),
        forall|i: int| 0 <= i < values.len() ==> var_type_of(#[trigger] tags[i]) == Some(
            type_of_value(values[i]),
        ),
        0 <= k < values.len(),
    ensures
        field_fits(tags, names.len(), values_bytes(values).len(), k),
        decoded_as(names, tags, values_bytes(values), out) ==> same_value(out[k].1, values[k]),
{
    let data = values_bytes(values);
    lemma_offsets(tags, values, k);
    lemma_values_prefix(values, k + 1);
    let pre = values.subrange(0, k + 1);
    assert(pre.drop_last() =~= values.subrange(0, k));
    assert(pre.last() == values[k]);
    let off = field_offset(tags, k) as int;
    let vb = value_bytes(values[k]);
    let pb = values_bytes(pre);
    assert(pb == values_bytes(values.subrange(0, k)) + vb);
    lemma_value_bytes_len(values[k]);
    assert(var_type_of(tags[k]) == Some(type_of_value(values[k])));
    assert(data.subrange(off, off + vb.len()) =~= pb.subrange(off, off + vb.len()));
    assert(pb.subrange(off, off + vb.len()) =~= vb);
    lemma_value_read_back(values[k], data, off);
    if decoded_as(names, tags, data, out) {
        assert(value_is(out[k].1, var_type_of(tags[k])->0, data, off));
    }
}

/// Round trip of framing: a frame that `encode_frame` writes carries, in its
/// header, its own length and the message kind, followed by the body.
pub proof fn lemma_frame_round_trip(m: RTDEMessage, body: Seq<u8>)
    requires
        body.len() + 3 <= 0xFFFF,
    ensures
        ({
            let f = frame_bytes(m, body);
            &&& f.len() >= 3
            &&& f.len() == be_value(f.subrange(0, 2))
            &&& message_of(f[2]) == Some(m)
            &&& f.subrange(3, f.len() as int) == body
        }),
{
    let f = frame_bytes(m, body);
    let n = (body.len() + 3) as nat;
    lemma_be_round_trip(n, 2);
    lemma_pow256_values();
    vstd::arithmetic::div_mod::lemma_small_mod(n, pow256(2));
    assert(f.subrange(0, 2) =~= be_bytes(n, 2));
    assert(f.subrange(3, f.len() as int) =~= body);
}

} // verus!
