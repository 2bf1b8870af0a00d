//! Binary protocol layer for a serial USB-HID keyboard emulator chip.
//!
//! A frame on the wire is: a fixed two-byte header, an address byte, an
//! opcode byte, a length byte, `length` payload bytes (at most 64), and a
//! checksum byte equal to the wrapping sum of every preceding byte.

pub mod device;
pub mod key_code;

pub use key_code::KeyCode;

use vstd::arithmetic::div_mod::lemma_add_mod_noop;
use vstd::arithmetic::div_mod::lemma_add_mod_noop_right;
use vstd::arithmetic::div_mod::lemma_mod_add_multiples_vanish;
use vstd::arithmetic::div_mod::lemma_small_mod;
use vstd::prelude::*;
use vstd::utf8::decode_utf8;
use vstd::utf8::valid_utf8;

verus! {

/// The largest possible frame: 5 header bytes, 64 payload bytes, 1 checksum.
pub const MAX_PACKET_SIZE: usize = 5 + 64 + 1;

/// First byte of the fixed frame header.
pub const HEAD_0: u8 = 0x57;

/// Second byte of the fixed frame header.
pub const HEAD_1: u8 = 0xAB;

/// Failures of frame decoding and of response payload decoding.
///
/// `Incomplete(n)` is the one recoverable variant: the buffer holds a valid
/// frame prefix, and decoding can succeed once the buffer holds `n` bytes.
#[derive(Clone, Copy, Debug, PartialEq, Eq, Structural)]
pub enum Error {
    /// Descriptor bytes were not valid UTF-8; carries the length of the
    /// longest prefix that is.
    Utf8(usize),
    /// The buffer is too short; decoding needs the given total byte count.
    Incomplete(usize),
    /// The first two bytes are not the fixed header magic.
    InvalidHead,
    /// The opcode is not in the known reply set.
    InvalidCmd,
    /// The payload violates the expected shape for its opcode.
    InvalidData,
    /// The checksum byte does not match the sum of the preceding bytes.
    InvalidSum,
}

/// The wrapping 8-bit sum of a byte sequence.
pub open spec fn checksum(s: Seq<u8>) -> u8
    decreases s.len(),
{
    if s.len() == 0 {
        0u8
    } else {
        ((checksum(s.drop_last()) + s.last()) % 256) as u8
    }
}

/// The wrapping sum of `s.take(i + 1)` extends the sum of `s.take(i)` by `s[i]`.
proof fn lemma_checksum_take_step(s: Seq<u8>, i: int)
    requires
        0 <= i < s.len(),
    ensures
        checksum(s.take(i + 1)) == ((checksum(s.take(i)) + s[i]) % 256) as u8,
{
    assert(s.take(i + 1).drop_last() =~= s.take(i));
    assert(s.take(i + 1).last() == s[i]);
}

/// Computes the wrapping sum of all bytes of `buf`.
pub fn sum(buf: &[u8]) -> (r: u8)
    ensures
        r == checksum(buf@),
{
    let mut acc: u8 = 0;
    let mut i: usize = 0;
    while i < buf.len()
        invariant
            0 <= i <= buf@.len(),
            acc == checksum(buf@.take(i as int)),
        decreases buf@.len() - i,
    {
        proof {
            lemma_checksum_take_step(buf@, i as int);
        }
        acc = acc.wrapping_add(buf[i]);
        i = i + 1;
    }
    proof {
        assert(buf@.take(buf@.len() as int) =~= buf@);
    }
    acc
}

/// The full wire frame for one packet: header, address, opcode, length,
/// payload, and the checksum of everything before it.
pub open spec fn frame_spec(addr: u8, cmd: u8, data: Seq<u8>) -> Seq<u8> {
    let head = seq![HEAD_0, HEAD_1, addr, cmd, data.len() as u8] + data;
    head + seq![checksum(head)]
}

/// What `decode` returns for a buffer: the mathematical mirror of the
/// validation order of the wire format. Trailing bytes beyond the frame
/// are ignored.
pub open spec fn decode_spec(buf: Seq<u8>) -> Result<(u8, u8, Seq<u8>), Error> {
    if buf.len() < 6 {
        Err(Error::Incomplete(6))
    } else if buf[0] != HEAD_0 || buf[1] != HEAD_1 {
        Err(Error::InvalidHead)
    } else if buf.len() < 5 + buf[4] + 1 {
        Err(Error::Incomplete((5 + buf[4] + 1) as usize))
    } else if buf[5 + buf[4]] != checksum(buf.take(5 + buf[4])) {
        Err(Error::InvalidSum)
    } else {
        Ok((buf[2], buf[3], buf.subrange(5, 5 + buf[4])))
    }
}

/// Encodes one frame from an address, an opcode and a payload of at most
/// 64 bytes.
pub fn encode(addr: u8, cmd: u8, data: &[u8]) -> (r: Vec<u8>)
    requires
        data@.len() <= 64,
    ensures
        r@ == frame_spec(addr, cmd, data@),
{
    let mut buf: Vec<u8> = Vec::new();
    buf.push(HEAD_0);
    buf.push(HEAD_1);
    buf.push(addr);
    buf.push(cmd);
    buf.push(data.len() as u8);
    let mut i: usize = 0;
    while i < data.len()
        invariant
            0 <= i <= data@.len() <= 64,
            buf@ =~= seq![HEAD_0, HEAD_1, addr, cmd, data@.len() as u8] + data@.take(i as int),
        decreases data@.len() - i,
    {
        buf.push(data[i]);
        i = i + 1;
    }
    proof {
        assert(buf@ =~= seq![HEAD_0, HEAD_1, addr, cmd, data@.len() as u8] + data@);
    }
    let check = sum(buf.as_slice());
    buf.push(check);
    proof {
        assert(buf@ =~= frame_spec(addr, cmd, data@));
    }
    buf
}

/// Decodes a frame from the start of `buf`, validating in order: enough
/// bytes for the fixed fields, the header magic, enough bytes for the
/// declared payload and checksum, and the checksum itself. The payload is
/// returned as an owned copy. `Incomplete(n)` reports exactly how many
/// bytes a successful retry needs.
pub fn decode(buf: &[u8]) -> (r: Result<(u8, u8, Vec<u8>), Error>)
    ensures
        match r {
            Ok((addr, cmd, data)) => decode_spec(buf@) == Ok::<_, Error>((addr, cmd, data@)),
            Err(e) => decode_spec(buf@) == Err::<(u8, u8, Seq<u8>), _>(e),
        },
{
    if buf.len() < 5 + 1 {
        return Err(Error::Incomplete(5 + 1));
    }
    if buf[0] != HEAD_0 || buf[1] != HEAD_1 {
        return Err(Error::InvalidHead);
    }
    let addr = buf[2];
    let cmd = buf[3];
    let len: usize = buf[4] as usize;
    if buf.len() < 5 + len + 1 {
        return Err(Error::Incomplete(5 + len + 1));
    }
    let mut data: Vec<u8> = Vec::new();
    let mut i: usize = 0;
    while i < len
        invariant
            0 <= i <= len <= 255,
            5 + len + 1 <= buf@.len(),
            data@ =~= buf@.subrange(5, 5 + i as int),
        decreases len - i,
    {
        data.push(buf[5 + i]);
        proof {
            assert(data@ =~= buf@.subrange(5, 5 + (i + 1) as int));
        }
        i = i + 1;
    }
    let prefix = slice_take(buf, 5 + len);
    if buf[5 + len] != sum(prefix) {
        return Err(Error::InvalidSum);
    }
    Ok((addr, cmd, data))
}

/// Replacing the byte at `i` shifts the wrapping sum by the difference of
/// the new and old byte, modulo 256.
proof fn lemma_checksum_update(s: Seq<u8>, i: int, b: u8)
    requires
        0 <= i < s.len(),
    ensures
        checksum(s.update(i, b)) as int == (checksum(s) - s[i] + b) % 256,
    decreases s.len(),
{
    let t = s.update(i, b);
    let x = s[i] as int;
    let y = b as int;
    if i == s.len() - 1 {
        assert(t.drop_last() =~= s.drop_last());
        let c = checksum(s.drop_last()) as int;
        let cs = checksum(s) as int;
        assert(cs == (c + x) % 256);
        assert(checksum(t) as int == (c + y) % 256);
        lemma_add_mod_noop_right(cs, y - x, 256);
        lemma_add_mod_noop(c + x, y - x, 256);
        assert((cs + (y - x) % 256) % 256 == (cs + y - x) % 256);
        assert((cs % 256 + (y - x) % 256) % 256 == (c + x + y - x) % 256) by {
            lemma_small_mod(cs as nat, 256);
        }
    } else {
        assert(t.drop_last() =~= s.drop_last().update(i, b));
        assert(t.last() == s.last());
        lemma_checksum_update(s.drop_last(), i, b);
        let c = checksum(s.drop_last()) as int;
        let q = s.last() as int;
        let cs = checksum(s) as int;
        assert(checksum(t.drop_last()) as int == (c - x + y) % 256);
        assert(checksum(t) as int == ((c - x + y) % 256 + q) % 256);
        assert(((c - x + y) % 256 + q) % 256 == (c - x + y + q) % 256) by {
            lemma_add_mod_noop(c - x + y, q, 256);
            lemma_small_mod(q as nat, 256);
        }
        assert((cs - x + y) % 256 == (c + q - x + y) % 256) by {
            lemma_add_mod_noop_right(cs, y - x, 256);
            lemma_add_mod_noop(c + q, y - x, 256);
            lemma_small_mod(cs as nat, 256);
        }
    }
}

/// Replacing a byte of a sequence with a different byte always changes the
/// wrapping sum, since the shift is nonzero and smaller than 256 in
/// magnitude.
proof fn lemma_checksum_differs(s: Seq<u8>, i: int, b: u8)
    requires
        0 <= i < s.len(),
        b != s[i],
    ensures
        checksum(s.update(i, b)) != checksum(s),
{
    lemma_checksum_update(s, i, b);
    let cs = checksum(s) as int;
    let d = b - s[i];
    assert(-256 < d < 256 && d != 0);
    if checksum(s.update(i, b)) as int == cs {
        assert((cs + d) % 256 == cs);
        if 0 <= cs + d < 256 {
            lemma_small_mod((cs + d) as nat, 256);
        } else if cs + d < 0 {
            lemma_mod_add_multiples_vanish(cs + d, 256);
            lemma_small_mod((cs + d + 256) as nat, 256);
        } else {
            lemma_mod_add_multiples_vanish(cs + d - 256, 256);
            lemma_small_mod((cs + d - 256) as nat, 256);
        }
        assert(false);
    }
}

/// Round-trip identity: a frame encoded from any address, opcode and
/// payload of at most 64 bytes decodes back to exactly that address,
/// opcode and payload.
pub proof fn lemma_round_trip(addr: u8, cmd: u8, data: Seq<u8>)
    requires
        data.len() <= 64,
    ensures
        decode_spec(frame_spec(addr, cmd, data)) == Ok::<_, Error>((addr, cmd, data)),
{
    let head = seq![HEAD_0, HEAD_1, addr, cmd, data.len() as u8] + data;
    let f = frame_spec(addr, cmd, data);
    let len = data.len() as int;
    assert(f.len() == 6 + len);
    assert(f[4] == data.len() as u8);
    assert(f.take(5 + len) =~= head);
    assert(f[5 + len] == checksum(head));
    assert(f.subrange(5, 5 + len) =~= data);
}

/// Any buffer of fewer than six bytes decodes to `Incomplete(6)`: six
/// bytes are the least that hold the fixed fields and the length.
pub proof fn lemma_short_buffer(buf: Seq<u8>)
    requires
        buf.len() < 6,
    ensures
        decode_spec(buf) == Err::<(u8, u8, Seq<u8>), _>(Error::Incomplete(6)),
{
}

/// The last byte of every encoded frame is the wrapping sum of all the
/// bytes preceding it.
pub proof fn lemma_frame_checksum(addr: u8, cmd: u8, data: Seq<u8>)
    requires
        data.len() <= 64,
    ensures
        frame_spec(addr, cmd, data).last() == checksum(frame_spec(addr, cmd, data).drop_last()),
{
    let head = seq![HEAD_0, HEAD_1, addr, cmd, data.len() as u8] + data;
    assert(frame_spec(addr, cmd, data).drop_last() =~= head);
}

/// A valid frame with its final checksum byte withheld decodes to
/// `Incomplete` with exactly the full frame length as the byte-count hint.
pub proof fn lemma_truncated_frame(addr: u8, cmd: u8, data: Seq<u8>)
    requires
        data.len() <= 64,
    ensures
        decode_spec(frame_spec(addr, cmd, data).take(5 + data.len() as int)) == Err::<(
            u8,
            u8,
            Seq<u8>,
        ), _>(Error::Incomplete((6 + data.len()) as usize)),
{
    let f = frame_spec(addr, cmd, data);
    let len = data.len() as int;
    let p = f.take(5 + len);
    if len == 0 {
        assert(p.len() == 5);
    } else {
        assert(p[0] == HEAD_0 && p[1] == HEAD_1);
        assert(p[4] == data.len() as u8);
        assert(p.len() == 5 + len < 5 + p[4] + 1);
    }
}

/// Corrupting any single byte of a valid frame, other than the length
/// byte, makes decoding fail: with `InvalidHead` if a header byte changed,
/// and with `InvalidSum` for any other byte, since the stored and the
/// recomputed checksum can no longer agree.
pub proof fn lemma_corrupted_frame(addr: u8, cmd: u8, data: Seq<u8>, i: int, b: u8)
    requires
        data.len() <= 64,
        0 <= i < frame_spec(addr, cmd, data).len(),
        i != 4,
        b != frame_spec(addr, cmd, data)[i],
    ensures
        decode_spec(frame_spec(addr, cmd, data).update(i, b)) == Err::<(u8, u8, Seq<u8>), _>(
            if i < 2 {
                Error::InvalidHead
            } else {
                Error::InvalidSum
            },
        ),
{
    let f = frame_spec(addr, cmd, data);
    let g = f.update(i, b);
    let len = data.len() as int;
    assert(f.len() == 6 + len);
    assert(f[4] == data.len() as u8);
    assert(f.take(5 + len) =~= seq![HEAD_0, HEAD_1, addr, cmd, data.len() as u8] + data);
    assert(f[5 + len] == checksum(f.take(5 + len)));
    if i < 2 {
        assert(g[i] == b && (i == 0 ==> f[i] == HEAD_0) && (i == 1 ==> f[i] == HEAD_1));
    } else {
        assert(g[0] == HEAD_0 && g[1] == HEAD_1 && g[4] == f[4]);
        if i < 5 + len {
            assert(g.take(5 + len) =~= f.take(5 + len).update(i, b));
            lemma_checksum_differs(f.take(5 + len), i, b);
            assert(g[5 + len] == checksum(f.take(5 + len)));
        } else {
            assert(i == 5 + len);
            assert(g.take(5 + len) =~= f.take(5 + len));
            assert(g[5 + len] == b && b != checksum(f.take(5 + len)));
        }
    }
}

/// A bit-set of the eight keyboard modifier flags, one bit per held
/// modifier key, default none.
#[derive(Clone, Copy, Debug, PartialEq, Eq, Structural)]
pub struct KeyModifiers(u8);

impl KeyModifiers {
    /// The raw modifier bits.
    pub closed spec fn spec_bits(&self) -> u8 {
        self.0
    }

    /// Returns the raw modifier byte as it is sent on the wire.
    pub fn bits(&self) -> (r: u8)
        ensures
            r == self.spec_bits(),
    {
        self.0
    }

    /// No modifier held.
    pub fn empty() -> (r: KeyModifiers)
        ensures
            r.spec_bits() == 0,
    {
        KeyModifiers(0x00)
    }

    /// The left Ctrl key.
    pub fn left_ctrl() -> (r: KeyModifiers)
        ensures
            r.spec_bits() == 0x01,
    {
        KeyModifiers(0x01)
    }

    /// The left Shift key.
    pub fn left_shift() -> (r: KeyModifiers)
        ensures
            r.spec_bits() == 0x02,
    {
        KeyModifiers(0x02)
    }

    /// The left Alt key.
    pub fn left_alt() -> (r: KeyModifiers)
        ensures
            r.spec_bits() == 0x04,
    {
        KeyModifiers(0x04)
    }

    /// The left OS key.
    pub fn left_windows() -> (r: KeyModifiers)
        ensures
            r.spec_bits() == 0x08,
    {
        KeyModifiers(0x08)
    }

    /// The right Ctrl key.
    pub fn right_ctrl() -> (r: KeyModifiers)
        ensures
            r.spec_bits() == 0x10,
    {
        KeyModifiers(0x10)
    }

    /// The right Shift key.
    pub fn right_shift() -> (r: KeyModifiers)
        ensures
            r.spec_bits() == 0x20,
    {
        KeyModifiers(0x20)
    }

    /// The right Alt key.
    pub fn right_alt() -> (r: KeyModifiers)
        ensures
            r.spec_bits() == 0x40,
    {
        KeyModifiers(0x40)
    }

    /// The right OS key.
    pub fn right_windows() -> (r: KeyModifiers)
        ensures
            r.spec_bits() == 0x80,
    {
        KeyModifiers(0x80)
    }

    /// Combines two modifier sets.
    pub fn union(self, other: KeyModifiers) -> (r: KeyModifiers)
        ensures
            r.spec_bits() == self.spec_bits() | other.spec_bits(),
    {
        KeyModifiers(self.0 | other.0)
    }
}

/// One outbound request, one variant per supported operation.
#[derive(Clone, Debug, PartialEq, Eq)]
pub enum Command {
    /// Identity query: asks the chip for its version.
    GetInfo,
    /// Presses (or, with no codes, releases) up to six keys at once.
    SendKbGeneralData { modifiers: KeyModifiers, codes: Vec<KeyCode> },
    /// Sends a verbatim raw HID report of at most 64 bytes.
    SendMyHidData { data: Vec<u8> },
    /// Asks for the chip's parameter configuration snapshot.
    GetParaCfg,
    /// Asks for one of the USB descriptor strings.
    GetUsbString { type_: UsbStringType },
}

/// The selector of a USB descriptor string.
#[derive(Clone, Copy, Debug, PartialEq, Eq, Structural)]
pub enum UsbStringType {
    Vendor,
    Product,
    Serial,
}

/// The wire byte of a descriptor string selector.
pub open spec fn string_type_byte(t: UsbStringType) -> u8 {
    match t {
        UsbStringType::Vendor => 0x00,
        UsbStringType::Product => 0x01,
        UsbStringType::Serial => 0x02,
    }
}

/// The descriptor string selector a wire byte stands for, if any.
pub open spec fn string_type_of(value: u8) -> Option<UsbStringType> {
    if value == 0x00 {
        Some(UsbStringType::Vendor)
    } else if value == 0x01 {
        Some(UsbStringType::Product)
    } else if value == 0x02 {
        Some(UsbStringType::Serial)
    } else {
        None
    }
}

/// The six key-code slots of a send-keys payload: codes packed left to
/// right, unused slots zero, codes past the sixth ignored.
pub open spec fn key_slots(codes: Seq<KeyCode>) -> Seq<u8> {
    Seq::new(
        6,
        |i: int|
            if i < codes.len() {
                codes[i].spec_code()
            } else {
                0u8
            },
    )
}

/// The request opcode of a command.
pub open spec fn opcode_spec(c: Command) -> u8 {
    match c {
        Command::GetInfo => 0x01,
        Command::SendKbGeneralData { .. } => 0x02,
        Command::SendMyHidData { .. } => 0x06,
        Command::GetParaCfg => 0x08,
        Command::GetUsbString { .. } => 0x0A,
    }
}

/// The payload a command serializes to: empty for the parameterless
/// queries, the eight-byte key report for send-keys, the verbatim bytes
/// for a raw HID report, and the selector byte for a descriptor query.
pub open spec fn payload_spec(c: Command) -> Seq<u8> {
    match c {
        Command::GetInfo => Seq::empty(),
        Command::GetParaCfg => Seq::empty(),
        Command::SendKbGeneralData { modifiers, codes } => seq![modifiers.spec_bits(), 0u8]
            + key_slots(codes@),
        Command::SendMyHidData { data } => data@,
        Command::GetUsbString { type_ } => seq![string_type_byte(type_)],
    }
}

impl Command {
    /// The request opcode byte of this command.
    pub fn cmd(&self) -> (r: u8)
        ensures
            r == opcode_spec(*self),
    {
        match self {
            Command::GetInfo => 0x01,
            Command::SendKbGeneralData { .. } => 0x02,
            Command::SendMyHidData { .. } => 0x06,
            Command::GetParaCfg => 0x08,
            Command::GetUsbString { .. } => 0x0A,
        }
    }

    /// Serializes this command's payload. Zero key codes yield the all-zero
    /// "key released" report; at most the first six codes are packed.
    pub fn data(&self) -> (r: Vec<u8>)
        ensures
            r@ == payload_spec(*self),
    {
        match self {
            Command::GetInfo => Vec::new(),
            Command::GetParaCfg => Vec::new(),
            Command::SendKbGeneralData { modifiers, codes } => {
                let mut buf: Vec<u8> = Vec::new();
                buf.push(modifiers.bits());
                buf.push(0x00);
                let mut i: usize = 0;
                while i < 6
                    invariant
                        0 <= i <= 6,
                        buf@ =~= seq![modifiers.spec_bits(), 0u8] + key_slots(codes@).take(
                            i as int,
                        ),
                    decreases 6 - i,
                {
                    if i < codes.len() {
                        buf.push(codes[i].code());
                    } else {
                        buf.push(0x00);
                    }
                    proof {
                        assert(buf@ =~= seq![modifiers.spec_bits(), 0u8] + key_slots(
                            codes@,
                        ).take(i + 1));
                    }
                    i = i + 1;
                }
                proof {
                    assert(key_slots(codes@).take(6) =~= key_slots(codes@));
                }
                buf
            },
            Command::SendMyHidData { data } => {
                let mut buf: Vec<u8> = Vec::new();
                let mut i: usize = 0;
                while i < data.len()
                    invariant
                        0 <= i <= data@.len(),
                        buf@ =~= data@.take(i as int),
                    decreases data@.len() - i,
                {
                    buf.push(data[i]);
                    i = i + 1;
                }
                proof {
                    assert(data@.take(data@.len() as int) =~= data@);
                }
                buf
            },
            Command::GetUsbString { type_ } => {
                let mut buf: Vec<u8> = Vec::new();
                let byte: u8 = match type_ {
                    UsbStringType::Vendor => 0x00,
                    UsbStringType::Product => 0x01,
                    UsbStringType::Serial => 0x02,
                };
                buf.push(byte);
                proof {
                    assert(buf@ =~= seq![string_type_byte(*type_)]);
                }
                buf
            },
        }
    }
}

/// The chip's execution status byte in a key-send acknowledgement.
#[derive(Clone, Copy, Debug, PartialEq, Eq, Structural)]
pub enum CommandExecutionStatus {
    Success,
    ErrTimeout,
    ErrHead,
    ErrCmd,
    ErrSum,
    ErrPara,
    ErrOperate,
}

/// The execution status a wire byte stands for, if it is in the known set.
pub open spec fn status_of(value: u8) -> Option<CommandExecutionStatus> {
    if value == 0x00 {
        Some(CommandExecutionStatus::Success)
    } else if value == 0xE1 {
        Some(CommandExecutionStatus::ErrTimeout)
    } else if value == 0xE2 {
        Some(CommandExecutionStatus::ErrHead)
    } else if value == 0xE3 {
        Some(CommandExecutionStatus::ErrCmd)
    } else if value == 0xE4 {
        Some(CommandExecutionStatus::ErrSum)
    } else if value == 0xE5 {
        Some(CommandExecutionStatus::ErrPara)
    } else if value == 0xE6 {
        Some(CommandExecutionStatus::ErrOperate)
    } else {
        None
    }
}

impl CommandExecutionStatus {
    /// Decodes a status byte, `None` for values outside the known set.
    pub fn from_u8(value: u8) -> (r: Option<CommandExecutionStatus>)
        ensures
            r == status_of(value),
    {
        match value {
            0x00 => Some(CommandExecutionStatus::Success),
            0xE1 => Some(CommandExecutionStatus::ErrTimeout),
            0xE2 => Some(CommandExecutionStatus::ErrHead),
            0xE3 => Some(CommandExecutionStatus::ErrCmd),
            0xE4 => Some(CommandExecutionStatus::ErrSum),
            0xE5 => Some(CommandExecutionStatus::ErrPara),
            0xE6 => Some(CommandExecutionStatus::ErrOperate),
            _ => None,
        }
    }
}

/// The parameter configuration snapshot of the chip. The two reserved
/// regions of the reply are kept only as opaque bytes.
#[derive(Clone, Debug, PartialEq, Eq)]
pub struct ParaCfg {
    pub operation_mode: u8,
    pub serial_communication_mode: u8,
    pub addr: u8,
    pub baud_rate: u32,
    pub reserved_a: Vec<u8>,
    pub vid: u16,
    pub pid: u16,
    pub reserved_b: Vec<u8>,
}

/// A 16-bit big-endian value from two bytes.
pub open spec fn be16(hi: u8, lo: u8) -> u16 {
    (hi * 0x100 + lo) as u16
}

/// A 32-bit big-endian value from four bytes.
pub open spec fn be32(b0: u8, b1: u8, b2: u8, b3: u8) -> u32 {
    (b0 * 0x1000000 + b1 * 0x10000 + b2 * 0x100 + b3) as u32
}

/// One inbound reply, one variant per opcode observed on the wire.
#[derive(Clone, Debug, PartialEq, Eq)]
pub enum Response {
    /// Identity reply; the first payload byte is the version character.
    GetInfo { version: char },
    /// Key-send acknowledgement with its execution status.
    SendKbGeneralData(CommandExecutionStatus),
    /// Parameter configuration snapshot.
    GetParaCfg(ParaCfg),
    /// A USB descriptor string with its selector.
    GetUsbString { type_: UsbStringType, descriptor: String },
}

/// Relies on `String::from_utf8` and `Utf8Error::valid_up_to`, stated
/// over vstd's UTF-8 model: decoding succeeds exactly on valid UTF-8 and
/// returns the string of the decoded characters; on failure it reports
/// the maximum index up to which the bytes are a valid encoding. Both
/// are functions of the bytes alone.
#[verifier::external_body]
fn utf8_to_string(bytes: Vec<u8>) -> (r: Result<String, usize>)
    ensures
        match r {
            Ok(s) => valid_utf8(bytes@) && s@ == decode_utf8(bytes@),
            Err(n) => {
                &&& !valid_utf8(bytes@)
                &&& n <= bytes@.len()
                &&& valid_utf8(bytes@.take(n as int))
                &&& forall|m: int| n < m <= bytes@.len() ==> !valid_utf8(bytes@.take(m))
            },
        },
{
    match String::from_utf8(bytes) {
        Ok(s) => Ok(s),
        Err(e) => Err(e.utf8_error().valid_up_to()),
    }
}

/// Exactly what decoding a reply payload returns for each opcode and
/// payload: the typed response on the documented shape, `InvalidData` on a
/// shape violation, `InvalidCmd` for an opcode outside the reply set, and
/// the UTF-8 failure for descriptor bytes that do not decode.
pub open spec fn response_rel(cmd: u8, data: Seq<u8>, r: Result<Response, Error>) -> bool {
    if cmd == 0x81 {
        if data.len() == 8 {
            r == Ok::<Response, Error>(Response::GetInfo { version: data[0] as char })
        } else {
            r == Err::<Response, Error>(Error::InvalidData)
        }
    } else if cmd == 0x82 {
        if data.len() == 1 {
            match status_of(data[0]) {
                Some(status) => r == Ok::<Response, Error>(
                    Response::SendKbGeneralData(status),
                ),
                None => r == Err::<Response, Error>(Error::InvalidData),
            }
        } else {
            r == Err::<Response, Error>(Error::InvalidData)
        }
    } else if cmd == 0x88 {
        if data.len() == 50 {
            &&& r matches Ok(Response::GetParaCfg(p))
            &&& p.operation_mode == data[0]
            &&& p.serial_communication_mode == data[1]
            &&& p.addr == data[2]
            &&& p.baud_rate == be32(data[3], data[4], data[5], data[6])
            &&& p.vid == be16(data[11], data[12])
            &&& p.pid == be16(data[13], data[14])
            &&& p.reserved_a@ == data.subrange(7, 11)
            &&& p.reserved_b@ == data.subrange(15, 50)
        } else {
            r == Err::<Response, Error>(Error::InvalidData)
        }
    } else if cmd == 0x8A {
        if data.len() < 2 {
            r == Err::<Response, Error>(Error::InvalidData)
        } else if string_type_of(data[0]) is None {
            r == Err::<Response, Error>(Error::InvalidData)
        } else if data.len() != 2 + data[1] {
            r == Err::<Response, Error>(Error::InvalidData)
        } else if valid_utf8(data.skip(2)) {
            &&& r matches Ok(Response::GetUsbString { type_, descriptor })
            &&& Some(type_) == string_type_of(data[0])
            &&& descriptor@ == decode_utf8(data.skip(2))
        } else {
            // The carried index is pinned as the longest valid prefix of
            // the descriptor bytes.
            &&& r matches Err(Error::Utf8(n))
            &&& n <= data.len() - 2
            &&& valid_utf8(data.skip(2).take(n as int))
            &&& forall|m: int| n < m <= data.len() - 2 ==> !valid_utf8(data.skip(2).take(m))
        }
    } else {
        r == Err::<Response, Error>(Error::InvalidCmd)
    }
}

/// Copies the bytes of `data` from `start` up to `end` into a new vector.
fn copy_range(data: &[u8], start: usize, end: usize) -> (r: Vec<u8>)
    requires
        start <= end <= data@.len(),
    ensures
        r@ == data@.subrange(start as int, end as int),
{
    let mut buf: Vec<u8> = Vec::new();
    let mut i: usize = start;
    while i < end
        invariant
            start <= i <= end <= data@.len(),
            buf@ =~= data@.subrange(start as int, i as int),
        decreases end - i,
    {
        buf.push(data[i]);
        proof {
            assert(buf@ =~= data@.subrange(start as int, i + 1));
        }
        i = i + 1;
    }
    buf
}

impl Response {
    /// Decodes the payload of a reply frame according to its opcode, with
    /// strict length and tag validation. A reply of a wrong length for a
    /// recognized opcode fails with `InvalidData`; an unrecognized opcode
    /// fails with `InvalidCmd`.
    pub fn decode(cmd: u8, data: &[u8]) -> (r: Result<Response, Error>)
        ensures
            response_rel(cmd, data@, r),
    {
        match cmd {
            0x81 => {
                if data.len() == 8 {
                    Ok(Response::GetInfo { version: data[0] as char })
                } else {
                    Err(Error::InvalidData)
                }
            },
            0x82 => {
                if data.len() == 1 {
                    match CommandExecutionStatus::from_u8(data[0]) {
                        Some(status) => Ok(Response::SendKbGeneralData(status)),
                        None => Err(Error::InvalidData),
                    }
                } else {
                    Err(Error::InvalidData)
                }
            },
            0x88 => {
                if data.len() == 50 {
                    let baud_rate: u32 = (data[3] as u32) * 0x1000000 + (data[4] as u32) * 0x10000
                        + (data[5] as u32) * 0x100 + (data[6] as u32);
                    let vid: u16 = (data[11] as u16) * 0x100 + (data[12] as u16);
                    let pid: u16 = (data[13] as u16) * 0x100 + (data[14] as u16);
                    Ok(
                        Response::GetParaCfg(
                            ParaCfg {
                                operation_mode: data[0],
                                serial_communication_mode: data[1],
                                addr: data[2],
                                baud_rate,
                                reserved_a: copy_range(data, 7, 11),
                                vid,
                                pid,
                                reserved_b: copy_range(data, 15, 50),
                            },
                        ),
                    )
                } else {
                    Err(Error::InvalidData)
                }
            },
            0x8A => {
                if data.len() < 2 {
                    return Err(Error::InvalidData);
                }
                let type_ = match data[0] {
                    0x00 => UsbStringType::Vendor,
                    0x01 => UsbStringType::Product,
                    0x02 => UsbStringType::Serial,
                    _ => {
                        return Err(Error::InvalidData);
                    },
                };
                let len: usize = data[1] as usize;
                if data.len() != 2 + len {
                    return Err(Error::InvalidData);
                }
                let text_bytes = copy_range(data, 2, data.len());
                proof {
                    assert(data@.subrange(2, data@.len() as int) =~= data@.skip(2));
                }
                match utf8_to_string(text_bytes) {
                    Ok(descriptor) => Ok(Response::GetUsbString { type_, descriptor }),
                    Err(valid_up_to) => Err(Error::Utf8(valid_up_to)),
                }
            },
            _ => Err(Error::InvalidCmd),
        }
    }
}

/// Returns the first `n` bytes of a slice.
fn slice_take(buf: &[u8], n: usize) -> (r: &[u8])
    requires
        n <= buf@.len(),
    ensures
        r@ == buf@.take(n as int),
{
    let r = &buf[0..n];
    proof {
        assert(r@ =~= buf@.take(n as int));
    }
    r
}

} // verus!
