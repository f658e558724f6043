//! The binary wire protocol.
//!
//! One frame, big-endian, no padding:
//! `timestamp: 8 bytes | command code: 1 byte | arg length: 2 bytes | args`.
//! Commands are a tagged union; their payloads are UTF-8 text, one flag
//! byte, or an 8-byte number. Seek positions and durations travel as the
//! raw bit pattern of an IEEE-754 double; this crate carries that pattern
//! as a `u64` and leaves the floating-point reading of it to the caller.
//!
//! Encoding is total for any command whose payload fits the 2-byte length
//! field; decoding reports exactly how it failed and inverts encoding:
//! see [`lemma_command_round_trip`] and [`lemma_frame_round_trip`].
use vstd::prelude::*;
use vstd::slice::{slice_subrange, slice_to_vec};
use vstd::string::StrSliceExecFns;
use vstd::utf8::{decode_utf8, encode_utf8, valid_utf8};

verus! {

/// Version carried in every `NewConnection` payload; peers speaking
/// another version are turned away.
pub const PROTOCOL_VERSION: u16 = 1;

/// Why a frame or a command failed to decode.
#[derive(Debug, Clone, Copy, PartialEq, Eq, Structural)]
pub enum DecodeError {
    /// A `NewConnection` carried this version, which is not `PROTOCOL_VERSION`.
    ProtocolVersionMismatch(u16),
    /// The command code byte is not assigned.
    UnknownCommand(u8),
    /// Fewer bytes were available than the payload needs.
    TruncatedPayload,
    /// A text payload was not valid UTF-8.
    InvalidUtf8,
}

/// One protocol command, as held in memory.
#[derive(Debug, Clone, PartialEq)]
pub enum VoyeursCommand {
    /// Join handshake: the sender's username. The wire form also carries
    /// the protocol version.
    NewConnection(String),
    /// The sender's readiness (true = its player is not paused).
    Ready(bool),
    /// Seek to an absolute position; bit pattern of a double in seconds.
    Seek(u64),
    /// Name of the file the sender is playing.
    Filename(String),
    /// Length of that file; bit pattern of a double in seconds.
    Duration(u64),
    /// Answer to `GetStreamName`: a source URL, or empty for none.
    StreamName(String),
    /// Ask the hub for its source URL.
    GetStreamName,
}

/// Mathematical image of a [`VoyeursCommand`]: text as character
/// sequences, everything else as plain values.
pub enum CommandView {
    NewConnection(Seq<char>),
    Ready(bool),
    Seek(u64),
    Filename(Seq<char>),
    Duration(u64),
    StreamName(Seq<char>),
    GetStreamName,
}

impl View for VoyeursCommand {
    type V = CommandView;

    open spec fn view(&self) -> CommandView {
        match self {
            VoyeursCommand::NewConnection(name) => CommandView::NewConnection(name@),
            VoyeursCommand::Ready(flag) => CommandView::Ready(*flag),
            VoyeursCommand::Seek(t) => CommandView::Seek(*t),
            VoyeursCommand::Filename(f) => CommandView::Filename(f@),
            VoyeursCommand::Duration(t) => CommandView::Duration(*t),
            VoyeursCommand::StreamName(n) => CommandView::StreamName(n@),
            VoyeursCommand::GetStreamName => CommandView::GetStreamName,
        }
    }
}

/// Big-endian bytes of a `u16`.
pub open spec fn spec_u16_be(x: u16) -> Seq<u8> {
    seq![(x >> 8) as u8, x as u8]
}

/// Big-endian bytes of a `u64`.
pub open spec fn spec_u64_be(x: u64) -> Seq<u8> {
    seq![
        (x >> 56) as u8,
        (x >> 48) as u8,
        (x >> 40) as u8,
        (x >> 32) as u8,
        (x >> 24) as u8,
        (x >> 16) as u8,
        (x >> 8) as u8,
        x as u8,
    ]
}

/// The `u16` read big-endian from two bytes.
pub open spec fn spec_u16_from_be(b0: u8, b1: u8) -> u16 {
    ((b0 as u16) << 8) | (b1 as u16)
}

/// The `u64` read big-endian from the first 8 elements of a byte sequence.
pub open spec fn spec_u64_from_be(s: Seq<u8>) -> u64
    recommends
        s.len() >= 8,
{
    ((s[0] as u64) << 56) | ((s[1] as u64) << 48) | ((s[2] as u64) << 40) | ((s[3] as u64) << 32)
        | ((s[4] as u64) << 24) | ((s[5] as u64) << 16) | ((s[6] as u64) << 8) | (s[7] as u64)
}

/// Reading back the big-endian bytes of a `u16` gives the number again.
pub proof fn lemma_u16_be_round_trip(x: u16)
    ensures
        spec_u16_from_be(spec_u16_be(x)[0], spec_u16_be(x)[1]) == x,
{
    assert(((((x >> 8) as u8) as u16) << 8) | ((x as u8) as u16) == x) by (bit_vector);
}

/// Reading back the big-endian bytes of a `u64` gives the number again.
pub proof fn lemma_u64_be_round_trip(x: u64)
    ensures
        spec_u64_from_be(spec_u64_be(x)) == x,
{
    assert(((((x >> 56) as u8) as u64) << 56) | ((((x >> 48) as u8) as u64) << 48) | ((((x
        >> 40) as u8) as u64) << 40) | ((((x >> 32) as u8) as u64) << 32) | ((((x
        >> 24) as u8) as u64) << 24) | ((((x >> 16) as u8) as u64) << 16) | ((((x
        >> 8) as u8) as u64) << 8) | ((x as u8) as u64) == x) by (bit_vector);
}

/// Appends the big-endian bytes of a `u16`.
fn push_u16_be(out: &mut Vec<u8>, x: u16)
    ensures
        final(out)@ == old(out)@ + spec_u16_be(x),
{
    out.push(#[verifier::truncate] ((x >> 8) as u8));
    out.push(#[verifier::truncate] (x as u8));
    assert(final(out)@ =~= old(out)@ + spec_u16_be(x));
}

/// Appends the big-endian bytes of a `u64`.
fn push_u64_be(out: &mut Vec<u8>, x: u64)
    ensures
        final(out)@ == old(out)@ + spec_u64_be(x),
{
    out.push(#[verifier::truncate] ((x >> 56) as u8));
    out.push(#[verifier::truncate] ((x >> 48) as u8));
    out.push(#[verifier::truncate] ((x >> 40) as u8));
    out.push(#[verifier::truncate] ((x >> 32) as u8));
    out.push(#[verifier::truncate] ((x >> 24) as u8));
    out.push(#[verifier::truncate] ((x >> 16) as u8));
    out.push(#[verifier::truncate] ((x >> 8) as u8));
    out.push(#[verifier::truncate] (x as u8));
    assert(final(out)@ =~= old(out)@ + spec_u64_be(x));
}

/// Reads a `u64` big-endian from `bytes` starting at `start`.
fn read_u64_be(bytes: &Vec<u8>, start: usize) -> (r: u64)
    requires
        start + 8 <= bytes@.len(),
    ensures
        r == spec_u64_from_be(bytes@.subrange(start as int, start as int + 8)),
{
    // binding the length lets the verifier see that start + 8 stays in range
    let len: usize = bytes.len();
    let r: u64 = ((bytes[start] as u64) << 56) | ((bytes[start + 1] as u64) << 48) | ((bytes[start
        + 2] as u64) << 40) | ((bytes[start + 3] as u64) << 32) | ((bytes[start + 4] as u64) << 24)
        | ((bytes[start + 5] as u64) << 16) | ((bytes[start + 6] as u64) << 8) | (bytes[start
        + 7] as u64);
    proof {
        let s = bytes@.subrange(start as int, start as int + 8);
        assert(s[0] == bytes@[start as int]);
        assert(s[1] == bytes@[start as int + 1]);
        assert(s[2] == bytes@[start as int + 2]);
        assert(s[3] == bytes@[start as int + 3]);
        assert(s[4] == bytes@[start as int + 4]);
        assert(s[5] == bytes@[start as int + 5]);
        assert(s[6] == bytes@[start as int + 6]);
        assert(s[7] == bytes@[start as int + 7]);
    }
    r
}

/// The code byte that announces a command on the wire.
pub open spec fn cmd_code_of(c: CommandView) -> u8 {
    match c {
        CommandView::NewConnection(_) => 0,
        CommandView::Ready(_) => 1,
        CommandView::Seek(_) => 2,
        CommandView::Filename(_) => 3,
        CommandView::Duration(_) => 4,
        CommandView::StreamName(_) => 5,
        CommandView::GetStreamName => 6,
    }
}

/// The payload bytes of a command.
pub open spec fn cmd_args_of(c: CommandView) -> Seq<u8> {
    match c {
        CommandView::NewConnection(name) => spec_u16_be(PROTOCOL_VERSION) + encode_utf8(name),
        CommandView::Ready(flag) => seq![if flag { 1u8 } else { 0u8 }],
        CommandView::Seek(t) => spec_u64_be(t),
        CommandView::Filename(f) => encode_utf8(f),
        CommandView::Duration(t) => spec_u64_be(t),
        CommandView::StreamName(n) => encode_utf8(n),
        CommandView::GetStreamName => Seq::empty(),
    }
}

impl VoyeursCommand {
    /// Wire form of the command: its code byte and its payload bytes.
    pub fn to_bytes(&self) -> (r: (u8, Vec<u8>))
        ensures
            r.0 == cmd_code_of(self@),
            r.1@ == cmd_args_of(self@),
    {
        match self {
            VoyeursCommand::NewConnection(name) => {
                let mut args: Vec<u8> = Vec::new();
                push_u16_be(&mut args, PROTOCOL_VERSION);
                let mut name_bytes = name.as_str().as_bytes_vec();
                args.append(&mut name_bytes);
                (0, args)
            },
            VoyeursCommand::Ready(flag) => {
                let mut args: Vec<u8> = Vec::new();
                args.push(if *flag {
                    1
                } else {
                    0
                });
                assert(args@ =~= cmd_args_of(self@));
                (1, args)
            },
            VoyeursCommand::Seek(t) => {
                let mut args: Vec<u8> = Vec::new();
                push_u64_be(&mut args, *t);
                (2, args)
            },
            VoyeursCommand::Filename(f) => (3, f.as_str().as_bytes_vec()),
            VoyeursCommand::Duration(t) => {
                let mut args: Vec<u8> = Vec::new();
                push_u64_be(&mut args, *t);
                (4, args)
            },
            VoyeursCommand::StreamName(n) => (5, n.as_str().as_bytes_vec()),
            VoyeursCommand::GetStreamName => (6, Vec::new()),
        }
    }
}

/// The string decoded from a byte vector, when the bytes are UTF-8.
///
/// Relies on `String::from_utf8`: it returns the string whose UTF-8
/// encoding is exactly the given bytes, and an error if and only if the
/// bytes are not valid UTF-8 — the notions `valid_utf8` and
/// `decode_utf8` here are vstd's model of that encoding.
#[verifier::external_body]
fn string_from_utf8(bytes: Vec<u8>) -> (r: Option<String>)
    ensures
        match r {
            Some(s) => valid_utf8(bytes@) && s@ == decode_utf8(bytes@),
            None => !valid_utf8(bytes@),
        },
{
    String::from_utf8(bytes).ok()
}

/// What decoding a code byte and payload yields: the command, or the
/// exact error.
///
/// Payloads longer than the fixed-size fields they carry are accepted
/// with the extra bytes ignored; text payloads use every byte.
pub open spec fn spec_from_bytes(code: u8, args: Seq<u8>) -> Result<CommandView, DecodeError> {
    if code == 0 {
        if args.len() < 2 {
            Err(DecodeError::TruncatedPayload)
        } else {
            let ver = spec_u16_from_be(args[0], args[1]);
            if ver != PROTOCOL_VERSION {
                Err(DecodeError::ProtocolVersionMismatch(ver))
            } else if valid_utf8(args.skip(2)) {
                Ok(CommandView::NewConnection(decode_utf8(args.skip(2))))
            } else {
                Err(DecodeError::InvalidUtf8)
            }
        }
    } else if code == 1 {
        if args.len() < 1 {
            Err(DecodeError::TruncatedPayload)
        } else {
            Ok(CommandView::Ready(args[0] == 1))
        }
    } else if code == 2 {
        if args.len() < 8 {
            Err(DecodeError::TruncatedPayload)
        } else {
            Ok(CommandView::Seek(spec_u64_from_be(args.subrange(0, 8))))
        }
    } else if code == 3 {
        if valid_utf8(args) {
            Ok(CommandView::Filename(decode_utf8(args)))
        } else {
            Err(DecodeError::InvalidUtf8)
        }
    } else if code == 4 {
        if args.len() < 8 {
            Err(DecodeError::TruncatedPayload)
        } else {
            Ok(CommandView::Duration(spec_u64_from_be(args.subrange(0, 8))))
        }
    } else if code == 5 {
        if valid_utf8(args) {
            Ok(CommandView::StreamName(decode_utf8(args)))
        } else {
            Err(DecodeError::InvalidUtf8)
        }
    } else if code == 6 {
        Ok(CommandView::GetStreamName)
    } else {
        Err(DecodeError::UnknownCommand(code))
    }
}

/// The mathematical image of a decode result.
pub open spec fn cmd_result_view(r: Result<VoyeursCommand, DecodeError>) -> Result<
    CommandView,
    DecodeError,
> {
    match r {
        Ok(c) => Ok(c@),
        Err(e) => Err(e),
    }
}

impl VoyeursCommand {
    /// Decodes a command from its code byte and payload, reporting
    /// exactly which way malformed input failed: an unassigned code, a
    /// payload shorter than its fixed-size fields, a version other than
    /// `PROTOCOL_VERSION` in a handshake, or text that is not UTF-8.
    pub fn from_bytes(cmd_code: u8, args: Vec<u8>) -> (r: Result<VoyeursCommand, DecodeError>)
        ensures
            cmd_result_view(r) == spec_from_bytes(cmd_code, args@),
    {
        let n: usize = args.len();
        match cmd_code {
            0 => {
                if n < 2 {
                    Err(DecodeError::TruncatedPayload)
                } else {
                    let ver: u16 = ((args[0] as u16) << 8) | (args[1] as u16);
                    if ver != PROTOCOL_VERSION {
                        Err(DecodeError::ProtocolVersionMismatch(ver))
                    } else {
                        let tail = slice_to_vec(slice_subrange(args.as_slice(), 2, n));
                        proof {
                            assert(tail@ =~= args@.skip(2));
                        }
                        match string_from_utf8(tail) {
                            Some(s) => Ok(VoyeursCommand::NewConnection(s)),
                            None => Err(DecodeError::InvalidUtf8),
                        }
                    }
                }
            },
            1 => {
                if n < 1 {
                    Err(DecodeError::TruncatedPayload)
                } else {
                    Ok(VoyeursCommand::Ready(args[0] == 1))
                }
            },
            2 => {
                if n < 8 {
                    Err(DecodeError::TruncatedPayload)
                } else {
                    Ok(VoyeursCommand::Seek(read_u64_be(&args, 0)))
                }
            },
            3 => {
                match string_from_utf8(args) {
                    Some(s) => Ok(VoyeursCommand::Filename(s)),
                    None => Err(DecodeError::InvalidUtf8),
                }
            },
            4 => {
                if n < 8 {
                    Err(DecodeError::TruncatedPayload)
                } else {
                    Ok(VoyeursCommand::Duration(read_u64_be(&args, 0)))
                }
            },
            5 => {
                match string_from_utf8(args) {
                    Some(s) => Ok(VoyeursCommand::StreamName(s)),
                    None => Err(DecodeError::InvalidUtf8),
                }
            },
            6 => Ok(VoyeursCommand::GetStreamName),
            _ => Err(DecodeError::UnknownCommand(cmd_code)),
        }
    }
}

/// Decoding inverts encoding: every constructible command comes back
/// from its own wire form.
pub proof fn lemma_command_round_trip(c: CommandView)
    ensures
        spec_from_bytes(cmd_code_of(c), cmd_args_of(c)) == Ok::<CommandView, DecodeError>(c),
{
    let args = cmd_args_of(c);
    match c {
        CommandView::NewConnection(name) => {
            let ver_bytes = spec_u16_be(PROTOCOL_VERSION);
            assert(args[0] == ver_bytes[0] && args[1] == ver_bytes[1]);
            lemma_u16_be_round_trip(PROTOCOL_VERSION);
            assert(args.skip(2) =~= encode_utf8(name));
            vstd::utf8::encode_utf8_valid_utf8(name);
            vstd::utf8::encode_utf8_decode_utf8(name);
        },
        CommandView::Ready(flag) => {
        },
        CommandView::Seek(t) => {
            assert(args.subrange(0, 8) =~= spec_u64_be(t));
            lemma_u64_be_round_trip(t);
        },
        CommandView::Filename(f) => {
            vstd::utf8::encode_utf8_valid_utf8(f);
            vstd::utf8::encode_utf8_decode_utf8(f);
        },
        CommandView::Duration(t) => {
            assert(args.subrange(0, 8) =~= spec_u64_be(t));
            lemma_u64_be_round_trip(t);
        },
        CommandView::StreamName(n) => {
            vstd::utf8::encode_utf8_valid_utf8(n);
            vstd::utf8::encode_utf8_decode_utf8(n);
        },
        CommandView::GetStreamName => {
        },
    }
}

/// One frame in memory: a corrected-clock timestamp in milliseconds and
/// the command it carries.
#[derive(Debug, PartialEq)]
pub struct Packet {
    pub timestamp: u64,
    pub command: VoyeursCommand,
}

/// Mathematical image of a [`Packet`].
pub struct PacketView {
    pub timestamp: u64,
    pub command: CommandView,
}

impl View for Packet {
    type V = PacketView;

    open spec fn view(&self) -> PacketView {
        PacketView { timestamp: self.timestamp, command: self.command@ }
    }
}

/// A packet fits on the wire when its payload length fits the 2-byte
/// length field.
pub open spec fn packet_wf(p: PacketView) -> bool {
    cmd_args_of(p.command).len() <= 0xFFFF
}

/// The frame bytes of a packet: timestamp, code, payload length, payload.
pub open spec fn spec_compile(p: PacketView) -> Seq<u8> {
    spec_u64_be(p.timestamp) + seq![cmd_code_of(p.command)] + spec_u16_be(
        cmd_args_of(p.command).len() as u16,
    ) + cmd_args_of(p.command)
}

/// Lays a frame out of its parts.
fn build_frame(timestamp: u64, code: u8, args: Vec<u8>) -> (r: Vec<u8>)
    requires
        args@.len() <= 0xFFFF,
    ensures
        r@ == spec_u64_be(timestamp) + seq![code] + spec_u16_be(args@.len() as u16) + args@,
{
    let ghost payload = args@;
    let mut out: Vec<u8> = Vec::new();
    push_u64_be(&mut out, timestamp);
    out.push(code);
    push_u16_be(&mut out, args.len() as u16);
    let mut args = args;
    out.append(&mut args);
    assert(out@ =~= spec_u64_be(timestamp) + seq![code] + spec_u16_be(payload.len() as u16)
        + payload);
    out
}

impl Packet {
    /// Encodes the frame. Total for every packet whose payload fits the
    /// length field; [`Packet::try_compile`] checks that bound at run
    /// time for payloads of unknown size.
    pub fn compile(self) -> (r: Vec<u8>)
        requires
            packet_wf(self@),
        ensures
            r@ == spec_compile(self@),
    {
        let Packet { timestamp, command } = self;
        let (code, args) = command.to_bytes();
        build_frame(timestamp, code, args)
    }

    /// Encodes the frame, or reports that the payload is too long for
    /// the 2-byte length field.
    pub fn try_compile(self) -> (r: Option<Vec<u8>>)
        ensures
            if packet_wf(self@) {
                r matches Some(bytes) && bytes@ == spec_compile(self@)
            } else {
                r is None
            },
    {
        let Packet { timestamp, command } = self;
        let (code, args) = command.to_bytes();
        if args.len() <= 0xFFFF {
            Some(build_frame(timestamp, code, args))
        } else {
            None
        }
    }
}

impl VoyeursCommand {
    /// Wraps the command in a packet stamped with the corrected current
    /// time (the local clock plus the measured skew `time_delta`).
    pub fn craft_packet(self, time_delta: i64) -> (r: Packet)
        ensures
            r.command == self,
    {
        Packet { timestamp: crate::time::get_timestamp(time_delta), command: self }
    }
}

/// What decoding a byte buffer that starts with one frame yields: the
/// packet, or the exact error. A buffer shorter than the 11-byte header,
/// or one whose declared payload length exceeds the bytes available,
/// is truncated; bytes after the declared payload belong to the next
/// frame and are left alone.
pub open spec fn spec_decode_frame(bytes: Seq<u8>) -> Result<PacketView, DecodeError> {
    if bytes.len() < 11 {
        Err(DecodeError::TruncatedPayload)
    } else {
        let alen = spec_u16_from_be(bytes[9], bytes[10]) as int;
        if bytes.len() < 11 + alen {
            Err(DecodeError::TruncatedPayload)
        } else {
            match spec_from_bytes(bytes[8], bytes.subrange(11, 11 + alen)) {
                Ok(c) => Ok(
                    PacketView { timestamp: spec_u64_from_be(bytes.subrange(0, 8)), command: c },
                ),
                Err(e) => Err(e),
            }
        }
    }
}

/// The mathematical image of a frame-decode result.
pub open spec fn packet_result_view(r: Result<Packet, DecodeError>) -> Result<
    PacketView,
    DecodeError,
> {
    match r {
        Ok(p) => Ok(p@),
        Err(e) => Err(e),
    }
}

/// Decodes one frame from the front of a byte buffer. Never reads past
/// the declared payload and fails with `TruncatedPayload` whenever the
/// buffer holds less than the frame declares.
pub fn decode_frame(bytes: &Vec<u8>) -> (r: Result<Packet, DecodeError>)
    ensures
        packet_result_view(r) == spec_decode_frame(bytes@),
{
    let n: usize = bytes.len();
    if n < 11 {
        return Err(DecodeError::TruncatedPayload);
    }
    let timestamp = read_u64_be(bytes, 0);
    let code: u8 = bytes[8];
    let alen: u16 = ((bytes[9] as u16) << 8) | (bytes[10] as u16);
    if n < 11 + alen as usize {
        return Err(DecodeError::TruncatedPayload);
    }
    let args = slice_to_vec(slice_subrange(bytes.as_slice(), 11, 11 + alen as usize));
    proof {
        assert(args@ =~= bytes@.subrange(11, 11 + spec_u16_from_be(bytes@[9], bytes@[10]) as int));
    }
    match VoyeursCommand::from_bytes(code, args) {
        Ok(command) => Ok(Packet { timestamp, command }),
        Err(e) => Err(e),
    }
}

/// A frame that declares more payload than the buffer holds decodes to
/// `TruncatedPayload`, whatever its bytes — as does a buffer shorter
/// than the header itself.
pub proof fn lemma_truncated_frame(bytes: Seq<u8>)
    requires
        bytes.len() < 11 || bytes.len() < 11 + spec_u16_from_be(bytes[9], bytes[10]),
    ensures
        spec_decode_frame(bytes) == Err::<PacketView, DecodeError>(DecodeError::TruncatedPayload),
{
}

/// A handshake whose version field is not `PROTOCOL_VERSION` decodes to
/// `ProtocolVersionMismatch` carrying that version, independent of what
/// else the payload holds.
pub proof fn lemma_version_mismatch(args: Seq<u8>)
    requires
        args.len() >= 2,
        spec_u16_from_be(args[0], args[1]) != PROTOCOL_VERSION,
    ensures
        spec_from_bytes(0, args) == Err::<CommandView, DecodeError>(
            DecodeError::ProtocolVersionMismatch(spec_u16_from_be(args[0], args[1])),
        ),
{
}

/// Decoding a compiled frame gives the packet back: the frame-level
/// round trip.
pub proof fn lemma_frame_round_trip(p: PacketView)
    requires
        packet_wf(p),
    ensures
        spec_decode_frame(spec_compile(p)) == Ok::<PacketView, DecodeError>(p),
{
    let bytes = spec_compile(p);
    let args = cmd_args_of(p.command);
    let alen = args.len() as u16;
    assert(bytes.len() == 11 + args.len());
    assert(bytes.subrange(0, 8) =~= spec_u64_be(p.timestamp));
    lemma_u64_be_round_trip(p.timestamp);
    assert(bytes[8] == cmd_code_of(p.command));
    assert(bytes[9] == spec_u16_be(alen)[0] && bytes[10] == spec_u16_be(alen)[1]);
    lemma_u16_be_round_trip(alen);
    assert(bytes.subrange(11, 11 + alen as int) =~= args);
    lemma_command_round_trip(p.command);
}

} // verus!
