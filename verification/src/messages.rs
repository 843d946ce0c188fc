//! The protocol messages and their canonical binary encoding.
//!
//! Encoding follows the protocol-buffer wire format: each present field is a
//! one-byte tag (field number and wire type) followed by a varint or a
//! length-delimited block. Fields appear in ascending field order; a singular
//! field equal to its default (empty bytes, zero, false) is omitted, an
//! optional field is present exactly when it is `Some`.
use vstd::prelude::*;

use crate::wire::{
    decode_varint, deframe_payload, encode_varint, lemma_lendelim_dec_prefix,
    lemma_varint_dec_prefix, lendelim_dec, lendelim_enc, varint_dec, varint_enc,
};

verus! {

// Tag bytes: field number shifted left by three, or-ed with the wire type
// (zero for varint, two for length-delimited).
pub const TAG1_LEN: u8 = 0x0a;

pub const TAG2_LEN: u8 = 0x12;

pub const TAG3_LEN: u8 = 0x1a;

pub const TAG1_VAR: u8 = 0x08;

pub const TAG2_VAR: u8 = 0x10;

pub const TAG3_VAR: u8 = 0x18;

// ---------------------------------------------------------------------------
// Field-level encoding and decoding
// ---------------------------------------------------------------------------
/// A singular bytes field: omitted when empty.
pub open spec fn enc_bytes_field(tag: u8, b: Seq<u8>) -> Seq<u8> {
    if b.len() == 0 {
        Seq::empty()
    } else {
        seq![tag] + lendelim_enc(b)
    }
}

/// An optional length-delimited field (optional bytes or a submessage):
/// present exactly when `Some`.
pub open spec fn enc_opt_field(tag: u8, b: Option<Seq<u8>>) -> Seq<u8> {
    match b {
        Some(x) => seq![tag] + lendelim_enc(x),
        None => Seq::empty(),
    }
}

/// A singular varint field: omitted when zero.
pub open spec fn enc_uint_field(tag: u8, v: nat) -> Seq<u8> {
    if v == 0 {
        Seq::empty()
    } else {
        seq![tag] + varint_enc(v)
    }
}

/// Parse a singular bytes field at the front of `s`: the payload (empty when
/// the field is absent) and the bytes consumed.
pub open spec fn dec_bytes_field(tag: u8, s: Seq<u8>) -> Option<(Seq<u8>, nat)> {
    if s.len() > 0 && s[0] == tag {
        match lendelim_dec(s.skip(1)) {
            Some(p) => Some((p.0, 1 + p.1)),
            None => None,
        }
    } else {
        Some((Seq::empty(), 0))
    }
}

/// Parse an optional length-delimited field at the front of `s`.
pub open spec fn dec_opt_field(tag: u8, s: Seq<u8>) -> Option<(Option<Seq<u8>>, nat)> {
    if s.len() > 0 && s[0] == tag {
        match lendelim_dec(s.skip(1)) {
            Some(p) => Some((Some(p.0), 1 + p.1)),
            None => None,
        }
    } else {
        Some((None, 0))
    }
}

/// Parse a singular varint field at the front of `s`; rejects values beyond
/// `u64`.
pub open spec fn dec_uint_field(tag: u8, s: Seq<u8>) -> Option<(nat, nat)> {
    if s.len() > 0 && s[0] == tag {
        match varint_dec(s.skip(1)) {
            Some(p) => if p.0 <= u64::MAX {
                Some((p.0, 1 + p.1))
            } else {
                None
            },
            None => None,
        }
    } else {
        Some((0, 0))
    }
}

pub proof fn lemma_bytes_field_prefix(tag: u8, b: Seq<u8>, rest: Seq<u8>)
    requires
        b.len() == 0 ==> rest.len() == 0 || rest[0] != tag,
    ensures
        dec_bytes_field(tag, enc_bytes_field(tag, b) + rest) == Some((
            b,
            enc_bytes_field(tag, b).len(),
        )),
{
    if b.len() == 0 {
        assert(enc_bytes_field(tag, b) + rest =~= rest);
    } else {
        let s = enc_bytes_field(tag, b) + rest;
        assert(s[0] == tag);
        assert(s.skip(1) =~= lendelim_enc(b) + rest);
        lemma_lendelim_dec_prefix(b, rest);
    }
}

pub proof fn lemma_opt_field_prefix(tag: u8, b: Option<Seq<u8>>, rest: Seq<u8>)
    requires
        b is None ==> rest.len() == 0 || rest[0] != tag,
    ensures
        dec_opt_field(tag, enc_opt_field(tag, b) + rest) == Some((
            b,
            enc_opt_field(tag, b).len(),
        )),
{
    match b {
        None => {
            assert(enc_opt_field(tag, b) + rest =~= rest);
        },
        Some(x) => {
            let s = enc_opt_field(tag, b) + rest;
            assert(s[0] == tag);
            assert(s.skip(1) =~= lendelim_enc(x) + rest);
            lemma_lendelim_dec_prefix(x, rest);
        },
    }
}

pub proof fn lemma_uint_field_prefix(tag: u8, v: nat, rest: Seq<u8>)
    requires
        v <= u64::MAX,
        v == 0 ==> rest.len() == 0 || rest[0] != tag,
    ensures
        dec_uint_field(tag, enc_uint_field(tag, v) + rest) == Some((
            v,
            enc_uint_field(tag, v).len(),
        )),
{
    if v == 0 {
        assert(enc_uint_field(tag, v) + rest =~= rest);
    } else {
        let s = enc_uint_field(tag, v) + rest;
        assert(s[0] == tag);
        assert(s.skip(1) =~= varint_enc(v) + rest);
        lemma_varint_dec_prefix(v, rest);
    }
}

// ---------------------------------------------------------------------------
// Executable field readers and writers
// ---------------------------------------------------------------------------
/// Append all of `b` to `out`.
pub fn append_bytes(out: &mut Vec<u8>, b: &[u8])
    ensures
        final(out)@ == old(out)@ + b@,
{
    let mut j: usize = 0;
    while j < b.len()
        invariant
            j <= b.len(),
            out@ == old(out)@ + b@.subrange(0, j as int),
        decreases b.len() - j,
    {
        out.push(b[j]);
        assert(out@ =~= old(out)@ + b@.subrange(0, j as int + 1));
        j = j + 1;
    }
    assert(out@ =~= old(out)@ + b@);
}

/// Emit a singular bytes field.
pub fn emit_bytes_field(tag: u8, b: &[u8], out: &mut Vec<u8>)
    ensures
        final(out)@ == old(out)@ + enc_bytes_field(tag, b@),
{
    if b.len() == 0 {
        assert(out@ =~= old(out)@ + enc_bytes_field(tag, b@));
    } else {
        out.push(tag);
        encode_varint(b.len() as u64, out);
        append_bytes(out, b);
        assert(out@ =~= old(out)@ + enc_bytes_field(tag, b@));
    }
}

/// Emit a present optional length-delimited field with payload `b`.
pub fn emit_block_field(tag: u8, b: &[u8], out: &mut Vec<u8>)
    ensures
        final(out)@ == old(out)@ + enc_opt_field(tag, Some(b@)),
{
    out.push(tag);
    encode_varint(b.len() as u64, out);
    append_bytes(out, b);
    assert(out@ =~= old(out)@ + enc_opt_field(tag, Some(b@)));
}

/// Emit a singular varint field.
pub fn emit_uint_field(tag: u8, v: u64, out: &mut Vec<u8>)
    ensures
        final(out)@ == old(out)@ + enc_uint_field(tag, v as nat),
{
    if v == 0 {
        assert(out@ =~= old(out)@ + enc_uint_field(tag, v as nat));
    } else {
        out.push(tag);
        encode_varint(v, out);
        assert(out@ =~= old(out)@ + enc_uint_field(tag, v as nat));
    }
}

/// Read a singular bytes field at index `i`: the payload and the bytes
/// consumed.
pub fn read_bytes_field(tag: u8, s: &[u8], i: usize) -> (r: Option<(Vec<u8>, usize)>)
    requires
        i <= s.len(),
    ensures
        match r {
            Some(p) => {
                &&& dec_bytes_field(tag, s@.skip(i as int)) == Some((p.0@, p.1 as nat))
                &&& i + p.1 <= s.len()
            },
            None => dec_bytes_field(tag, s@.skip(i as int)) is None,
        },
{
    if i < s.len() && s[i] == tag {
        assert(s@.skip(i as int)[0] == tag);
        assert(s@.skip(i as int).skip(1) =~= s@.skip(i as int + 1));
        match deframe_payload(s, i + 1) {
            Some((payload, end)) => Some((payload, end - i)),
            None => None,
        }
    } else {
        assert(s@.skip(i as int).len() > 0 ==> s@.skip(i as int)[0] == s@[i as int]);
        Some((Vec::new(), 0))
    }
}

/// Read an optional length-delimited field at index `i`.
pub fn read_opt_field(tag: u8, s: &[u8], i: usize) -> (r: Option<(Option<Vec<u8>>, usize)>)
    requires
        i <= s.len(),
    ensures
        match r {
            Some(p) => {
                &&& dec_opt_field(tag, s@.skip(i as int)) == Some((
                    match p.0 {
                        Some(v) => Some(v@),
                        None => None,
                    },
                    p.1 as nat,
                ))
                &&& i + p.1 <= s.len()
            },
            None => dec_opt_field(tag, s@.skip(i as int)) is None,
        },
{
    if i < s.len() && s[i] == tag {
        assert(s@.skip(i as int)[0] == tag);
        assert(s@.skip(i as int).skip(1) =~= s@.skip(i as int + 1));
        match deframe_payload(s, i + 1) {
            Some((payload, end)) => Some((Some(payload), end - i)),
            None => None,
        }
    } else {
        assert(s@.skip(i as int).len() > 0 ==> s@.skip(i as int)[0] == s@[i as int]);
        Some((None, 0))
    }
}

/// Read a singular varint field at index `i`.
pub fn read_uint_field(tag: u8, s: &[u8], i: usize) -> (r: Option<(u64, usize)>)
    requires
        i <= s.len(),
    ensures
        match r {
            Some(p) => {
                &&& dec_uint_field(tag, s@.skip(i as int)) == Some((p.0 as nat, p.1 as nat))
                &&& i + p.1 <= s.len()
            },
            None => dec_uint_field(tag, s@.skip(i as int)) is None,
        },
{
    if i < s.len() && s[i] == tag {
        assert(s@.skip(i as int)[0] == tag);
        assert(s@.skip(i as int).skip(1) =~= s@.skip(i as int + 1));
        match decode_varint(s, i + 1) {
            Some((v, n)) => Some((v, n + 1)),
            None => None,
        }
    } else {
        assert(s@.skip(i as int).len() > 0 ==> s@.skip(i as int)[0] == s@[i as int]);
        Some((0, 0))
    }
}

} // verus!

verus! {

// ---------------------------------------------------------------------------
// Message types and their mathematical views
// ---------------------------------------------------------------------------
/// First handshake frame, sent by the initiator on the raw stream.
pub struct EncryptionRequest {
    pub public_key: Vec<u8>,
}

pub struct EncryptionRequestV {
    pub public_key: Seq<u8>,
}

impl View for EncryptionRequest {
    type V = EncryptionRequestV;

    open spec fn view(&self) -> EncryptionRequestV {
        EncryptionRequestV { public_key: self.public_key@ }
    }
}

/// Second handshake frame, sent by the responder on the raw stream.
pub struct EncryptionResponse {
    pub public_key: Vec<u8>,
    pub iv: Vec<u8>,
}

pub struct EncryptionResponseV {
    pub public_key: Seq<u8>,
    pub iv: Seq<u8>,
}

impl View for EncryptionResponse {
    type V = EncryptionResponseV;

    open spec fn view(&self) -> EncryptionResponseV {
        EncryptionResponseV { public_key: self.public_key@, iv: self.iv@ }
    }
}

/// A peer device: identifier, human-readable name, and device kind.
pub struct Device {
    pub id: Vec<u8>,
    pub name: Vec<u8>,
    pub device_type: u64,
}

pub struct DeviceV {
    pub id: Seq<u8>,
    pub name: Seq<u8>,
    pub device_type: u64,
}

impl View for Device {
    type V = DeviceV;

    open spec fn view(&self) -> DeviceV {
        DeviceV { id: self.id@, name: self.name@, device_type: self.device_type }
    }
}

/// Intent of a transfer: a set of files compressed into one archive.
/// `file_name` is present when a single path was selected.
pub struct FileTransferIntent {
    pub file_name: Option<Vec<u8>>,
    pub file_size: u64,
    pub file_count: u64,
}

pub struct FileTransferIntentV {
    pub file_name: Option<Seq<u8>>,
    pub file_size: u64,
    pub file_count: u64,
}

impl View for FileTransferIntent {
    type V = FileTransferIntentV;

    open spec fn view(&self) -> FileTransferIntentV {
        FileTransferIntentV {
            file_name: match self.file_name {
                Some(ref n) => Some(n@),
                None => None,
            },
            file_size: self.file_size,
            file_count: self.file_count,
        }
    }
}

/// First frame after the handshake: who sends, and what.
pub struct TransferRequest {
    pub device: Option<Device>,
    pub intent: Option<FileTransferIntent>,
}

pub struct TransferRequestV {
    pub device: Option<DeviceV>,
    pub intent: Option<FileTransferIntentV>,
}

impl View for TransferRequest {
    type V = TransferRequestV;

    open spec fn view(&self) -> TransferRequestV {
        TransferRequestV {
            device: match self.device {
                Some(ref d) => Some(d@),
                None => None,
            },
            intent: match self.intent {
                Some(ref i) => Some(i@),
                None => None,
            },
        }
    }
}

/// The receiver's answer to a `TransferRequest`.
pub struct TransferRequestResponse {
    pub accepted: bool,
}

pub struct TransferRequestResponseV {
    pub accepted: bool,
}

impl View for TransferRequestResponse {
    type V = TransferRequestResponseV;

    open spec fn view(&self) -> TransferRequestResponseV {
        TransferRequestResponseV { accepted: self.accepted }
    }
}

/// How to reach a peer over TCP.
pub struct TcpConnectionInfo {
    pub hostname: Vec<u8>,
    pub port: u32,
}

pub struct TcpConnectionInfoV {
    pub hostname: Seq<u8>,
    pub port: u32,
}

impl View for TcpConnectionInfo {
    type V = TcpConnectionInfoV;

    open spec fn view(&self) -> TcpConnectionInfoV {
        TcpConnectionInfoV { hostname: self.hostname@, port: self.port }
    }
}

/// How to reach a peer over a BLE L2CAP channel.
pub struct BluetoothLeConnectionInfo {
    pub uuid: Vec<u8>,
    pub psm: u32,
}

pub struct BluetoothLeConnectionInfoV {
    pub uuid: Seq<u8>,
    pub psm: u32,
}

impl View for BluetoothLeConnectionInfo {
    type V = BluetoothLeConnectionInfoV;

    open spec fn view(&self) -> BluetoothLeConnectionInfoV {
        BluetoothLeConnectionInfoV { uuid: self.uuid@, psm: self.psm }
    }
}

/// Everything discovery learned about one peer.
pub struct DeviceConnectionInfo {
    pub device: Option<Device>,
    pub tcp: Option<TcpConnectionInfo>,
    pub ble: Option<BluetoothLeConnectionInfo>,
}

pub struct DeviceConnectionInfoV {
    pub device: Option<DeviceV>,
    pub tcp: Option<TcpConnectionInfoV>,
    pub ble: Option<BluetoothLeConnectionInfoV>,
}

impl View for DeviceConnectionInfo {
    type V = DeviceConnectionInfoV;

    open spec fn view(&self) -> DeviceConnectionInfoV {
        DeviceConnectionInfoV {
            device: match self.device {
                Some(ref d) => Some(d@),
                None => None,
            },
            tcp: match self.tcp {
                Some(ref t) => Some(t@),
                None => None,
            },
            ble: match self.ble {
                Some(ref b) => Some(b@),
                None => None,
            },
        }
    }
}

/// Discovery advertisement payload: connection details of an online device,
/// or the identifier of one going offline.
pub enum DiscoveryContent {
    ConnectionInfo(DeviceConnectionInfo),
    OfflineDeviceId(Vec<u8>),
}

pub enum DiscoveryContentV {
    ConnectionInfo(DeviceConnectionInfoV),
    OfflineDeviceId(Seq<u8>),
}

impl View for DiscoveryContent {
    type V = DiscoveryContentV;

    open spec fn view(&self) -> DiscoveryContentV {
        match self {
            DiscoveryContent::ConnectionInfo(i) => DiscoveryContentV::ConnectionInfo(i@),
            DiscoveryContent::OfflineDeviceId(id) => DiscoveryContentV::OfflineDeviceId(id@),
        }
    }
}

/// The advertisement message broadcast to nearby devices.
pub struct DeviceDiscoveryMessage {
    pub content: Option<DiscoveryContent>,
}

pub struct DeviceDiscoveryMessageV {
    pub content: Option<DiscoveryContentV>,
}

impl View for DeviceDiscoveryMessage {
    type V = DeviceDiscoveryMessageV;

    open spec fn view(&self) -> DeviceDiscoveryMessageV {
        DeviceDiscoveryMessageV {
            content: match self.content {
                Some(ref c) => Some(c@),
                None => None,
            },
        }
    }
}

} // verus!

verus! {

// ---------------------------------------------------------------------------
// Canonical encodings of the messages
// ---------------------------------------------------------------------------
pub open spec fn enc_encryption_request(m: EncryptionRequestV) -> Seq<u8> {
    enc_bytes_field(TAG1_LEN, m.public_key)
}

pub open spec fn enc_encryption_response(m: EncryptionResponseV) -> Seq<u8> {
    enc_bytes_field(TAG1_LEN, m.public_key) + enc_bytes_field(TAG2_LEN, m.iv)
}

pub open spec fn enc_device(m: DeviceV) -> Seq<u8> {
    enc_bytes_field(TAG1_LEN, m.id) + enc_bytes_field(TAG2_LEN, m.name) + enc_uint_field(
        TAG3_VAR,
        m.device_type as nat,
    )
}

pub open spec fn enc_file_transfer_intent(m: FileTransferIntentV) -> Seq<u8> {
    enc_opt_field(TAG1_LEN, m.file_name) + enc_uint_field(TAG2_VAR, m.file_size as nat)
        + enc_uint_field(TAG3_VAR, m.file_count as nat)
}

pub open spec fn enc_transfer_request(m: TransferRequestV) -> Seq<u8> {
    enc_opt_field(
        TAG1_LEN,
        match m.device {
            Some(d) => Some(enc_device(d)),
            None => None,
        },
    ) + enc_opt_field(
        TAG2_LEN,
        match m.intent {
            Some(i) => Some(enc_file_transfer_intent(i)),
            None => None,
        },
    )
}

pub open spec fn enc_transfer_request_response(m: TransferRequestResponseV) -> Seq<u8> {
    enc_uint_field(
        TAG1_VAR,
        if m.accepted {
            1nat
        } else {
            0nat
        },
    )
}

pub open spec fn enc_tcp_connection_info(m: TcpConnectionInfoV) -> Seq<u8> {
    enc_bytes_field(TAG1_LEN, m.hostname) + enc_uint_field(TAG2_VAR, m.port as nat)
}

pub open spec fn enc_ble_connection_info(m: BluetoothLeConnectionInfoV) -> Seq<u8> {
    enc_bytes_field(TAG1_LEN, m.uuid) + enc_uint_field(TAG2_VAR, m.psm as nat)
}

pub open spec fn enc_device_connection_info(m: DeviceConnectionInfoV) -> Seq<u8> {
    enc_opt_field(
        TAG1_LEN,
        match m.device {
            Some(d) => Some(enc_device(d)),
            None => None,
        },
    ) + enc_opt_field(
        TAG2_LEN,
        match m.tcp {
            Some(t) => Some(enc_tcp_connection_info(t)),
            None => None,
        },
    ) + enc_opt_field(
        TAG3_LEN,
        match m.ble {
            Some(b) => Some(enc_ble_connection_info(b)),
            None => None,
        },
    )
}

pub open spec fn enc_device_discovery_message(m: DeviceDiscoveryMessageV) -> Seq<u8> {
    match m.content {
        Some(DiscoveryContentV::ConnectionInfo(i)) => enc_opt_field(
            TAG1_LEN,
            Some(enc_device_connection_info(i)),
        ),
        Some(DiscoveryContentV::OfflineDeviceId(id)) => enc_opt_field(TAG2_LEN, Some(id)),
        None => Seq::empty(),
    }
}

// ---------------------------------------------------------------------------
// Canonical decodings (exact buffer; reject trailing bytes)
// ---------------------------------------------------------------------------
pub open spec fn dec_encryption_request(s: Seq<u8>) -> Option<EncryptionRequestV> {
    match dec_bytes_field(TAG1_LEN, s) {
        Some(p) => if p.1 == s.len() {
            Some(EncryptionRequestV { public_key: p.0 })
        } else {
            None
        },
        None => None,
    }
}

pub open spec fn dec_encryption_response(s: Seq<u8>) -> Option<EncryptionResponseV> {
    match dec_bytes_field(TAG1_LEN, s) {
        Some(p1) => match dec_bytes_field(TAG2_LEN, s.skip(p1.1 as int)) {
            Some(p2) => if p1.1 + p2.1 == s.len() {
                Some(EncryptionResponseV { public_key: p1.0, iv: p2.0 })
            } else {
                None
            },
            None => None,
        },
        None => None,
    }
}

pub open spec fn dec_device(s: Seq<u8>) -> Option<DeviceV> {
    match dec_bytes_field(TAG1_LEN, s) {
        Some(p1) => match dec_bytes_field(TAG2_LEN, s.skip(p1.1 as int)) {
            Some(p2) => match dec_uint_field(TAG3_VAR, s.skip((p1.1 + p2.1) as int)) {
                Some(p3) => if p1.1 + p2.1 + p3.1 == s.len() {
                    Some(DeviceV { id: p1.0, name: p2.0, device_type: p3.0 as u64 })
                } else {
                    None
                },
                None => None,
            },
            None => None,
        },
        None => None,
    }
}

pub open spec fn dec_file_transfer_intent(s: Seq<u8>) -> Option<FileTransferIntentV> {
    match dec_opt_field(TAG1_LEN, s) {
        Some(p1) => match dec_uint_field(TAG2_VAR, s.skip(p1.1 as int)) {
            Some(p2) => match dec_uint_field(TAG3_VAR, s.skip((p1.1 + p2.1) as int)) {
                Some(p3) => if p1.1 + p2.1 + p3.1 == s.len() {
                    Some(
                        FileTransferIntentV {
                            file_name: p1.0,
                            file_size: p2.0 as u64,
                            file_count: p3.0 as u64,
                        },
                    )
                } else {
                    None
                },
                None => None,
            },
            None => None,
        },
        None => None,
    }
}

pub open spec fn dec_transfer_request(s: Seq<u8>) -> Option<TransferRequestV> {
    match dec_opt_field(TAG1_LEN, s) {
        Some(p1) => {
            let device = match p1.0 {
                Some(inner) => match dec_device(inner) {
                    Some(d) => Some(Some(d)),
                    None => None,
                },
                None => Some(None),
            };
            match device {
                Some(device) => match dec_opt_field(TAG2_LEN, s.skip(p1.1 as int)) {
                    Some(p2) => {
                        let intent = match p2.0 {
                            Some(inner) => match dec_file_transfer_intent(inner) {
                                Some(f) => Some(Some(f)),
                                None => None,
                            },
                            None => Some(None),
                        };
                        match intent {
                            Some(intent) => if p1.1 + p2.1 == s.len() {
                                Some(TransferRequestV { device, intent })
                            } else {
                                None
                            },
                            None => None,
                        }
                    },
                    None => None,
                },
                None => None,
            }
        },
        None => None,
    }
}

pub open spec fn dec_transfer_request_response(s: Seq<u8>) -> Option<TransferRequestResponseV> {
    match dec_uint_field(TAG1_VAR, s) {
        Some(p) => if p.1 == s.len() {
            Some(TransferRequestResponseV { accepted: p.0 != 0 })
        } else {
            None
        },
        None => None,
    }
}

} // verus!

verus! {

// ---------------------------------------------------------------------------
// Round trips: decoding a canonical encoding gives the message back
// ---------------------------------------------------------------------------
pub proof fn lemma_encryption_request_roundtrip(m: EncryptionRequestV)
    ensures
        dec_encryption_request(enc_encryption_request(m)) == Some(m),
{
    let f1 = enc_bytes_field(TAG1_LEN, m.public_key);
    lemma_bytes_field_prefix(TAG1_LEN, m.public_key, Seq::empty());
    assert(f1 + Seq::empty() =~= f1);
}

pub proof fn lemma_encryption_response_roundtrip(m: EncryptionResponseV)
    ensures
        dec_encryption_response(enc_encryption_response(m)) == Some(m),
{
    let f1 = enc_bytes_field(TAG1_LEN, m.public_key);
    let f2 = enc_bytes_field(TAG2_LEN, m.iv);
    let s = enc_encryption_response(m);
    assert(f2.len() > 0 ==> f2[0] == TAG2_LEN);
    lemma_bytes_field_prefix(TAG1_LEN, m.public_key, f2);
    assert(s =~= f1 + f2);
    assert(s.skip(f1.len() as int) =~= f2);
    lemma_bytes_field_prefix(TAG2_LEN, m.iv, Seq::empty());
    assert(f2 + Seq::empty() =~= f2);
}

pub proof fn lemma_device_roundtrip(m: DeviceV)
    ensures
        dec_device(enc_device(m)) == Some(m),
{
    let f1 = enc_bytes_field(TAG1_LEN, m.id);
    let f2 = enc_bytes_field(TAG2_LEN, m.name);
    let f3 = enc_uint_field(TAG3_VAR, m.device_type as nat);
    let s = enc_device(m);
    let rest1 = f2 + f3;
    assert(rest1.len() > 0 ==> rest1[0] != TAG1_LEN) by {
        if f2.len() > 0 {
            assert(rest1[0] == TAG2_LEN);
        } else {
            assert(rest1 =~= f3);
            if f3.len() > 0 {
                assert(rest1[0] == TAG3_VAR);
            }
        }
    }
    lemma_bytes_field_prefix(TAG1_LEN, m.id, rest1);
    assert(s =~= f1 + rest1);
    assert(s.skip(f1.len() as int) =~= rest1);
    assert(f3.len() > 0 ==> f3[0] == TAG3_VAR);
    lemma_bytes_field_prefix(TAG2_LEN, m.name, f3);
    assert(s.skip(f1.len() as int + f2.len() as int) =~= f3);
    lemma_uint_field_prefix(TAG3_VAR, m.device_type as nat, Seq::empty());
    assert(f3 + Seq::empty() =~= f3);
    assert((m.device_type as nat) as u64 == m.device_type);
}

pub proof fn lemma_file_transfer_intent_roundtrip(m: FileTransferIntentV)
    ensures
        dec_file_transfer_intent(enc_file_transfer_intent(m)) == Some(m),
{
    let f1 = enc_opt_field(TAG1_LEN, m.file_name);
    let f2 = enc_uint_field(TAG2_VAR, m.file_size as nat);
    let f3 = enc_uint_field(TAG3_VAR, m.file_count as nat);
    let s = enc_file_transfer_intent(m);
    let rest1 = f2 + f3;
    assert(rest1.len() > 0 ==> rest1[0] != TAG1_LEN) by {
        if f2.len() > 0 {
            assert(rest1[0] == TAG2_VAR);
        } else {
            assert(rest1 =~= f3);
            if f3.len() > 0 {
                assert(rest1[0] == TAG3_VAR);
            }
        }
    }
    lemma_opt_field_prefix(TAG1_LEN, m.file_name, rest1);
    assert(s =~= f1 + rest1);
    assert(s.skip(f1.len() as int) =~= rest1);
    assert(f3.len() > 0 ==> f3[0] == TAG3_VAR);
    lemma_uint_field_prefix(TAG2_VAR, m.file_size as nat, f3);
    assert(s.skip(f1.len() as int + f2.len() as int) =~= f3);
    lemma_uint_field_prefix(TAG3_VAR, m.file_count as nat, Seq::empty());
    assert(f3 + Seq::empty() =~= f3);
    assert((m.file_size as nat) as u64 == m.file_size);
    assert((m.file_count as nat) as u64 == m.file_count);
}

pub proof fn lemma_transfer_request_roundtrip(m: TransferRequestV)
    ensures
        dec_transfer_request(enc_transfer_request(m)) == Some(m),
{
    let d = match m.device {
        Some(d) => Some(enc_device(d)),
        None => None,
    };
    let i = match m.intent {
        Some(i) => Some(enc_file_transfer_intent(i)),
        None => None,
    };
    let f1 = enc_opt_field(TAG1_LEN, d);
    let f2 = enc_opt_field(TAG2_LEN, i);
    let s = enc_transfer_request(m);
    assert(f2.len() > 0 ==> f2[0] == TAG2_LEN);
    lemma_opt_field_prefix(TAG1_LEN, d, f2);
    assert(s =~= f1 + f2);
    assert(s.skip(f1.len() as int) =~= f2);
    lemma_opt_field_prefix(TAG2_LEN, i, Seq::empty());
    assert(f2 + Seq::empty() =~= f2);
    match m.device {
        Some(dv) => lemma_device_roundtrip(dv),
        None => {},
    }
    match m.intent {
        Some(iv) => lemma_file_transfer_intent_roundtrip(iv),
        None => {},
    }
}

pub proof fn lemma_transfer_request_response_roundtrip(m: TransferRequestResponseV)
    ensures
        dec_transfer_request_response(enc_transfer_request_response(m)) == Some(m),
{
    let v: nat = if m.accepted {
        1nat
    } else {
        0nat
    };
    let f1 = enc_uint_field(TAG1_VAR, v);
    lemma_uint_field_prefix(TAG1_VAR, v, Seq::empty());
    assert(f1 + Seq::empty() =~= f1);
}

} // verus!

verus! {

// ---------------------------------------------------------------------------
// Executable encoders
// ---------------------------------------------------------------------------
pub fn encode_encryption_request(m: &EncryptionRequest, out: &mut Vec<u8>)
    ensures
        final(out)@ == old(out)@ + enc_encryption_request(m@),
{
    emit_bytes_field(TAG1_LEN, m.public_key.as_slice(), out);
}

pub fn encode_encryption_response(m: &EncryptionResponse, out: &mut Vec<u8>)
    ensures
        final(out)@ == old(out)@ + enc_encryption_response(m@),
{
    emit_bytes_field(TAG1_LEN, m.public_key.as_slice(), out);
    emit_bytes_field(TAG2_LEN, m.iv.as_slice(), out);
    assert(out@ =~= old(out)@ + enc_encryption_response(m@));
}

pub fn encode_device(m: &Device, out: &mut Vec<u8>)
    ensures
        final(out)@ == old(out)@ + enc_device(m@),
{
    emit_bytes_field(TAG1_LEN, m.id.as_slice(), out);
    emit_bytes_field(TAG2_LEN, m.name.as_slice(), out);
    emit_uint_field(TAG3_VAR, m.device_type, out);
    assert(out@ =~= old(out)@ + enc_device(m@));
}

pub fn encode_file_transfer_intent(m: &FileTransferIntent, out: &mut Vec<u8>)
    ensures
        final(out)@ == old(out)@ + enc_file_transfer_intent(m@),
{
    match &m.file_name {
        Some(n) => {
            emit_block_field(TAG1_LEN, n.as_slice(), out);
        },
        None => {},
    }
    emit_uint_field(TAG2_VAR, m.file_size, out);
    emit_uint_field(TAG3_VAR, m.file_count, out);
    assert(out@ =~= old(out)@ + enc_file_transfer_intent(m@));
}

pub fn encode_transfer_request(m: &TransferRequest, out: &mut Vec<u8>)
    ensures
        final(out)@ == old(out)@ + enc_transfer_request(m@),
{
    match &m.device {
        Some(d) => {
            let mut tmp: Vec<u8> = Vec::new();
            encode_device(d, &mut tmp);
            assert(tmp@ =~= enc_device(d@));
            emit_block_field(TAG1_LEN, tmp.as_slice(), out);
        },
        None => {},
    }
    match &m.intent {
        Some(i) => {
            let mut tmp: Vec<u8> = Vec::new();
            encode_file_transfer_intent(i, &mut tmp);
            assert(tmp@ =~= enc_file_transfer_intent(i@));
            emit_block_field(TAG2_LEN, tmp.as_slice(), out);
        },
        None => {},
    }
    assert(out@ =~= old(out)@ + enc_transfer_request(m@));
}

pub fn encode_transfer_request_response(m: &TransferRequestResponse, out: &mut Vec<u8>)
    ensures
        final(out)@ == old(out)@ + enc_transfer_request_response(m@),
{
    emit_uint_field(
        TAG1_VAR,
        if m.accepted {
            1
        } else {
            0
        },
        out,
    );
}

pub fn encode_tcp_connection_info(m: &TcpConnectionInfo, out: &mut Vec<u8>)
    ensures
        final(out)@ == old(out)@ + enc_tcp_connection_info(m@),
{
    emit_bytes_field(TAG1_LEN, m.hostname.as_slice(), out);
    emit_uint_field(TAG2_VAR, m.port as u64, out);
    assert(out@ =~= old(out)@ + enc_tcp_connection_info(m@));
}

pub fn encode_ble_connection_info(m: &BluetoothLeConnectionInfo, out: &mut Vec<u8>)
    ensures
        final(out)@ == old(out)@ + enc_ble_connection_info(m@),
{
    emit_bytes_field(TAG1_LEN, m.uuid.as_slice(), out);
    emit_uint_field(TAG2_VAR, m.psm as u64, out);
    assert(out@ =~= old(out)@ + enc_ble_connection_info(m@));
}

pub fn encode_device_connection_info(m: &DeviceConnectionInfo, out: &mut Vec<u8>)
    ensures
        final(out)@ == old(out)@ + enc_device_connection_info(m@),
{
    match &m.device {
        Some(d) => {
            let mut tmp: Vec<u8> = Vec::new();
            encode_device(d, &mut tmp);
            assert(tmp@ =~= enc_device(d@));
            emit_block_field(TAG1_LEN, tmp.as_slice(), out);
        },
        None => {},
    }
    match &m.tcp {
        Some(t) => {
            let mut tmp: Vec<u8> = Vec::new();
            encode_tcp_connection_info(t, &mut tmp);
            assert(tmp@ =~= enc_tcp_connection_info(t@));
            emit_block_field(TAG2_LEN, tmp.as_slice(), out);
        },
        None => {},
    }
    match &m.ble {
        Some(b) => {
            let mut tmp: Vec<u8> = Vec::new();
            encode_ble_connection_info(b, &mut tmp);
            assert(tmp@ =~= enc_ble_connection_info(b@));
            emit_block_field(TAG3_LEN, tmp.as_slice(), out);
        },
        None => {},
    }
    assert(out@ =~= old(out)@ + enc_device_connection_info(m@));
}

pub fn encode_device_discovery_message(m: &DeviceDiscoveryMessage, out: &mut Vec<u8>)
    ensures
        final(out)@ == old(out)@ + enc_device_discovery_message(m@),
{
    match &m.content {
        Some(DiscoveryContent::ConnectionInfo(i)) => {
            let mut tmp: Vec<u8> = Vec::new();
            encode_device_connection_info(i, &mut tmp);
            assert(tmp@ =~= enc_device_connection_info(i@));
            emit_block_field(TAG1_LEN, tmp.as_slice(), out);
        },
        Some(DiscoveryContent::OfflineDeviceId(id)) => {
            emit_block_field(TAG2_LEN, id.as_slice(), out);
        },
        None => {},
    }
    assert(out@ =~= old(out)@ + enc_device_discovery_message(m@));
}

// ---------------------------------------------------------------------------
// Executable decoders
// ---------------------------------------------------------------------------
pub fn decode_encryption_request(s: &[u8]) -> (r: Option<EncryptionRequest>)
    ensures
        match r {
            Some(m) => dec_encryption_request(s@) == Some(m@),
            None => dec_encryption_request(s@) is None,
        },
{
    proof {
        assert(s@.skip(0) =~= s@);
    }
    match read_bytes_field(TAG1_LEN, s, 0) {
        None => None,
        Some((public_key, u1)) => {
            if u1 == s.len() {
                Some(EncryptionRequest { public_key })
            } else {
                None
            }
        },
    }
}

pub fn decode_encryption_response(s: &[u8]) -> (r: Option<EncryptionResponse>)
    ensures
        match r {
            Some(m) => dec_encryption_response(s@) == Some(m@),
            None => dec_encryption_response(s@) is None,
        },
{
    proof {
        assert(s@.skip(0) =~= s@);
    }
    match read_bytes_field(TAG1_LEN, s, 0) {
        None => None,
        Some((public_key, u1)) => match read_bytes_field(TAG2_LEN, s, u1) {
            None => None,
            Some((iv, u2)) => {
                if u1 + u2 == s.len() {
                    Some(EncryptionResponse { public_key, iv })
                } else {
                    None
                }
            },
        },
    }
}

pub fn decode_device(s: &[u8]) -> (r: Option<Device>)
    ensures
        match r {
            Some(m) => dec_device(s@) == Some(m@),
            None => dec_device(s@) is None,
        },
{
    proof {
        assert(s@.skip(0) =~= s@);
    }
    match read_bytes_field(TAG1_LEN, s, 0) {
        None => None,
        Some((id, u1)) => match read_bytes_field(TAG2_LEN, s, u1) {
            None => None,
            Some((name, u2)) => match read_uint_field(TAG3_VAR, s, u1 + u2) {
                None => None,
                Some((device_type, u3)) => {
                    if u1 + u2 + u3 == s.len() {
                        Some(Device { id, name, device_type })
                    } else {
                        None
                    }
                },
            },
        },
    }
}

pub fn decode_file_transfer_intent(s: &[u8]) -> (r: Option<FileTransferIntent>)
    ensures
        match r {
            Some(m) => dec_file_transfer_intent(s@) == Some(m@),
            None => dec_file_transfer_intent(s@) is None,
        },
{
    proof {
        assert(s@.skip(0) =~= s@);
    }
    match read_opt_field(TAG1_LEN, s, 0) {
        None => None,
        Some((file_name, u1)) => match read_uint_field(TAG2_VAR, s, u1) {
            None => None,
            Some((file_size, u2)) => match read_uint_field(TAG3_VAR, s, u1 + u2) {
                None => None,
                Some((file_count, u3)) => {
                    if u1 + u2 + u3 == s.len() {
                        Some(FileTransferIntent { file_name, file_size, file_count })
                    } else {
                        None
                    }
                },
            },
        },
    }
}

pub fn decode_transfer_request(s: &[u8]) -> (r: Option<TransferRequest>)
    ensures
        match r {
            Some(m) => dec_transfer_request(s@) == Some(m@),
            None => dec_transfer_request(s@) is None,
        },
{
    proof {
        assert(s@.skip(0) =~= s@);
    }
    match read_opt_field(TAG1_LEN, s, 0) {
        None => None,
        Some((devopt, u1)) => {
            let device = match devopt {
                Some(inner) => match decode_device(inner.as_slice()) {
                    Some(d) => Some(d),
                    None => {
                        return None;
                    },
                },
                None => None,
            };
            match read_opt_field(TAG2_LEN, s, u1) {
                None => None,
                Some((intopt, u2)) => {
                    let intent = match intopt {
                        Some(inner) => match decode_file_transfer_intent(inner.as_slice()) {
                            Some(i) => Some(i),
                            None => {
                                return None;
                            },
                        },
                        None => None,
                    };
                    if u1 + u2 == s.len() {
                        Some(TransferRequest { device, intent })
                    } else {
                        None
                    }
                },
            }
        },
    }
}

pub fn decode_transfer_request_response(s: &[u8]) -> (r: Option<TransferRequestResponse>)
    ensures
        match r {
            Some(m) => dec_transfer_request_response(s@) == Some(m@),
            None => dec_transfer_request_response(s@) is None,
        },
{
    proof {
        assert(s@.skip(0) =~= s@);
    }
    match read_uint_field(TAG1_VAR, s, 0) {
        None => None,
        Some((v, u1)) => {
            if u1 == s.len() {
                Some(TransferRequestResponse { accepted: v != 0 })
            } else {
                None
            }
        },
    }
}

} // verus!
