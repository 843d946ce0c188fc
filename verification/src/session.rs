//! The transfer session state machines.
//!
//! A session runner drives one connection in either direction. The sender
//! walks `Connecting → Handshaking → Requesting → AwaitingAcceptance →
//! Transferring` into one terminal state, appending progress events as it
//! goes; the receiver walks `AwaitingRequest → AwaitingDecision → Receiving`
//! into `Done`. The I/O between the steps lives outside; every decision and
//! every book-keeping rule lives here.
use vstd::prelude::*;

use crate::cipher::chunk_seq;
use crate::errors::IncomingErrors;
use crate::messages::{
    dec_transfer_request, decode_transfer_request, enc_transfer_request,
    enc_transfer_request_response, encode_transfer_request, encode_transfer_request_response,
    TransferRequest, TransferRequestResponse,
};
use crate::wire::{frame_payload, lendelim_enc};

verus! {

/// The medium a connection ended up on.
#[derive(Debug, PartialEq, Eq, Structural)]
pub enum ConnectionMedium {
    BLE,
    WiFi,
}

/// What a connection intends to deliver.
#[derive(Debug, PartialEq, Eq, Structural)]
pub enum ConnectionIntentType {
    FileTransfer,
    Clipboard,
}

/// Progress reported to the sending application. The transfer ratio is
/// carried as written and total byte counts; a host turns them into a
/// fraction.
#[derive(Debug, PartialEq, Eq, Structural)]
pub enum SendProgressState {
    Unknown,
    Connecting,
    Requesting,
    ConnectionMediumUpdate { medium: ConnectionMedium },
    Compressing,
    Transferring { bytes_written: u64, bytes_total: u64 },
    Cancelled,
    Finished,
    Declined,
}

/// Observer of sender progress, implemented by the embedding application.
pub trait SendProgressDelegate {
    fn progress_changed(&self, progress: SendProgressState);
}

/// States of the sender path.
#[derive(Debug, PartialEq, Eq, Structural)]
pub enum SenderState {
    Connecting,
    Handshaking,
    Requesting,
    AwaitingAcceptance,
    Transferring,
    Finished,
    Declined,
    Cancelled,
    Failed,
}

/// One outgoing transfer: its state, the progress events emitted so far (in
/// order), the advertised payload size and the bulk bytes written.
pub struct SenderSession {
    pub state: SenderState,
    pub progress: Vec<SendProgressState>,
    pub file_size: u64,
    pub bytes_written: u64,
}

impl SenderSession {
    /// Begin an outgoing transfer: the first progress event is `Connecting`.
    pub fn new() -> (r: Self)
        ensures
            r.state is Connecting,
            r.progress@ =~= seq![SendProgressState::Connecting],
            r.file_size == 0,
            r.bytes_written == 0,
    {
        let mut progress: Vec<SendProgressState> = Vec::new();
        progress.push(SendProgressState::Connecting);
        SenderSession { state: SenderState::Connecting, progress, file_size: 0, bytes_written: 0 }
    }

    /// A raw stream was obtained; the handshake begins.
    pub fn on_dialed(&mut self)
        requires
            old(self).state is Connecting,
        ensures
            final(self).state is Handshaking,
            final(self).progress == old(self).progress,
            final(self).file_size == old(self).file_size,
            final(self).bytes_written == old(self).bytes_written,
    {
        self.state = SenderState::Handshaking;
    }

    /// Connecting or the handshake failed: the run ends with `Unknown`.
    pub fn on_connect_failed(&mut self)
        requires
            old(self).state is Connecting || old(self).state is Handshaking,
        ensures
            final(self).state is Failed,
            final(self).progress@ == old(self).progress@.push(SendProgressState::Unknown),
            final(self).file_size == old(self).file_size,
            final(self).bytes_written == old(self).bytes_written,
    {
        self.state = SenderState::Failed;
        self.progress.push(SendProgressState::Unknown);
    }

    /// The stream is encrypted: report which medium carried the connection.
    pub fn on_encrypted(&mut self, medium: ConnectionMedium)
        requires
            old(self).state is Handshaking,
        ensures
            final(self).state is Requesting,
            final(self).progress@ == old(self).progress@.push(
                SendProgressState::ConnectionMediumUpdate { medium },
            ),
            final(self).file_size == old(self).file_size,
            final(self).bytes_written == old(self).bytes_written,
    {
        self.state = SenderState::Requesting;
        self.progress.push(SendProgressState::ConnectionMediumUpdate { medium });
    }

    /// The archive build starts.
    pub fn on_compressing(&mut self)
        requires
            old(self).state is Requesting,
        ensures
            final(self).state is Requesting,
            final(self).progress@ == old(self).progress@.push(SendProgressState::Compressing),
            final(self).file_size == old(self).file_size,
            final(self).bytes_written == old(self).bytes_written,
    {
        self.progress.push(SendProgressState::Compressing);
    }

    /// The `TransferRequest` was sent with `file_size` bulk bytes announced.
    pub fn on_request_sent(&mut self, file_size: u64)
        requires
            old(self).state is Requesting,
        ensures
            final(self).state is AwaitingAcceptance,
            final(self).progress@ == old(self).progress@.push(SendProgressState::Requesting),
            final(self).file_size == file_size,
            final(self).bytes_written == old(self).bytes_written,
    {
        self.state = SenderState::AwaitingAcceptance;
        self.file_size = file_size;
        self.progress.push(SendProgressState::Requesting);
    }

    /// No response arrived: the run fails, and — as with a connect failure —
    /// the terminal progress event is `Unknown`, so an observer always sees
    /// one terminal event per run.
    pub fn on_response_error(&mut self)
        requires
            old(self).state is AwaitingAcceptance,
        ensures
            final(self).state is Failed,
            final(self).progress@ == old(self).progress@.push(SendProgressState::Unknown),
            final(self).file_size == old(self).file_size,
            final(self).bytes_written == old(self).bytes_written,
    {
        self.state = SenderState::Failed;
        self.progress.push(SendProgressState::Unknown);
    }

    /// The peer declined: the run ends with `Declined`.
    pub fn on_declined(&mut self)
        requires
            old(self).state is AwaitingAcceptance,
        ensures
            final(self).state is Declined,
            final(self).progress@ == old(self).progress@.push(SendProgressState::Declined),
            final(self).file_size == old(self).file_size,
            final(self).bytes_written == old(self).bytes_written,
    {
        self.state = SenderState::Declined;
        self.progress.push(SendProgressState::Declined);
    }

    /// The peer accepted: bulk transfer begins at zero bytes written.
    pub fn on_accepted(&mut self)
        requires
            old(self).state is AwaitingAcceptance,
        ensures
            final(self).state is Transferring,
            final(self).bytes_written == 0,
            final(self).progress@ == old(self).progress@.push(
                SendProgressState::Transferring {
                    bytes_written: 0,
                    bytes_total: old(self).file_size,
                },
            ),
            final(self).file_size == old(self).file_size,
    {
        self.state = SenderState::Transferring;
        self.bytes_written = 0;
        self.progress.push(
            SendProgressState::Transferring { bytes_written: 0, bytes_total: self.file_size },
        );
    }

    /// `n` more bulk bytes went out.
    pub fn on_chunk_written(&mut self, n: u64)
        requires
            old(self).state is Transferring,
            old(self).bytes_written + n <= u64::MAX,
        ensures
            final(self).state is Transferring,
            final(self).bytes_written == old(self).bytes_written + n,
            final(self).progress@ == old(self).progress@.push(
                SendProgressState::Transferring {
                    bytes_written: (old(self).bytes_written + n) as u64,
                    bytes_total: old(self).file_size,
                },
            ),
            final(self).file_size == old(self).file_size,
    {
        self.bytes_written = self.bytes_written + n;
        self.progress.push(
            SendProgressState::Transferring {
                bytes_written: self.bytes_written,
                bytes_total: self.file_size,
            },
        );
    }

    /// The archive is exhausted. The run finished exactly when every
    /// announced byte went out; a short count means the transfer was cut.
    pub fn on_transfer_complete(&mut self)
        requires
            old(self).state is Transferring,
        ensures
            final(self).file_size == old(self).file_size,
            final(self).bytes_written == old(self).bytes_written,
            old(self).bytes_written == old(self).file_size ==> final(self).state is Finished
                && final(self).progress@ == old(self).progress@.push(SendProgressState::Finished),
            old(self).bytes_written != old(self).file_size ==> final(self).state is Cancelled
                && final(self).progress@ == old(self).progress@.push(
                SendProgressState::Cancelled,
            ),
    {
        if self.bytes_written == self.file_size {
            self.state = SenderState::Finished;
            self.progress.push(SendProgressState::Finished);
        } else {
            self.state = SenderState::Cancelled;
            self.progress.push(SendProgressState::Cancelled);
        }
    }

    /// A write failed mid-transfer: the stream is broken and the run is cut.
    pub fn on_transfer_error(&mut self)
        requires
            old(self).state is Transferring,
        ensures
            final(self).state is Cancelled,
            final(self).progress@ == old(self).progress@.push(SendProgressState::Cancelled),
            final(self).file_size == old(self).file_size,
            final(self).bytes_written == old(self).bytes_written,
    {
        self.state = SenderState::Cancelled;
        self.progress.push(SendProgressState::Cancelled);
    }
}

/// Exactly the announced number of bulk bytes crosses the wire on a
/// successful run: the chunks of a payload of `file_size` bytes carry, all
/// together, exactly `file_size` plaintext bytes; what the receiver opens
/// from the sealed run concatenates to exactly the payload; and the sender
/// ends `Finished` only when it wrote that many.
pub proof fn lemma_bulk_bytes_exact(key: Seq<u8>, iv: Seq<u8>, c0: u64, data: Seq<u8>)
    requires
        c0 + chunk_seq(data).len() <= u64::MAX,
    ensures
        chunk_seq(data).flatten().len() == data.len(),
        crate::cipher::aead_facts() ==> match crate::cipher::open_all(
            key,
            iv,
            c0,
            crate::cipher::sealed_chunks(key, iv, c0, chunk_seq(data)),
        ) {
            Some(chunks) => chunks.flatten() == data && chunks.flatten().len() == data.len(),
            None => false,
        },
{
    crate::cipher::lemma_payload_roundtrip(key, iv, c0, data);
}

} // verus!

verus! {

/// Receiver-side handle the embedding application decides on: the parsed
/// request and the destination directory it would be unpacked under.
pub struct ConnectionRequest {
    pub transfer_request: TransferRequest,
    pub file_storage: Vec<u8>,
}

impl ConnectionRequest {
    pub fn new(transfer_request: TransferRequest, file_storage: Vec<u8>) -> (r: Self)
        ensures
            r.transfer_request@ == transfer_request@,
            r.file_storage@ == file_storage@,
    {
        ConnectionRequest { transfer_request, file_storage }
    }
}

/// States of the receiver path.
#[derive(Debug, PartialEq, Eq, Structural)]
pub enum ReceiverState {
    AwaitingRequest,
    AwaitingDecision,
    Receiving,
    Done,
    Rejected,
    Failed,
}

/// One incoming transfer: its state, the announced payload size and the bulk
/// bytes received so far.
pub struct ReceiverSession {
    pub state: ReceiverState,
    pub file_size: u64,
    pub received: Vec<u8>,
}

impl ReceiverSession {
    pub fn new() -> (r: Self)
        ensures
            r.state is AwaitingRequest,
            r.file_size == 0,
            r.received@ =~= Seq::<u8>::empty(),
    {
        ReceiverSession { state: ReceiverState::AwaitingRequest, file_size: 0, received: Vec::new() }
    }

    /// Parse the first post-handshake frame. Exactly one `TransferRequest`
    /// with a transfer intent moves the session on; anything else fails it.
    pub fn on_request_payload(&mut self, payload: &[u8]) -> (r: Result<
        TransferRequest,
        IncomingErrors,
    >)
        requires
            old(self).state is AwaitingRequest,
        ensures
            final(self).received == old(self).received,
            match r {
                Ok(m) => {
                    &&& dec_transfer_request(payload@) == Some(m@)
                    &&& m@.intent matches Some(i) && final(self).file_size == i.file_size
                    &&& final(self).state is AwaitingDecision
                },
                Err(e) => {
                    &&& e is UnknownReadError
                    &&& final(self).state is Failed
                    &&& dec_transfer_request(payload@) is None || (dec_transfer_request(payload@)
                        matches Some(m) && m.intent is None)
                },
            },
    {
        match decode_transfer_request(payload) {
            None => {
                self.state = ReceiverState::Failed;
                Err(IncomingErrors::UnknownReadError)
            },
            Some(m) => {
                match &m.intent {
                    None => {
                        self.state = ReceiverState::Failed;
                        Err(IncomingErrors::UnknownReadError)
                    },
                    Some(i) => {
                        self.file_size = i.file_size;
                        self.state = ReceiverState::AwaitingDecision;
                        Ok(m)
                    },
                }
            },
        }
    }

    /// Answer the request: the codec-framed `TransferRequestResponse` to send
    /// back (sealed by the caller), and the session moves to `Receiving` on
    /// acceptance, `Rejected` otherwise.
    pub fn decide(&mut self, accepted: bool) -> (r: Vec<u8>)
        requires
            old(self).state is AwaitingDecision,
        ensures
            r@ == lendelim_enc(
                enc_transfer_request_response(
                    crate::messages::TransferRequestResponseV { accepted },
                ),
            ),
            accepted ==> final(self).state is Receiving,
            !accepted ==> final(self).state is Rejected,
            final(self).file_size == old(self).file_size,
            final(self).received == old(self).received,
    {
        let response = TransferRequestResponse { accepted };
        let mut payload: Vec<u8> = Vec::new();
        encode_transfer_request_response(&response, &mut payload);
        if accepted {
            self.state = ReceiverState::Receiving;
        } else {
            self.state = ReceiverState::Rejected;
        }
        frame_payload(&payload)
    }

    /// Take in one opened bulk chunk. The receiver stops at `file_size`:
    /// bytes beyond it are not taken, and the session is `Done` exactly when
    /// every announced byte has arrived.
    pub fn on_data(&mut self, chunk: &[u8]) -> (done: bool)
        requires
            old(self).state is Receiving,
            old(self).received@.len() <= old(self).file_size,
        ensures
            final(self).file_size == old(self).file_size,
            final(self).received@ == old(self).received@ + chunk@.take(
                if chunk@.len() <= old(self).file_size - old(self).received@.len() {
                    chunk@.len() as int
                } else {
                    old(self).file_size - old(self).received@.len()
                },
            ),
            final(self).received@.len() <= final(self).file_size,
            done <==> final(self).received@.len() == final(self).file_size,
            done ==> final(self).state is Done,
            !done ==> final(self).state is Receiving,
    {
        let remaining = self.file_size - self.received.len() as u64;
        let take: usize = if chunk.len() as u64 <= remaining {
            chunk.len()
        } else {
            remaining as usize
        };
        let part = vstd::slice::slice_subrange(chunk, 0, take);
        crate::messages::append_bytes(&mut self.received, part);
        if self.received.len() as u64 == self.file_size {
            self.state = ReceiverState::Done;
            true
        } else {
            false
        }
    }
}

} // verus!

verus! {

/// The basename a node carries.
pub open spec fn node_name(n: crate::archive::PathNode) -> Seq<u8> {
    match n {
        crate::archive::PathNode::File { name, .. } => name@,
        crate::archive::PathNode::Dir { name, .. } => name@,
    }
}

/// The `file_name` a `TransferRequest` carries: the normalized basename of
/// the single selected path — file or directory alike — and nothing when
/// several paths are selected.
pub fn file_name_for(paths: &Vec<crate::archive::PathNode>) -> (r: Option<Vec<u8>>)
    ensures
        paths@.len() == 1 ==> (r matches Some(n) && n@ == crate::archive::norm(
            node_name(paths@[0]),
        )),
        paths@.len() != 1 ==> r is None,
{
    if paths.len() == 1 {
        match &paths[0] {
            crate::archive::PathNode::File { name, .. } => Some(
                crate::archive::norm_name(name.as_slice()),
            ),
            crate::archive::PathNode::Dir { name, .. } => Some(
                crate::archive::norm_name(name.as_slice()),
            ),
        }
    } else {
        None
    }
}

/// Build the `TransferRequest` announcing a file transfer of `file_count`
/// paths compressed into `file_size` archive bytes.
pub fn make_transfer_request(
    device: Option<crate::messages::Device>,
    file_name: Option<Vec<u8>>,
    file_size: u64,
    file_count: u64,
) -> (r: TransferRequest)
    ensures
        r.device == device,
        r.intent matches Some(i) && i.file_name == file_name && i.file_size == file_size
            && i.file_count == file_count,
{
    TransferRequest {
        device,
        intent: Some(crate::messages::FileTransferIntent { file_name, file_size, file_count }),
    }
}

/// The codec frame carrying a `TransferRequest` (sealed by the caller before
/// it goes out).
pub fn transfer_request_frame(m: &TransferRequest) -> (r: Vec<u8>)
    ensures
        r@ == lendelim_enc(enc_transfer_request(m@)),
{
    let mut payload: Vec<u8> = Vec::new();
    encode_transfer_request(m, &mut payload);
    frame_payload(&payload)
}

} // verus!
