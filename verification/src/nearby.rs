//! The server orchestrator: lifecycle of the listeners, the advertise flag,
//! delegate registration, the device's own connection details, and the
//! pending L2CAP attempts keyed by fresh connection identifiers.
//!
//! The orchestrator holds the plain state and the platform delegates;
//! listeners and sockets live with the embedding application, which mirrors
//! its decisions through the flags here.
use vstd::prelude::*;

use crate::connect::clone_bytes;
use crate::errors::ConnectErrors;
use crate::messages::{
    enc_device_connection_info, enc_device_discovery_message, encode_device_connection_info,
    emit_block_field, Device, DeviceConnectionInfo, DeviceDiscoveryMessageV, DiscoveryContentV,
    TcpConnectionInfo, BluetoothLeConnectionInfo, TAG1_LEN,
};
use crate::session::ConnectionRequest;
use crate::wire::{frame_payload, lendelim_enc};

verus! {

/// Platform GATT advertiser, implemented by the embedding application.
pub trait BleServerImplementationDelegate {
    fn start_server(&self);

    fn stop_server(&self);
}

/// Platform L2CAP opener, implemented by the embedding application. The
/// platform later hands the established stream back under `connection_id`.
pub trait L2CapDelegate {
    fn open_l2cap_connection(&self, connection_id: Vec<u8>, peripheral_uuid: Vec<u8>, psm: u32);
}

/// Receiver of incoming connection requests, implemented by the embedding
/// application.
pub trait NearbyConnectionDelegate {
    fn received_connection_request(&self, request: ConnectionRequest);
}

/// Relies on uuid::Uuid::new_v4 and its Display form: a fresh random
/// identifier in the 36-character hyphenated form. Nothing is promised of its
/// value.
#[verifier::external_body]
fn fresh_connection_id() -> (r: Vec<u8>)
    ensures
        r@.len() == 36,
{
    uuid::Uuid::new_v4().to_string().into_bytes()
}

/// Are two byte vectors equal?
pub fn bytes_equal(a: &Vec<u8>, b: &Vec<u8>) -> (r: bool)
    ensures
        r <==> a@ == b@,
{
    if a.len() != b.len() {
        return false;
    }
    let mut j: usize = 0;
    while j < a.len()
        invariant
            j <= a.len(),
            a@.len() == b@.len(),
            forall|k: int| 0 <= k < j ==> a@[k] == b@[k],
        decreases a.len() - j,
    {
        if a[j] != b[j] {
            return false;
        }
        j = j + 1;
    }
    assert(a@ =~= b@);
    true
}

/// The orchestrator's state. The platform delegates are held here and
/// called at the points the lifecycle asks for; what they do inside is
/// theirs.
pub struct NearbyServer {
    pub device_connection_info: DeviceConnectionInfo,
    pub advertise: bool,
    pub has_tcp_server: bool,
    pub ble_server_implementation: Option<Box<dyn BleServerImplementationDelegate>>,
    pub ble_l2_cap_client: Option<Box<dyn L2CapDelegate>>,
    pub has_delegate: bool,
    pub file_storage: Vec<u8>,
    pub pending_l2cap: Vec<Vec<u8>>,
}

/// The identifiers of the L2CAP attempts currently in flight.
pub open spec fn pending_ids(s: NearbyServer) -> Seq<Seq<u8>> {
    s.pending_l2cap@.map_values(|v: Vec<u8>| v@)
}

/// Attempts are uniquely keyed: no identifier is pending twice. Established
/// by a fresh orchestrator and preserved by every method that touches the
/// pending list.
pub open spec fn pending_wf(s: NearbyServer) -> bool {
    forall|i: int, j: int|
        #![trigger pending_ids(s)[i], pending_ids(s)[j]]
        0 <= i < j < pending_ids(s).len() ==> pending_ids(s)[i] != pending_ids(s)[j]
}

/// What `stop` does: advertising off, listener slot cleared, everything else
/// untouched.
pub open spec fn spec_stop(s: NearbyServer) -> NearbyServer {
    NearbyServer { advertise: false, has_tcp_server: false, ..s }
}

impl NearbyServer {
    /// A fresh orchestrator: not advertising, no listener, no delegates
    /// registered, no L2CAP attempt in flight.
    pub fn new(my_device: Device, file_storage: Vec<u8>, has_delegate: bool) -> (r: Self)
        ensures
            r.device_connection_info.device == Some(my_device),
            r.device_connection_info.tcp is None,
            r.device_connection_info.ble is None,
            !r.advertise,
            !r.has_tcp_server,
            r.ble_server_implementation is None,
            r.ble_l2_cap_client is None,
            r.has_delegate == has_delegate,
            r.file_storage@ == file_storage@,
            pending_ids(r) =~= Seq::<Seq<u8>>::empty(),
            pending_wf(r),
    {
        NearbyServer {
            device_connection_info: DeviceConnectionInfo {
                device: Some(my_device),
                tcp: None,
                ble: None,
            },
            advertise: false,
            has_tcp_server: false,
            ble_server_implementation: None,
            ble_l2_cap_client: None,
            has_delegate,
            file_storage,
            pending_l2cap: Vec::new(),
        }
    }

    /// Register the platform L2CAP opener.
    pub fn add_l2_cap_client(&mut self, delegate: Box<dyn L2CapDelegate>)
        ensures
            *final(self) == (NearbyServer { ble_l2_cap_client: Some(delegate), ..*old(self) }),
    {
        self.ble_l2_cap_client = Some(delegate);
    }

    /// Register the platform GATT advertiser.
    pub fn add_bluetooth_implementation(
        &mut self,
        implementation: Box<dyn BleServerImplementationDelegate>,
    )
        ensures
            *final(self) == (NearbyServer {
                ble_server_implementation: Some(implementation),
                ..*old(self)
            }),
    {
        self.ble_server_implementation = Some(implementation);
    }

    /// Replace the device this server advertises as.
    pub fn change_device(&mut self, new_device: Device)
        ensures
            *final(self) == (NearbyServer {
                device_connection_info: DeviceConnectionInfo {
                    device: Some(new_device),
                    ..old(self).device_connection_info
                },
                ..*old(self)
            }),
    {
        self.device_connection_info.device = Some(new_device);
    }

    /// Set the BLE reachability details advertised for this device.
    pub fn set_bluetooth_le_details(&mut self, ble_info: BluetoothLeConnectionInfo)
        ensures
            *final(self) == (NearbyServer {
                device_connection_info: DeviceConnectionInfo {
                    ble: Some(ble_info),
                    ..old(self).device_connection_info
                },
                ..*old(self)
            }),
    {
        self.device_connection_info.ble = Some(ble_info);
    }

    /// Set the TCP reachability details advertised for this device.
    pub fn set_tcp_details(&mut self, tcp_info: TcpConnectionInfo)
        ensures
            *final(self) == (NearbyServer {
                device_connection_info: DeviceConnectionInfo {
                    tcp: Some(tcp_info),
                    ..old(self).device_connection_info
                },
                ..*old(self)
            }),
    {
        self.device_connection_info.tcp = Some(tcp_info);
    }

    /// Start serving: advertising goes on; when the caller just created the
    /// TCP listener, its reachability details are recorded.
    pub fn start(&mut self, created_tcp: Option<TcpConnectionInfo>)
        ensures
            final(self).advertise,
            match created_tcp {
                Some(t) => {
                    &&& final(self).device_connection_info.tcp == Some(t)
                    &&& final(self).has_tcp_server
                    &&& final(self).device_connection_info.device == old(
                        self,
                    ).device_connection_info.device
                    &&& final(self).device_connection_info.ble == old(
                        self,
                    ).device_connection_info.ble
                },
                None => {
                    &&& final(self).device_connection_info == old(self).device_connection_info
                    &&& final(self).has_tcp_server == old(self).has_tcp_server
                },
            },
            final(self).ble_server_implementation == old(self).ble_server_implementation,
            final(self).ble_l2_cap_client == old(self).ble_l2_cap_client,
            final(self).has_delegate == old(self).has_delegate,
            final(self).file_storage == old(self).file_storage,
            final(self).pending_l2cap == old(self).pending_l2cap,
    {
        match created_tcp {
            Some(t) => {
                self.device_connection_info.tcp = Some(t);
                self.has_tcp_server = true;
            },
            None => {},
        }
        self.advertise = true;
        match &self.ble_server_implementation {
            Some(ble) => ble.start_server(),
            None => {},
        }
    }

    /// Stop serving: advertising off, listener slot cleared.
    pub fn stop(&mut self)
        ensures
            *final(self) == spec_stop(*old(self)),
    {
        self.advertise = false;
        self.has_tcp_server = false;
        match &self.ble_server_implementation {
            Some(ble) => ble.stop_server(),
            None => {},
        }
    }

    /// The codec-framed discovery advertisement: the device's connection
    /// details while advertising, empty otherwise.
    pub fn get_advertisement_data(&self) -> (r: Vec<u8>)
        ensures
            self.advertise ==> r@ == lendelim_enc(
                enc_device_discovery_message(
                    DeviceDiscoveryMessageV {
                        content: Some(
                            DiscoveryContentV::ConnectionInfo(self.device_connection_info@),
                        ),
                    },
                ),
            ),
            !self.advertise ==> r@ == Seq::<u8>::empty(),
    {
        if !self.advertise {
            return Vec::new();
        }
        let mut inner: Vec<u8> = Vec::new();
        encode_device_connection_info(&self.device_connection_info, &mut inner);
        let mut payload: Vec<u8> = Vec::new();
        emit_block_field(TAG1_LEN, inner.as_slice(), &mut payload);
        proof {
            assert(inner@ =~= enc_device_connection_info(self.device_connection_info@));
            assert(payload@ =~= enc_device_discovery_message(
                DeviceDiscoveryMessageV {
                    content: Some(DiscoveryContentV::ConnectionInfo(self.device_connection_info@)),
                },
            ));
        }
        frame_payload(&payload)
    }

    /// The name of the device this server advertises as.
    pub fn get_device_name(&self) -> (r: Option<Vec<u8>>)
        ensures
            match self.device_connection_info.device {
                Some(d) => r matches Some(n) && n@ == d.name@,
                None => r is None,
            },
    {
        match &self.device_connection_info.device {
            Some(d) => Some(clone_bytes(&d.name)),
            None => None,
        }
    }

    /// Register a fresh outgoing L2CAP attempt: a new identifier is drawn and
    /// recorded as pending until the platform delivers or fails the stream.
    /// Should the random identifier collide with one already pending, the
    /// stale entry is replaced, as an insert into the original's map would
    /// replace it — so attempts stay uniquely keyed.
    pub fn begin_l2cap_attempt(&mut self) -> (id: Vec<u8>)
        requires
            pending_wf(*old(self)),
        ensures
            pending_wf(*final(self)),
            id@.len() == 36,
            pending_ids(*final(self)).contains(id@),
            !pending_ids(*old(self)).contains(id@) ==> pending_ids(*final(self)) == pending_ids(
                *old(self),
            ).push(id@),
            final(self).advertise == old(self).advertise,
            final(self).device_connection_info == old(self).device_connection_info,
            final(self).has_tcp_server == old(self).has_tcp_server,
            final(self).has_delegate == old(self).has_delegate,
            final(self).file_storage == old(self).file_storage,
    {
        let id = fresh_connection_id();
        self.handle_incoming_ble_connection(&id);
        let ghost cleared = pending_ids(*self);
        let copy = clone_bytes(&id);
        self.pending_l2cap.push(copy);
        proof {
            assert(pending_ids(*self) =~= cleared.push(id@));
            assert(pending_ids(*self)[cleared.len() as int] == id@);
            assert forall|i: int, j: int|
                0 <= i < j < pending_ids(*self).len() implies pending_ids(*self)[i]
                != pending_ids(*self)[j] by {
                if j < cleared.len() {
                    assert(pending_ids(*self)[i] == cleared[i]);
                    assert(pending_ids(*self)[j] == cleared[j]);
                } else {
                    assert(pending_ids(*self)[i] == cleared[i]);
                    assert(!cleared.contains(id@));
                }
            }
        }
        id
    }

    /// Ask the platform to open an L2CAP channel to a peer: a fresh
    /// connection identifier is registered as pending and handed, with the
    /// peer's BLE address, to the L2CAP delegate. Without a registered
    /// delegate nothing changes and the error says so.
    pub fn open_ble_connection(&mut self, peer_ble_uuid: &Vec<u8>, psm: u32) -> (r: Result<
        Vec<u8>,
        ConnectErrors,
    >)
        requires
            pending_wf(*old(self)),
        ensures
            pending_wf(*final(self)),
            match r {
                Ok(id) => {
                    &&& old(self).ble_l2_cap_client is Some
                    &&& pending_ids(*final(self)).contains(id@)
                    &&& (!pending_ids(*old(self)).contains(id@) ==> pending_ids(*final(self))
                        == pending_ids(*old(self)).push(id@))
                    &&& id@.len() == 36
                    &&& final(self).advertise == old(self).advertise
                    &&& final(self).device_connection_info == old(self).device_connection_info
                    &&& final(self).has_tcp_server == old(self).has_tcp_server
                    &&& final(self).file_storage == old(self).file_storage
                },
                Err(e) => {
                    &&& old(self).ble_l2_cap_client is None
                    &&& e is InternalBleHandlerNotAvailable
                    &&& *final(self) == *old(self)
                },
            },
    {
        if self.ble_l2_cap_client.is_none() {
            return Err(ConnectErrors::InternalBleHandlerNotAvailable);
        }
        let id = self.begin_l2cap_attempt();
        match &self.ble_l2_cap_client {
            Some(client) => client.open_l2cap_connection(
                clone_bytes(&id),
                clone_bytes(peer_ble_uuid),
                psm,
            ),
            None => {},
        }
        Ok(id)
    }

    /// The platform answered an L2CAP attempt (with a stream or a failure):
    /// the pending entry under this identifier is removed and no entry for it
    /// remains; an unknown identifier changes nothing.
    pub fn handle_incoming_ble_connection(&mut self, connection_id: &Vec<u8>) -> (was_pending:
        bool)
        requires
            pending_wf(*old(self)),
        ensures
            pending_wf(*final(self)),
            !pending_ids(*final(self)).contains(connection_id@),
            final(self).advertise == old(self).advertise,
            final(self).device_connection_info == old(self).device_connection_info,
            final(self).has_tcp_server == old(self).has_tcp_server,
            final(self).has_delegate == old(self).has_delegate,
            final(self).file_storage == old(self).file_storage,
            was_pending <==> pending_ids(*old(self)).contains(connection_id@),
            !was_pending ==> pending_ids(*final(self)) == pending_ids(*old(self)),
            was_pending ==> exists|j: int|
                {
                    &&& 0 <= j < pending_ids(*old(self)).len()
                    &&& pending_ids(*old(self))[j] == connection_id@
                    &&& (forall|k: int|
                        0 <= k < j ==> pending_ids(*old(self))[k] != connection_id@)
                    &&& pending_ids(*final(self)) == pending_ids(*old(self)).remove(j)
                },
    {
        let mut j: usize = 0;
        while j < self.pending_l2cap.len()
            invariant
                *self == *old(self),
                pending_wf(*old(self)),
                j <= self.pending_l2cap@.len(),
                forall|k: int| 0 <= k < j ==> pending_ids(*self)[k] != connection_id@,
            decreases self.pending_l2cap@.len() - j,
        {
            if bytes_equal(&self.pending_l2cap[j], connection_id) {
                self.pending_l2cap.remove(j);
                proof {
                    let before = pending_ids(*old(self));
                    let after = pending_ids(*self);
                    assert(before.contains(connection_id@)) by {
                        assert(before[j as int] == connection_id@);
                    }
                    assert(after =~= before.remove(j as int));
                    before.remove_ensures(j as int);
                    assert forall|i: int, k: int|
                        0 <= i < k < after.len() implies after[i] != after[k] by {
                        let a: int = if i < j as int {
                            i
                        } else {
                            i + 1
                        };
                        let b: int = if k < j as int {
                            k
                        } else {
                            k + 1
                        };
                        assert(after[i] == pending_ids(*old(self))[a]);
                        assert(after[k] == pending_ids(*old(self))[b]);
                        assert(pending_ids(*old(self))[a] != pending_ids(*old(self))[b]);
                    }
                    assert forall|i: int|
                        0 <= i < after.len() implies after[i] != connection_id@ by {
                        if i >= j as int {
                            assert(after[i] == pending_ids(*old(self))[i + 1]);
                            assert(pending_ids(*old(self))[j as int] != pending_ids(
                                *old(self),
                            )[i + 1]);
                        } else {
                            assert(after[i] == pending_ids(*old(self))[i]);
                        }
                    }
                    assert(!after.contains(connection_id@));
                }
                return true;
            }
            j = j + 1;
        }
        proof {
            assert forall|i: int|
                0 <= i < pending_ids(*old(self)).len() implies pending_ids(*old(self))[i]
                != connection_id@ by {}
            assert(!pending_ids(*old(self)).contains(connection_id@));
        }
        false
    }
}

/// Idempotence of `stop`: stopping an already-stopped orchestrator is a
/// no-op, and after any `stop` the advertise flag is false.
pub proof fn lemma_stop_idempotent(s: NearbyServer)
    ensures
        spec_stop(spec_stop(s)) == spec_stop(s),
        !spec_stop(s).advertise,
{
}

/// Balance of the pending L2CAP attempts: a fresh orchestrator has none, and
/// resolving the attempt that a begin registered (its identifier new to the
/// map) leaves the pending identifiers exactly as they were — so attempts in
/// flight, begun and then answered, leave the map empty whenever it started
/// empty.
pub proof fn lemma_l2cap_pending_balanced(before: Seq<Seq<u8>>, id: Seq<u8>)
    requires
        !before.contains(id),
    ensures
        before.push(id).contains(id),
        before.push(id)[before.len() as int] == id,
        forall|k: int| 0 <= k < before.len() ==> before.push(id)[k] != id,
        before.push(id).remove(before.len() as int) == before,
{
    assert(before.push(id).contains(id)) by {
        assert(before.push(id)[before.len() as int] == id);
    }
    assert(before.push(id).remove(before.len() as int) =~= before);
    assert forall|k: int| 0 <= k < before.len() implies before.push(id)[k] != id by {
        assert(before.push(id)[k] == before[k]);
    }
}

} // verus!
