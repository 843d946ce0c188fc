//! Peer discovery facade: the registry of peers currently visible, fed by
//! the platform scanners (BLE, UDP broadcast) through the embedding
//! application, and read by the transport selector.
use vstd::prelude::*;

use crate::connect::clone_bytes;
use crate::errors::DiscoverySetupError;
use crate::messages::{BluetoothLeConnectionInfo, Device, DeviceConnectionInfo, DeviceV};
use crate::nearby::bytes_equal;

verus! {

/// Observer of peers appearing and disappearing, implemented by the
/// embedding application.
pub trait DiscoveryDelegate {
    fn device_added(&self, device: Device);

    fn device_removed(&self, device_id: Vec<u8>);
}

/// Copy a device value.
pub fn clone_device(d: &Device) -> (r: Device)
    ensures
        r@ == d@,
{
    Device { id: clone_bytes(&d.id), name: clone_bytes(&d.name), device_type: d.device_type }
}

/// Copy a peer descriptor.
pub fn clone_connection_info(info: &DeviceConnectionInfo) -> (r: DeviceConnectionInfo)
    ensures
        r@ == info@,
{
    DeviceConnectionInfo {
        device: match &info.device {
            Some(d) => Some(clone_device(d)),
            None => None,
        },
        tcp: match &info.tcp {
            Some(t) => Some(
                crate::messages::TcpConnectionInfo {
                    hostname: clone_bytes(&t.hostname),
                    port: t.port,
                },
            ),
            None => None,
        },
        ble: match &info.ble {
            Some(b) => Some(
                BluetoothLeConnectionInfo { uuid: clone_bytes(&b.uuid), psm: b.psm },
            ),
            None => None,
        },
    }
}

/// The devices named by the descriptors `entries[i..]`, in order.
pub open spec fn devices_of(entries: Seq<DeviceConnectionInfo>, i: int) -> Seq<DeviceV>
    decreases entries.len() - i,
{
    if i < 0 || i >= entries.len() {
        Seq::empty()
    } else {
        (match entries[i].device {
            Some(d) => seq![d@],
            None => Seq::empty(),
        }) + devices_of(entries, i + 1)
    }
}

/// The registry of discovered peers.
pub struct Discovery {
    pub entries: Vec<DeviceConnectionInfo>,
    pub running: bool,
    pub delegate: Option<Box<dyn DiscoveryDelegate>>,
}

impl Discovery {
    /// A fresh registry: empty and not scanning.
    pub fn new(delegate: Option<Box<dyn DiscoveryDelegate>>) -> (r: Result<
        Self,
        DiscoverySetupError,
    >)
        ensures
            r matches Ok(d) && d.entries@ =~= Seq::<DeviceConnectionInfo>::empty() && !d.running
                && (d.delegate is Some <==> delegate is Some),
    {
        Ok(Discovery { entries: Vec::new(), running: false, delegate })
    }

    /// Begin scanning.
    pub fn start(&mut self)
        ensures
            *final(self) == (Discovery { running: true, ..*old(self) }),
    {
        self.running = true;
    }

    /// Stop scanning; what was discovered stays known.
    pub fn stop(&mut self)
        ensures
            *final(self) == (Discovery { running: false, ..*old(self) }),
    {
        self.running = false;
    }

    /// Record one discovered peer and tell the delegate about its device.
    pub fn add_device(&mut self, info: DeviceConnectionInfo)
        ensures
            final(self).entries@ == old(self).entries@.push(info),
            final(self).running == old(self).running,
    {
        match (&self.delegate, &info.device) {
            (Some(delegate), Some(device)) => delegate.device_added(clone_device(device)),
            _ => {},
        }
        self.entries.push(info);
    }

    /// The devices of every known peer, in discovery order.
    pub fn get_devices(&self) -> (r: Vec<Device>)
        ensures
            r@.map_values(|d: Device| d@) == devices_of(self.entries@, 0),
    {
        let mut out: Vec<Device> = Vec::new();
        let mut i: usize = 0;
        while i < self.entries.len()
            invariant
                i <= self.entries@.len(),
                out@.map_values(|d: Device| d@) + devices_of(self.entries@, i as int)
                    == devices_of(self.entries@, 0),
            decreases self.entries@.len() - i,
        {
            let ghost before = out@;
            match &self.entries[i].device {
                Some(d) => {
                    out.push(clone_device(d));
                    proof {
                        assert(out@.map_values(|d: Device| d@) =~= before.map_values(
                            |d: Device| d@,
                        ) + seq![self.entries@[i as int].device->0@]);
                    }
                },
                None => {},
            }
            proof {
                assert(out@.map_values(|d: Device| d@) + devices_of(self.entries@, i + 1)
                    =~= before.map_values(|d: Device| d@) + devices_of(self.entries@, i as int));
            }
            i = i + 1;
        }
        proof {
            assert(devices_of(self.entries@, self.entries@.len() as int)
                =~= Seq::<DeviceV>::empty());
            assert(out@.map_values(|d: Device| d@) =~= out@.map_values(|d: Device| d@)
                + devices_of(self.entries@, self.entries@.len() as int));
        }
        out
    }

    /// The connection details discovery knows for `device`: the first
    /// descriptor naming a device with the same identifier.
    pub fn get_connection_details(&self, device: &Device) -> (r: Option<DeviceConnectionInfo>)
        ensures
            match r {
                Some(info) => exists|j: int|
                    {
                        &&& 0 <= j < self.entries@.len()
                        &&& #[trigger] self.entries@[j].device matches Some(d) && d.id@
                            == device.id@ && info@ == self.entries@[j]@
                    },
                None => forall|j: int|
                    0 <= j < self.entries@.len() ==> match #[trigger] self.entries@[j].device {
                        Some(d) => d.id@ != device.id@,
                        None => true,
                    },
            },
    {
        let mut i: usize = 0;
        while i < self.entries.len()
            invariant
                i <= self.entries@.len(),
                forall|j: int|
                    0 <= j < i ==> match #[trigger] self.entries@[j].device {
                        Some(d) => d.id@ != device.id@,
                        None => true,
                    },
            decreases self.entries@.len() - i,
        {
            match &self.entries[i].device {
                Some(d) => {
                    if bytes_equal(&d.id, &device.id) {
                        return Some(clone_connection_info(&self.entries[i]));
                    }
                },
                None => {},
            }
            i = i + 1;
        }
        None
    }
}

} // verus!
