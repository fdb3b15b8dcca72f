//! Devices and their identifiers.
use vstd::prelude::*;

verus! {

/// A device among the devices of a type.
#[derive(Clone, Copy, Debug, PartialEq, Eq, Structural)]
pub struct DeviceId {
    pub type_id: u16,
    pub index_id: u16,
}

/// A device by its chip index.
#[derive(Clone, Copy, Debug, Default, PartialEq, Eq, Hash, Structural)]
pub struct TtDevice {
    pub index: usize,
}

impl TtDevice {
    pub fn from_id(device_id: DeviceId) -> (device: Self)
        ensures
            device.index == device_id.index_id,
    {
        TtDevice { index: device_id.index_id as usize }
    }

    pub open spec fn id(self) -> DeviceId {
        DeviceId { type_id: 0, index_id: self.index as u16 }
    }

    pub fn to_id(&self) -> (device_id: DeviceId)
        ensures
            device_id == self.id(),
    {
        DeviceId { type_id: 0, index_id: self.index as u16 }
    }
}

/// The identifier of a device that was found by an identifier names the same device,
/// and so does the device found by it.
pub proof fn law_device_id_roundtrip(device_id: DeviceId, device: TtDevice)
    requires
        device.index == device_id.index_id,
    ensures
        device.id() == (DeviceId { type_id: 0, ..device_id }),
{
}

/// The identifiers of the first `count` devices.
pub open spec fn device_ids(count: nat) -> Seq<DeviceId> {
    Seq::new(count, |i: int| DeviceId { type_id: 0, index_id: i as u16 })
}

/// The identifiers of the devices that are there.
pub fn enumerate_devices(count: usize) -> (ids: Vec<DeviceId>)
    ensures
        ids@ == device_ids(count as nat),
{
    let mut ids: Vec<DeviceId> = Vec::new();
    let mut i: usize = 0;
    while i < count
        invariant
            i <= count,
            ids@ == device_ids(i as nat),
        decreases count - i,
    {
        ids.push(DeviceId { type_id: 0, index_id: i as u16 });
        assert(device_ids((i + 1) as nat) =~= device_ids(i as nat).push(
            DeviceId { type_id: 0, index_id: i as u16 },
        ));
        i += 1;
    }
    ids
}

} // verus!
