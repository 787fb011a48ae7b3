use vstd::prelude::*;

verus! {

/// A logical volume as the storage backend reports it.
#[derive(Clone, Debug, PartialEq, Eq)]
pub struct Volume {
    /// Name of the volume inside its volume group.
    pub name: String,
    /// Path of the block device that exposes the volume.
    pub path: String,
    /// Size in bytes.
    pub size: u64,
}

impl Volume {
    /// An independent copy of this handle.
    pub fn duplicate(&self) -> (copy: Volume)
        ensures
            copy == *self,
    {
        Volume { name: self.name.clone(), path: self.path.clone(), size: self.size }
    }
}

/// What was read from a volume group: its capacity and the volumes it holds.
#[derive(Clone, Debug, PartialEq, Eq)]
pub struct VolumeGroup {
    /// Capacity of the whole group in bytes.
    pub vg_size: u64,
    /// The logical volumes that exist in the group, in the backend's order.
    pub volumes: Vec<Volume>,
}

} // verus!
