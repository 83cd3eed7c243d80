use vstd::prelude::*;

verus! {

/// The access modes a caller can ask for; only the single-node ones are served.
#[derive(Clone, Copy, Debug, PartialEq, Eq, Structural)]
pub enum AccessMode {
    Unknown,
    SingleNodeWriter,
    SingleNodeReaderOnly,
    MultiNodeReaderOnly,
    MultiNodeSingleWriter,
    MultiNodeMultiWriter,
    SingleNodeSingleWriter,
    SingleNodeMultiWriter,
}

/// A filesystem-type access: the filesystem to use and extra mount flags.
#[derive(Clone, Debug)]
pub struct MountVolume {
    pub fs_type: String,
    pub mount_flags: Vec<String>,
}

#[derive(Clone, Debug)]
pub enum AccessType {
    Block,
    Mount(MountVolume),
}

/// How a caller means to use a volume.
#[derive(Clone, Debug)]
pub struct VolumeCapability {
    pub access_mode: Option<AccessMode>,
    pub access_type: Option<AccessType>,
}

#[derive(Clone, Copy, Debug)]
pub struct CapacityRange {
    pub required_bytes: i64,
    pub limit_bytes: i64,
}

/// Key/value pairs that say where a volume can be reached.
#[derive(Clone, Debug)]
pub struct Topology {
    pub segments: Vec<(String, String)>,
}

#[derive(Clone, Debug)]
pub struct TopologyRequirement {
    pub requisite: Vec<Topology>,
    pub preferred: Vec<Topology>,
}

#[derive(Clone, Debug)]
pub struct CreateVolumeRequest {
    pub name: String,
    pub capacity_range: Option<CapacityRange>,
    pub volume_capabilities: Vec<VolumeCapability>,
    pub parameters: Vec<(String, String)>,
    pub accessibility_requirements: Option<TopologyRequirement>,
}

#[derive(Clone, Debug)]
pub struct DeleteVolumeRequest {
    pub volume_id: String,
}

#[derive(Clone, Debug)]
pub struct ControllerPublishVolumeRequest {
    pub volume_id: String,
    pub node_id: String,
    pub volume_capability: Option<VolumeCapability>,
    pub readonly: bool,
}

#[derive(Clone, Debug)]
pub struct ControllerUnpublishVolumeRequest {
    pub volume_id: String,
    pub node_id: String,
}

#[derive(Clone, Debug)]
pub struct ValidateVolumeCapabilitiesRequest {
    pub volume_id: String,
    pub volume_capabilities: Vec<VolumeCapability>,
}

#[derive(Clone, Debug)]
pub struct ListVolumesRequest {
    pub max_entries: i32,
    pub starting_token: String,
}

#[derive(Clone, Debug)]
pub struct GetCapacityRequest {
    pub volume_capabilities: Vec<VolumeCapability>,
    pub parameters: Vec<(String, String)>,
    pub accessible_topology: Option<Topology>,
}

#[derive(Clone, Debug)]
pub struct ControllerGetVolumeRequest {
    pub volume_id: String,
}

#[derive(Clone, Debug)]
pub struct NodePublishVolumeRequest {
    pub volume_id: String,
    pub target_path: String,
    pub volume_capability: Option<VolumeCapability>,
    pub readonly: bool,
}

#[derive(Clone, Debug)]
pub struct NodeUnpublishVolumeRequest {
    pub volume_id: String,
    pub target_path: String,
}

#[derive(Clone, Debug)]
pub struct NodeGetVolumeStatsRequest {
    pub volume_id: String,
    pub volume_path: String,
}

#[derive(Clone, Debug)]
pub struct NodeExpandVolumeRequest {
    pub volume_id: String,
    pub volume_path: String,
    pub capacity_range: Option<CapacityRange>,
}

/// What a caller learns of a volume: its id, its size, and the node it is
/// reachable on.
#[derive(Clone, Debug)]
pub struct VolumeInfo {
    pub volume_id: String,
    pub capacity_bytes: u64,
    pub node_id: String,
}

/// A volume as `ListVolumes` and `ControllerGetVolume` report it.
#[derive(Clone, Debug)]
pub struct VolumeEntry {
    pub volume: VolumeInfo,
    pub published_node_ids: Vec<String>,
}

} // verus!
