use vstd::prelude::*;
use crate::request::{AccessMode, AccessType, Topology, TopologyRequirement, VolumeCapability};
use crate::status::{Code, Status};
use crate::text::str_eq;
use crate::volume::{Filesystem, VolumeConfig, VolumeMode, VolumeView};

verus! {

/// The filesystem that a `fs_type` value names.
pub open spec fn spec_parse_filesystem(s: Seq<char>) -> Option<Filesystem> {
    if s == "ext4"@ {
        Some(Filesystem::Ext4)
    } else if s == "xfs"@ {
        Some(Filesystem::Xfs)
    } else if s == "bind"@ {
        Some(Filesystem::Bind)
    } else {
        None
    }
}

/// The configuration that an access mode maps to, if it is served.
pub open spec fn spec_mode_config(m: AccessMode) -> Option<VolumeConfig> {
    match m {
        AccessMode::SingleNodeWriter => Some(VolumeConfig { mode: VolumeMode::SingleNodeWriter }),
        AccessMode::SingleNodeReaderOnly => Some(
            VolumeConfig { mode: VolumeMode::SingleNodeReader },
        ),
        AccessMode::SingleNodeSingleWriter => Some(
            VolumeConfig { mode: VolumeMode::SingleNodeSingleWriter },
        ),
        AccessMode::SingleNodeMultiWriter => Some(
            VolumeConfig { mode: VolumeMode::SingleNodeMultiWriter },
        ),
        _ => None,
    }
}

/// A capability read as an access configuration and an optional filesystem;
/// `None` when it is malformed or asks for what is not served.
pub open spec fn spec_parse_capability(c: VolumeCapability) -> Option<
    (VolumeConfig, Option<Filesystem>),
> {
    match (c.access_mode, c.access_type) {
        (Some(m), Some(AccessType::Mount(mv))) => {
            let fs = if mv.fs_type@.len() == 0 {
                None
            } else {
                spec_parse_filesystem(mv.fs_type@)
            };
            if mv.fs_type@.len() != 0 && fs is None {
                None
            } else if mv.mount_flags@.len() != 0 {
                None
            } else {
                match spec_mode_config(m) {
                    Some(cfg) => Some((cfg, fs)),
                    None => None,
                }
            }
        },
        _ => None,
    }
}

/// A volume admits a configuration and an optional filesystem.
pub open spec fn compatible(v: VolumeView, cfg: VolumeConfig, fs: Option<Filesystem>) -> bool {
    v.valid_configs.contains(cfg) && (fs is None || fs->0 == v.filesystem)
}

/// Every segment of a topology is `node=<node>`.
pub open spec fn topology_on_node(t: Topology, node: Seq<char>) -> bool {
    forall|j: int|
        0 <= j < t.segments@.len() ==> (#[trigger] t.segments@[j]).0@ == "node"@
            && t.segments@[j].1@ == node
}

/// An accessibility requirement asks only for this node.
pub open spec fn requirement_on_node(r: Option<TopologyRequirement>, node: Seq<char>) -> bool {
    r is Some ==> forall|i: int|
        0 <= i < r->0.requisite@.len() ==> topology_on_node(#[trigger] r->0.requisite@[i], node)
}

pub fn parse_filesystem(from: &str) -> (r: Result<Filesystem, Status>)
    ensures
        r is Ok <==> spec_parse_filesystem(from@) is Some,
        r is Ok ==> spec_parse_filesystem(from@) == Some(r->Ok_0),
        r is Err ==> r->Err_0.code == Code::InvalidArgument,
{
    if str_eq(from, "ext4") {
        Ok(Filesystem::Ext4)
    } else if str_eq(from, "xfs") {
        Ok(Filesystem::Xfs)
    } else if str_eq(from, "bind") {
        Ok(Filesystem::Bind)
    } else {
        Err(Status::invalid_argument("unknown fs_type, only 'ext4', 'xfs', or 'bind' allowed"))
    }
}

pub fn parse_volume_capability(capability: &VolumeCapability) -> (r: Result<
    (VolumeConfig, Option<Filesystem>),
    Status,
>)
    ensures
        r is Ok <==> spec_parse_capability(*capability) is Some,
        r is Ok ==> spec_parse_capability(*capability) == Some(r->Ok_0),
        r is Err ==> r->Err_0.code == Code::InvalidArgument,
{
    let mode = match capability.access_mode {
        Some(m) => m,
        None => {
            return Err(Status::invalid_argument("missing access_mode"));
        },
    };
    let mount = match &capability.access_type {
        Some(AccessType::Mount(m)) => m,
        Some(AccessType::Block) => {
            return Err(Status::invalid_argument("only mount-type access_types allowed"));
        },
        None => {
            return Err(Status::invalid_argument("missing access_type"));
        },
    };
    let filesystem = if mount.fs_type.as_str().unicode_len() == 0 {
        None
    } else {
        match parse_filesystem(mount.fs_type.as_str()) {
            Ok(fs) => Some(fs),
            Err(e) => {
                return Err(e);
            },
        }
    };
    if mount.mount_flags.len() != 0 {
        return Err(Status::invalid_argument("mount_flags not supported"));
    }
    let mode = match mode {
        AccessMode::SingleNodeWriter => VolumeMode::SingleNodeWriter,
        AccessMode::SingleNodeReaderOnly => VolumeMode::SingleNodeReader,
        AccessMode::SingleNodeSingleWriter => VolumeMode::SingleNodeSingleWriter,
        AccessMode::SingleNodeMultiWriter => VolumeMode::SingleNodeMultiWriter,
        _ => {
            return Err(Status::invalid_argument("unsupported volume mode"));
        },
    };
    Ok((VolumeConfig { mode }, filesystem))
}

/// Whether every segment of `t` is `node=<node_id>`.
pub fn check_topology(t: &Topology, node_id: &str) -> (r: bool)
    ensures
        r == topology_on_node(*t, node_id@),
{
    let mut j: usize = 0;
    while j < t.segments.len()
        invariant
            j <= t.segments@.len(),
            forall|k: int|
                0 <= k < j ==> (#[trigger] t.segments@[k]).0@ == "node"@ && t.segments@[k].1@
                    == node_id@,
        decreases t.segments.len() - j,
    {
        let seg = &t.segments[j];
        if !str_eq(seg.0.as_str(), "node") || !str_eq(seg.1.as_str(), node_id) {
            return false;
        }
        j = j + 1;
    }
    true
}

/// Whether an accessibility requirement asks only for this node.
pub fn check_requirement(r: &Option<TopologyRequirement>, node_id: &str) -> (res: bool)
    ensures
        res == requirement_on_node(*r, node_id@),
{
    if let Some(req) = r {
        let mut i: usize = 0;
        while i < req.requisite.len()
            invariant
                *r == Some(*req),
                i <= req.requisite@.len(),
                forall|k: int|
                    0 <= k < i ==> topology_on_node(#[trigger] req.requisite@[k], node_id@),
            decreases req.requisite.len() - i,
        {
            if !check_topology(&req.requisite[i], node_id) {
                assert(!topology_on_node(req.requisite@[i as int], node_id@));
                assert(r->0.requisite@[i as int] == req.requisite@[i as int]);
                assert(!requirement_on_node(*r, node_id@));
                return false;
            }
            i = i + 1;
        }
    }
    true
}

/// Whether the volume admits the configuration and filesystem.
pub fn check_compatible(
    valid_configs: &Vec<VolumeConfig>,
    filesystem: Filesystem,
    cfg: VolumeConfig,
    fs: Option<Filesystem>,
) -> (r: bool)
    ensures
        r == (valid_configs@.contains(cfg) && (fs is None || fs->0 == filesystem)),
{
    if !crate::volume::contains_config(valid_configs, cfg) {
        return false;
    }
    match fs {
        Some(f) => f == filesystem,
        None => true,
    }
}

} // verus!
