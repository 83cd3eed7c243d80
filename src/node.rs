use vstd::prelude::*;
use crate::capability::{check_compatible, compatible, parse_volume_capability, spec_parse_capability};
use crate::controller::requested_size;
use crate::request::{
    NodeExpandVolumeRequest, NodeGetVolumeStatsRequest, NodePublishVolumeRequest,
    NodeUnpublishVolumeRequest,
};
use crate::status::{fails_with, Code, Status};
use crate::text::{join_path_str, trim_leading_slash_str};
use crate::volume::{
    backing_path, lemma_without, opt_ref_view, strings_view, without, Filesystem, Volume,
    VolumeMode, VolumeState, VolumeView, DEFAULT_VOLUME_SIZE,
};

verus! {

/// The node-scoped operations of the node this plugin runs on.
pub struct NodeService {
    pub node_id: String,
    /// The topology segments this node advertises.
    pub topology: Vec<(String, String)>,
    /// The host directory under which volume host paths resolve.
    pub host_prefix: String,
}

/// A mount for the caller to make on the host.
pub struct MountRequest {
    /// The loop device already attached to the backing, if any.
    pub loop_device: Option<String>,
    pub source: String,
    pub target: String,
    pub readonly: bool,
    pub filesystem: Filesystem,
}

/// What a node publish asks of the caller.
pub enum NodePublishStep {
    /// The target is mounted already: nothing to do.
    AlreadyPublished,
    /// Make the target directory, mount, then hand the result to
    /// `NodeService::node_publish_finish`.
    Mount(MountRequest),
}

/// What a node unpublish asks of the caller.
pub enum NodeUnpublishStep {
    /// The target is not mounted: nothing to do.
    NotPublished,
    /// Unmount the target, then hand the record to
    /// `NodeService::node_unpublish_finish`.
    Unmount,
}

/// A filesystem grow for the caller to perform on the host.
pub struct GrowRequest {
    pub source: String,
    pub loop_device: Option<String>,
    pub size: u64,
    pub filesystem: Filesystem,
}

/// What an expansion asks of the caller.
pub enum NodeExpandStep {
    /// The volume is as large as asked already: its size.
    Current(u64),
    /// Grow the backing (nothing to do for `Bind`), then hand the record to
    /// `NodeService::node_expand_finish`.
    Grow(GrowRequest),
}

/// Whether a node publish mounts: `Ok(false)` when the target is mounted already.
pub open spec fn node_publish_outcome(req: NodePublishVolumeRequest, loaded: Option<VolumeView>) -> Result<
    bool,
    Code,
> {
    if req.volume_id@.len() == 0 || req.target_path@.len() == 0 || req.volume_capability is None {
        Err(Code::InvalidArgument)
    } else {
        match spec_parse_capability(req.volume_capability->0) {
            None => Err(Code::InvalidArgument),
            Some((cfg, fs)) => match loaded {
                None => Err(Code::NotFound),
                Some(v) => if !compatible(v, cfg, fs) {
                    Err(Code::AlreadyExists)
                } else {
                    match v.state {
                        VolumeState::Open => Err(Code::FailedPrecondition),
                        VolumeState::ControllerPublished => Ok(true),
                        VolumeState::NodePublished => if v.mount_paths.contains(req.target_path@) {
                            Ok(false)
                        } else if v.published_config->0.mode != VolumeMode::SingleNodeMultiWriter {
                            Err(Code::FailedPrecondition)
                        } else if v.published_config != Some(cfg) {
                            Err(Code::FailedPrecondition)
                        } else {
                            Ok(true)
                        },
                    }
                },
            },
        }
    }
}

/// A record may take one more mount at `target`.
pub open spec fn may_mount(v: VolumeView, target: Seq<char>) -> bool {
    &&& !v.mount_paths.contains(target)
    &&& (v.state == VolumeState::ControllerPublished || (v.state == VolumeState::NodePublished
        && v.published_config->0.mode == VolumeMode::SingleNodeMultiWriter))
}

/// The record after a mount at `target` that reported `device`.
pub open spec fn published_view(v: VolumeView, target: Seq<char>, device: Option<Seq<char>>) -> VolumeView {
    VolumeView {
        state: VolumeState::NodePublished,
        loop_device: if v.loop_device is None {
            device
        } else {
            v.loop_device
        },
        mount_paths: v.mount_paths.push(target),
        ..v
    }
}

/// Whether a node unpublish unmounts: `Ok(false)` when the target is not mounted.
pub open spec fn node_unpublish_outcome(
    req: NodeUnpublishVolumeRequest,
    loaded: Option<VolumeView>,
) -> Result<bool, Code> {
    if req.volume_id@.len() == 0 || req.target_path@.len() == 0 {
        Err(Code::InvalidArgument)
    } else {
        match loaded {
            None => Err(Code::NotFound),
            Some(v) => Ok(
                v.state == VolumeState::NodePublished && v.mount_paths.contains(req.target_path@),
            ),
        }
    }
}

/// The record after the mount at `target` is gone.
pub open spec fn unpublished_view(v: VolumeView, target: Seq<char>) -> VolumeView {
    let rest = without(v.mount_paths, target);
    if rest.len() == 0 {
        VolumeView {
            state: VolumeState::ControllerPublished,
            loop_device: None,
            mount_paths: rest,
            ..v
        }
    } else {
        VolumeView { mount_paths: rest, ..v }
    }
}

/// Why a request on a mounted path of a volume is refused, if it is.
pub open spec fn mounted_path_error(
    volume_id: Seq<char>,
    path: Seq<char>,
    loaded: Option<VolumeView>,
) -> Option<Code> {
    if volume_id.len() == 0 || path.len() == 0 {
        Some(Code::InvalidArgument)
    } else {
        match loaded {
            None => Some(Code::NotFound),
            Some(v) => if v.state == VolumeState::NodePublished && v.mount_paths.contains(path) {
                None
            } else {
                Some(Code::NotFound)
            },
        }
    }
}

/// Whether `target` is among `paths`.
pub fn contains_path(paths: &Vec<String>, target: &String) -> (r: bool)
    ensures
        r == strings_view(paths@).contains(target@),
{
    let mut i: usize = 0;
    while i < paths.len()
        invariant
            i <= paths@.len(),
            forall|j: int| 0 <= j < i ==> paths@[j]@ != target@,
        decreases paths.len() - i,
    {
        if paths[i] == *target {
            assert(strings_view(paths@)[i as int] == target@);
            return true;
        }
        i = i + 1;
    }
    assert forall|j: int| 0 <= j < strings_view(paths@).len() implies strings_view(paths@)[j]
        != target@ by {
        assert(strings_view(paths@)[j] == paths@[j]@);
    }
    false
}

/// `paths` without `target`.
pub fn remove_path(paths: &Vec<String>, target: &String) -> (r: Vec<String>)
    ensures
        strings_view(r@) == without(strings_view(paths@), target@),
{
    let ghost sv = strings_view(paths@);
    let mut r: Vec<String> = Vec::new();
    let mut i: usize = 0;
    while i < paths.len()
        invariant
            sv == strings_view(paths@),
            i <= paths@.len(),
            strings_view(r@) == without(sv.subrange(0, i as int), target@),
        decreases paths.len() - i,
    {
        proof {
            let s1 = sv.subrange(0, i + 1);
            assert(s1.drop_last() =~= sv.subrange(0, i as int));
            assert(s1.last() == paths@[i as int]@);
        }
        if paths[i] != *target {
            r.push(paths[i].clone());
            assert(strings_view(r@) =~= without(sv.subrange(0, i as int), target@).push(
                paths@[i as int]@,
            ));
        }
        i = i + 1;
    }
    assert(sv.subrange(0, sv.len() as int) =~= sv);
    r
}

impl NodeService {
    fn source_path(&self, v: &Volume) -> (r: String)
        ensures
            r@ == backing_path(self.host_prefix@, v.host_path@),
    {
        join_path_str(self.host_prefix.as_str(), trim_leading_slash_str(v.host_path.as_str()))
    }

    /// Decides a node publish on the record `loaded`.
    pub fn node_publish_volume(&self, req: &NodePublishVolumeRequest, loaded: Option<&Volume>) -> (r:
        Result<NodePublishStep, Status>)
        requires
            loaded is Some ==> loaded->0@.wf(),
        ensures
            match node_publish_outcome(*req, opt_ref_view(loaded)) {
                Ok(false) => r is Ok && r->Ok_0 is AlreadyPublished,
                Ok(true) => r is Ok && r->Ok_0 is Mount && may_mount(loaded->0@, req.target_path@)
                    && {
                    let m = r->Ok_0->Mount_0;
                    &&& opt_ref_view(loaded) is Some
                    &&& crate::volume::opt_view(m.loop_device) == loaded->0@.loop_device
                    &&& m.source@ == backing_path(self.host_prefix@, loaded->0.host_path@)
                    &&& m.target@ == req.target_path@
                    &&& m.readonly == (req.readonly || loaded->0.published_readonly)
                    &&& m.filesystem == loaded->0.filesystem
                },
                Err(c) => fails_with(r, c),
            },
    {
        if req.volume_id.as_str().unicode_len() == 0 {
            return Err(Status::invalid_argument("volume_id is missing"));
        }
        if req.target_path.as_str().unicode_len() == 0 {
            return Err(Status::invalid_argument("missing target_path"));
        }
        let capability = match &req.volume_capability {
            Some(c) => c,
            None => {
                return Err(Status::invalid_argument("missing volume_capability"));
            },
        };
        let (config, filesystem) = match parse_volume_capability(capability) {
            Ok(x) => x,
            Err(e) => {
                return Err(e);
            },
        };
        let volume = match loaded {
            Some(v) => v,
            None => {
                return Err(Status::not_found("volume_id not found"));
            },
        };
        if !check_compatible(&volume.valid_configs, volume.filesystem, config, filesystem) {
            return Err(Status::already_exists("incompatible volume_capability"));
        }
        let mounted = contains_path(&volume.mount_paths, &req.target_path);
        match volume.state {
            VolumeState::Open => {
                return Err(Status::failed_precondition("volume not published on controller"));
            },
            VolumeState::ControllerPublished => {},
            VolumeState::NodePublished => {
                if mounted {
                    return Ok(NodePublishStep::AlreadyPublished);
                }
                match volume.published_config {
                    Some(c) => {
                        if c.mode != VolumeMode::SingleNodeMultiWriter {
                            return Err(
                                Status::failed_precondition(
                                    "volume already published on node and not configured for multiwrite",
                                ),
                            );
                        }
                        if c != config {
                            return Err(
                                Status::failed_precondition(
                                    "volume attempted to mount in different mode",
                                ),
                            );
                        }
                    },
                    None => {},
                }
            },
        }
        let loop_device = match &volume.loop_device {
            Some(d) => Some(d.clone()),
            None => None,
        };
        Ok(
            NodePublishStep::Mount(
                MountRequest {
                    loop_device,
                    source: self.source_path(volume),
                    target: req.target_path.clone(),
                    readonly: req.readonly || volume.published_readonly,
                    filesystem: volume.filesystem,
                },
            ),
        )
    }

    /// The record after a successful mount at `target`; `loop_device` is the
    /// device the mount reported (none for `Bind`).
    pub fn node_publish_finish(volume: Volume, target: String, loop_device: Option<String>) -> (r:
        Volume)
        requires
            volume@.wf(),
            may_mount(volume@, target@),
            volume.filesystem == Filesystem::Bind ==> loop_device is None,
            volume.filesystem != Filesystem::Bind ==> volume.loop_device is Some
                || loop_device is Some,
        ensures
            r@ == published_view(volume@, target@, crate::volume::opt_view(loop_device)),
            r@.wf(),
            volume@.evolves_to(r@),
    {
        let mut volume = volume;
        let ghost old_paths = strings_view(volume.mount_paths@);
        if volume.loop_device.is_none() && loop_device.is_some() {
            volume.loop_device = loop_device;
        }
        volume.mount_paths.push(target);
        volume.state = VolumeState::NodePublished;
        assert(strings_view(volume.mount_paths@) =~= old_paths.push(target@));
        proof {
            let p = strings_view(volume.mount_paths@);
            assert forall|i: int, j: int| 0 <= i < p.len() && 0 <= j < p.len() && i != j implies p[i]
                != p[j] by {
                if i < old_paths.len() && j < old_paths.len() {
                    assert(p[i] == old_paths[i] && p[j] == old_paths[j]);
                } else if i < old_paths.len() {
                    assert(p[i] == old_paths[i]);
                    assert(old_paths.contains(old_paths[i]));
                } else if j < old_paths.len() {
                    assert(p[j] == old_paths[j]);
                    assert(old_paths.contains(old_paths[j]));
                }
            }
        }
        volume
    }

    /// Decides a node unpublish on the record `loaded`.
    pub fn node_unpublish_volume(&self, req: &NodeUnpublishVolumeRequest, loaded: Option<&Volume>) -> (r:
        Result<NodeUnpublishStep, Status>)
        ensures
            match node_unpublish_outcome(*req, opt_ref_view(loaded)) {
                Ok(false) => r is Ok && r->Ok_0 is NotPublished,
                Ok(true) => r is Ok && r->Ok_0 is Unmount,
                Err(c) => fails_with(r, c),
            },
    {
        if req.volume_id.as_str().unicode_len() == 0 {
            return Err(Status::invalid_argument("volume_id not found"));
        }
        if req.target_path.as_str().unicode_len() == 0 {
            return Err(Status::invalid_argument("missing target_path"));
        }
        let volume = match loaded {
            Some(v) => v,
            None => {
                return Err(Status::not_found("volume_id not found"));
            },
        };
        if volume.state != VolumeState::NodePublished || !contains_path(
            &volume.mount_paths,
            &req.target_path,
        ) {
            return Ok(NodeUnpublishStep::NotPublished);
        }
        Ok(NodeUnpublishStep::Unmount)
    }

    /// The record after the mount at `target` was removed, and the loop
    /// device to detach when that was the last mount.
    pub fn node_unpublish_finish(volume: Volume, target: &String) -> (r: (Volume, Option<String>))
        requires
            volume@.wf(),
            volume.state == VolumeState::NodePublished,
            volume@.mount_paths.contains(target@),
        ensures
            r.0@ == unpublished_view(volume@, target@),
            r.0@.wf(),
            volume@.evolves_to(r.0@),
            r.0@.mount_paths.len() == 0 ==> crate::volume::opt_view(r.1) == volume@.loop_device,
            r.0@.mount_paths.len() > 0 ==> r.1 is None,
    {
        let mut volume = volume;
        let ghost v0 = volume@;
        proof {
            lemma_without(v0.mount_paths, target@);
        }
        volume.mount_paths = remove_path(&volume.mount_paths, target);
        let mut detach: Option<String> = None;
        if volume.mount_paths.len() == 0 {
            volume.state = VolumeState::ControllerPublished;
            detach = volume.loop_device.take();
        }
        proof {
            let rest = without(v0.mount_paths, target@);
            if rest.len() == 0 {
                assert(volume@ == VolumeView {
                    state: VolumeState::ControllerPublished,
                    loop_device: None,
                    mount_paths: rest,
                    ..v0
                });
            } else {
                assert(volume@ == VolumeView { mount_paths: rest, ..v0 });
            }
        }
        (volume, detach)
    }

    /// Checks that a path is a mount of a published volume; the caller then
    /// reads that path's filesystem statistics.
    pub fn node_get_volume_stats(&self, req: &NodeGetVolumeStatsRequest, loaded: Option<&Volume>) -> (r:
        Result<(), Status>)
        ensures
            match mounted_path_error(req.volume_id@, req.volume_path@, opt_ref_view(loaded)) {
                None => r is Ok,
                Some(c) => fails_with(r, c),
            },
    {
        if req.volume_id.as_str().unicode_len() == 0 {
            return Err(Status::invalid_argument("volume_id not found"));
        }
        if req.volume_path.as_str().unicode_len() == 0 {
            return Err(Status::invalid_argument("volume_path not found"));
        }
        let volume = match loaded {
            Some(v) => v,
            None => {
                return Err(Status::not_found("volume_id not found"));
            },
        };
        if volume.state != VolumeState::NodePublished || !contains_path(
            &volume.mount_paths,
            &req.volume_path,
        ) {
            return Err(Status::not_found("volume path and id not found"));
        }
        Ok(())
    }

    /// Decides an expansion of the record `loaded`.
    pub fn node_expand_volume(&self, req: &NodeExpandVolumeRequest, loaded: Option<&Volume>) -> (r:
        Result<NodeExpandStep, Status>)
        requires
            loaded is Some ==> loaded->0@.wf(),
        ensures
            match mounted_path_error(req.volume_id@, req.volume_path@, opt_ref_view(loaded)) {
                Some(c) => fails_with(r, c),
                None => {
                    let v = loaded->0@;
                    let target = requested_size(req.capacity_range);
                    if target <= v.size {
                        r is Ok && r->Ok_0 == NodeExpandStep::Current(v.size)
                    } else if v.filesystem != Filesystem::Bind && v.loop_device is None {
                        fails_with(r, Code::NotFound)
                    } else {
                        r is Ok && r->Ok_0 is Grow && {
                            let g = r->Ok_0->Grow_0;
                            &&& g.size == target
                            &&& g.source@ == backing_path(self.host_prefix@, v.host_path)
                            &&& crate::volume::opt_view(g.loop_device) == v.loop_device
                            &&& g.filesystem == v.filesystem
                        }
                    }
                },
            },
    {
        if req.volume_id.as_str().unicode_len() == 0 {
            return Err(Status::invalid_argument("volume_id not found"));
        }
        if req.volume_path.as_str().unicode_len() == 0 {
            return Err(Status::invalid_argument("volume_path not found"));
        }
        let volume = match loaded {
            Some(v) => v,
            None => {
                return Err(Status::not_found("volume_id not found"));
            },
        };
        if volume.state != VolumeState::NodePublished || !contains_path(
            &volume.mount_paths,
            &req.volume_path,
        ) {
            return Err(Status::not_found("volume path and id not found"));
        }
        let target_capacity = match req.capacity_range {
            None => DEFAULT_VOLUME_SIZE,
            Some(c) => #[verifier::truncate]
            (c.required_bytes as u64),
        };
        if target_capacity <= volume.size {
            return Ok(NodeExpandStep::Current(volume.size));
        }
        let loop_device = match &volume.loop_device {
            Some(d) => Some(d.clone()),
            None => {
                if volume.filesystem != Filesystem::Bind {
                    return Err(Status::not_found("loop device not found"));
                }
                None
            },
        };
        Ok(
            NodeExpandStep::Grow(
                GrowRequest {
                    source: self.source_path(volume),
                    loop_device,
                    size: target_capacity,
                    filesystem: volume.filesystem,
                },
            ),
        )
    }

    /// The record after its backing grew to `size`.
    pub fn node_expand_finish(volume: Volume, size: u64) -> (r: Volume)
        requires
            volume@.wf(),
            volume.size < size,
        ensures
            r@ == (VolumeView { size, ..volume@ }),
            r@.wf(),
            volume@.evolves_to(r@),
    {
        let mut volume = volume;
        volume.size = size;
        volume
    }
}

/// The node features this plugin advertises.
#[derive(Clone, Copy, Debug, PartialEq, Eq, Structural)]
pub enum NodeCapability {
    ExpandVolume,
    SingleNodeMultiWriter,
    GetVolumeStats,
}

/// This node's id and the topology segments it advertises.
#[derive(Clone, Debug)]
pub struct NodeInfo {
    pub node_id: String,
    pub topology: Vec<(String, String)>,
}

impl NodeService {
    /// The node features this plugin offers.
    pub fn node_get_capabilities(&self) -> (r: Vec<NodeCapability>)
        ensures
            r@ == seq![
                NodeCapability::ExpandVolume,
                NodeCapability::SingleNodeMultiWriter,
                NodeCapability::GetVolumeStats,
            ],
    {
        let r = vec![
            NodeCapability::ExpandVolume,
            NodeCapability::SingleNodeMultiWriter,
            NodeCapability::GetVolumeStats,
        ];
        assert(r@ =~= seq![
            NodeCapability::ExpandVolume,
            NodeCapability::SingleNodeMultiWriter,
            NodeCapability::GetVolumeStats,
        ]);
        r
    }

    /// Reports this node's id and advertised topology.
    pub fn node_get_info(&self) -> (r: NodeInfo)
        ensures
            r.node_id@ == self.node_id@,
            r.topology@.len() == self.topology@.len(),
            forall|i: int|
                0 <= i < r.topology@.len() ==> (#[trigger] r.topology@[i]).0@
                    == self.topology@[i].0@ && r.topology@[i].1@ == self.topology@[i].1@,
    {
        let mut topology: Vec<(String, String)> = Vec::new();
        let mut i: usize = 0;
        while i < self.topology.len()
            invariant
                i <= self.topology@.len(),
                topology@.len() == i,
                forall|k: int|
                    0 <= k < i ==> (#[trigger] topology@[k]).0@ == self.topology@[k].0@
                        && topology@[k].1@ == self.topology@[k].1@,
            decreases self.topology.len() - i,
        {
            let seg = &self.topology[i];
            topology.push((seg.0.clone(), seg.1.clone()));
            i = i + 1;
        }
        NodeInfo { node_id: self.node_id.clone(), topology }
    }

    /// Staging is not offered.
    pub fn node_stage_volume(&self) -> (r: Status)
        ensures
            r.code == Code::Unimplemented,
    {
        Status::unimplemented("STAGE_UNSTAGE_VOLUME not set")
    }

    /// Staging is not offered.
    pub fn node_unstage_volume(&self) -> (r: Status)
        ensures
            r.code == Code::Unimplemented,
    {
        Status::unimplemented("STAGE_UNSTAGE_VOLUME not set")
    }
}

} // verus!
