use vstd::prelude::*;
pub use crate::capability::{parse_filesystem, parse_volume_capability};
use crate::capability::{
    check_compatible, check_requirement, check_topology, compatible, requirement_on_node,
    spec_parse_capability, spec_parse_filesystem, topology_on_node,
};
use crate::request::{
    ControllerGetVolumeRequest, ControllerPublishVolumeRequest, ControllerUnpublishVolumeRequest,
    CreateVolumeRequest, DeleteVolumeRequest, GetCapacityRequest, ListVolumesRequest,
    ValidateVolumeCapabilitiesRequest, VolumeCapability, VolumeEntry, VolumeInfo,
};
use crate::status::{fails_with, Code, Status};
use crate::text::{
    contains_str, has_infix, join_path_str, lemma_lex_asymmetric, lemma_lex_irreflexive,
    lemma_lex_total, lemma_lex_transitive, lex_lt, str_eq, str_lt, trim_leading_slash_str,
    trim_slashes, trim_slashes_str,
};
use crate::volume::{
    backing_path, configs_eq, opt_ref_view, opt_volume_view, strings_view, transition_matches,
    Filesystem, Volume, VolumeConfig, VolumeState, VolumeView, DEFAULT_VOLUME_SIZE,
};

verus! {

/// The cluster-scoped operations, for the node this plugin runs on.
pub struct ControllerService {
    /// The node that every volume created here is pinned to.
    pub node_id: String,
    /// The host directory under which volume host paths resolve.
    pub host_prefix: String,
}

/// The value of the last parameter named `key`.
pub open spec fn param_value(ps: Seq<(String, String)>, key: Seq<char>) -> Option<Seq<char>>
    decreases ps.len(),
{
    if ps.len() == 0 {
        None
    } else if ps.last().0@ == key {
        Some(ps.last().1@)
    } else {
        param_value(ps.drop_last(), key)
    }
}

/// A creation parameter is known and, for `fs_type`, names a filesystem.
pub open spec fn create_param_ok(p: (String, String)) -> bool {
    p.0@ == "host_base_path"@ || (p.0@ == "fs_type"@ && spec_parse_filesystem(p.1@) is Some)
}

pub open spec fn create_params_ok(ps: Seq<(String, String)>) -> bool {
    forall|i: int| 0 <= i < ps.len() ==> create_param_ok(#[trigger] ps[i])
}

/// The filesystem that the `fs_type` parameter names, if given.
pub open spec fn param_filesystem(ps: Seq<(String, String)>) -> Option<Filesystem> {
    match param_value(ps, "fs_type"@) {
        Some(v) => spec_parse_filesystem(v),
        None => None,
    }
}

pub open spec fn caps_parse(caps: Seq<VolumeCapability>) -> bool {
    forall|i: int| 0 <= i < caps.len() ==> (#[trigger] spec_parse_capability(caps[i])) is Some
}

pub open spec fn cap_config(c: VolumeCapability) -> VolumeConfig {
    let p = spec_parse_capability(c)->0;
    p.0
}

pub open spec fn cap_fs(c: VolumeCapability) -> Option<Filesystem> {
    let p = spec_parse_capability(c)->0;
    p.1
}

/// The filesystem of the first capability that names one.
pub open spec fn first_cap_fs(caps: Seq<VolumeCapability>) -> Option<Filesystem>
    decreases caps.len(),
{
    if caps.len() == 0 {
        None
    } else {
        match first_cap_fs(caps.drop_last()) {
            Some(f) => Some(f),
            None => cap_fs(caps.last()),
        }
    }
}

/// Every filesystem that the parameters and capabilities name is the same one.
pub open spec fn filesystems_agree(ps: Seq<(String, String)>, caps: Seq<VolumeCapability>) -> bool {
    forall|i: int|
        0 <= i < caps.len() && (#[trigger] cap_fs(caps[i])) is Some ==> {
            &&& (param_filesystem(ps) is Some ==> cap_fs(caps[i]) == param_filesystem(ps))
            &&& forall|j: int|
                0 <= j < caps.len() && (#[trigger] cap_fs(caps[j])) is Some ==> cap_fs(caps[j])
                    == cap_fs(caps[i])
        }
}

/// The filesystem a new volume gets: the parameter's, else the capabilities', else ext4.
pub open spec fn chosen_filesystem(ps: Seq<(String, String)>, caps: Seq<VolumeCapability>) -> Filesystem {
    match param_filesystem(ps) {
        Some(f) => f,
        None => match first_cap_fs(caps) {
            Some(f) => f,
            None => Filesystem::Ext4,
        },
    }
}

/// A volume name that cannot step out of the host base directory.
pub open spec fn valid_volume_name(n: Seq<char>) -> bool {
    &&& n.len() > 0
    &&& !has_infix(n, "/.."@)
    &&& !has_infix(n, "../"@)
    &&& n != ".."@
    &&& n != "."@
    &&& n != "./"@
}

/// The size a request asks for, 1 GiB when it names none.
pub open spec fn requested_size(c: Option<crate::request::CapacityRange>) -> u64 {
    match c {
        None => DEFAULT_VOLUME_SIZE,
        Some(r) => r.required_bytes as u64,
    }
}

/// Why a creation request is refused, if it is.
pub open spec fn create_request_error(req: CreateVolumeRequest, node: Seq<char>) -> Option<Code> {
    if req.name@.len() == 0 {
        Some(Code::InvalidArgument)
    } else if !requirement_on_node(req.accessibility_requirements, node) {
        Some(Code::ResourceExhausted)
    } else if !{
        &&& req.volume_capabilities@.len() > 0
        &&& create_params_ok(req.parameters@)
        &&& param_value(req.parameters@, "host_base_path"@) is Some
        &&& caps_parse(req.volume_capabilities@)
        &&& filesystems_agree(req.parameters@, req.volume_capabilities@)
        &&& valid_volume_name(req.name@)
    } {
        Some(Code::InvalidArgument)
    } else {
        None
    }
}

/// The record that a valid creation request describes.
pub open spec fn spec_new_volume(req: CreateVolumeRequest, node: Seq<char>) -> VolumeView {
    VolumeView {
        name: req.name@,
        size: requested_size(req.capacity_range),
        assigned_node_id: node,
        state: VolumeState::Open,
        published_readonly: false,
        published_config: None,
        filesystem: chosen_filesystem(req.parameters@, req.volume_capabilities@),
        valid_configs: req.volume_capabilities@.map_values(|c: VolumeCapability| cap_config(c)),
        loop_device: None,
        mount_paths: Seq::empty(),
        host_path: trim_slashes(param_value(req.parameters@, "host_base_path"@)->0) + "/"@
            + req.name@,
    }
}

/// Whether the name is one that a volume may have.
pub fn check_volume_name(name: &str) -> (r: bool)
    ensures
        r == valid_volume_name(name@),
{
    name.unicode_len() > 0 && !contains_str(name, "/..") && !contains_str(name, "../")
        && !str_eq(name, "..") && !str_eq(name, ".") && !str_eq(name, "./")
}

impl ControllerService {
    /// Checks a creation request and builds the record it describes, in state
    /// `Open`. The caller then asks the store to create that record.
    pub fn create_volume(&self, req: &CreateVolumeRequest) -> (r: Result<Volume, Status>)
        ensures
            match create_request_error(*req, self.node_id@) {
                None => r is Ok && r->Ok_0@ == spec_new_volume(*req, self.node_id@),
                Some(c) => fails_with(r, c),
            },
            r is Ok ==> r->Ok_0@.wf(),
    {
        if req.name.as_str().unicode_len() == 0 {
            return Err(Status::invalid_argument("missing name"));
        }
        if !check_requirement(&req.accessibility_requirements, self.node_id.as_str()) {
            return Err(
                Status::resource_exhausted(
                    "invalid accessibility_requirements, only allowed node=<node id>",
                ),
            );
        }
        if req.volume_capabilities.len() == 0 {
            return Err(Status::invalid_argument("no capabilities specified"));
        }
        let ghost ps = req.parameters@;
        let mut host_base_path: Option<String> = None;
        let mut param_fs: Option<Filesystem> = None;
        let mut i: usize = 0;
        while i < req.parameters.len()
            invariant
                ps == req.parameters@,
                req.name@.len() > 0,
                requirement_on_node(req.accessibility_requirements, self.node_id@),
                req.volume_capabilities@.len() > 0,
                i <= ps.len(),
                create_params_ok(ps.subrange(0, i as int)),
                crate::volume::opt_view(host_base_path) == param_value(
                    ps.subrange(0, i as int),
                    "host_base_path"@,
                ),
                param_fs == param_filesystem(ps.subrange(0, i as int)),
            decreases ps.len() - i,
        {
            let p = &req.parameters[i];
            proof {
                reveal_strlit("host_base_path");
                reveal_strlit("fs_type");
                assert("host_base_path"@ != "fs_type"@) by {
                    assert("host_base_path"@.len() != "fs_type"@.len());
                }
                let s1 = ps.subrange(0, i + 1);
                assert(s1.drop_last() =~= ps.subrange(0, i as int));
                assert(s1.last() == ps[i as int]);
            }
            if str_eq(p.0.as_str(), "host_base_path") {
                host_base_path = Some(p.1.clone());
            } else if str_eq(p.0.as_str(), "fs_type") {
                match parse_filesystem(p.1.as_str()) {
                    Ok(fs) => {
                        param_fs = Some(fs);
                    },
                    Err(e) => {
                        assert(!create_param_ok(ps[i as int]));
                        return Err(e);
                    },
                }
            } else {
                assert(!create_param_ok(ps[i as int]));
                return Err(Status::invalid_argument("unknown parameter"));
            }
            proof {
                let s1 = ps.subrange(0, i + 1);
                assert forall|k: int| 0 <= k < s1.len() implies create_param_ok(#[trigger] s1[k]) by {
                    if k < i {
                        assert(s1[k] == ps.subrange(0, i as int)[k]);
                    }
                }
            }
            i = i + 1;
        }
        assert(ps.subrange(0, ps.len() as int) =~= ps);
        let host_base_path = match host_base_path {
            Some(h) => h,
            None => {
                return Err(Status::invalid_argument("missing host_base_path"));
            },
        };

        let ghost caps = req.volume_capabilities@;
        let mut valid_configs: Vec<VolumeConfig> = Vec::new();
        let mut filesystem: Option<Filesystem> = param_fs;
        let mut i: usize = 0;
        while i < req.volume_capabilities.len()
            invariant
                caps == req.volume_capabilities@,
                req.name@.len() > 0,
                requirement_on_node(req.accessibility_requirements, self.node_id@),
                caps.len() > 0,
                create_params_ok(ps),
                param_value(ps, "host_base_path"@) is Some,
                i <= caps.len(),
                forall|j: int|
                    0 <= j < i ==> (#[trigger] spec_parse_capability(caps[j])) is Some,
                valid_configs@ == caps.subrange(0, i as int).map_values(
                    |c: VolumeCapability| cap_config(c),
                ),
                filesystem == match param_filesystem(ps) {
                    Some(f) => Some(f),
                    None => first_cap_fs(caps.subrange(0, i as int)),
                },
                forall|j: int|
                    0 <= j < i && (#[trigger] cap_fs(caps[j])) is Some ==> cap_fs(caps[j])
                        == filesystem,
                filesystem is Some && param_filesystem(ps) is None ==> exists|j: int|
                    0 <= j < i && #[trigger] cap_fs(caps[j]) == filesystem,
                ps == req.parameters@,
            decreases caps.len() - i,
        {
            let (config, fs) = match parse_volume_capability(&req.volume_capabilities[i]) {
                Ok(x) => x,
                Err(e) => {
                    proof {
                        assert(!caps_parse(caps));
                    }
                    return Err(e);
                },
            };
            proof {
                let s1 = caps.subrange(0, i + 1);
                assert(s1.drop_last() =~= caps.subrange(0, i as int));
                assert(s1.last() == caps[i as int]);
            }
            valid_configs.push(config);
            match (filesystem, fs) {
                (None, Some(_)) => {
                    filesystem = fs;
                },
                (Some(a), Some(b)) => {
                    if a != b {
                        proof {
                            if param_filesystem(ps) is None {
                                let j = choose|j: int|
                                    0 <= j < i && #[trigger] cap_fs(caps[j]) == filesystem;
                                assert(cap_fs(caps[j]) is Some);
                                assert(cap_fs(caps[i as int]) is Some);
                            } else {
                                assert(cap_fs(caps[i as int]) is Some);
                            }
                            assert(!filesystems_agree(ps, caps));
                        }
                        return Err(Status::invalid_argument("conflicting filesystems specified"));
                    }
                },
                _ => {},
            }
            proof {
                assert(valid_configs@ =~= caps.subrange(0, i + 1).map_values(
                    |c: VolumeCapability| cap_config(c),
                ));
            }
            i = i + 1;
        }
        assert(caps.subrange(0, caps.len() as int) =~= caps);
        assert(caps_parse(caps));
        assert(filesystems_agree(ps, caps));
        let filesystem = match filesystem {
            Some(f) => f,
            None => Filesystem::Ext4,
        };

        if !check_volume_name(req.name.as_str()) {
            return Err(Status::invalid_argument("invalid volume name"));
        }
        let base = trim_slashes_str(host_base_path.as_str());
        let host_path = String::from_str(base).concat("/").concat(req.name.as_str());
        let size = match req.capacity_range {
            None => DEFAULT_VOLUME_SIZE,
            Some(c) => #[verifier::truncate]
            (c.required_bytes as u64),
        };
        let v = Volume {
            name: req.name.clone(),
            size,
            assigned_node_id: self.node_id.clone(),
            state: VolumeState::Open,
            published_readonly: false,
            published_config: None,
            filesystem,
            valid_configs,
            loop_device: None,
            mount_paths: Vec::new(),
            host_path,
        };
        assert(v@.mount_paths =~= Seq::<Seq<char>>::empty());
        assert(v@ == spec_new_volume(*req, self.node_id@));
        Ok(v)
    }
}

/// What a caller learns of a volume record.
pub open spec fn info_matches(i: VolumeInfo, v: VolumeView) -> bool {
    i.volume_id@ == v.name && i.capacity_bytes == v.size && i.node_id@ == v.assigned_node_id
}

/// The identifying attributes that a repeated creation must match.
pub open spec fn same_creation(a: VolumeView, b: VolumeView) -> bool {
    &&& a.valid_configs == b.valid_configs
    &&& a.filesystem == b.filesystem
    &&& a.host_path == b.host_path
    &&& a.assigned_node_id == b.assigned_node_id
    &&& a.size == b.size
}

/// The answer to a creation whose record already exists.
pub open spec fn existing_outcome(new: VolumeView, existing: Option<VolumeView>) -> Option<Code> {
    match existing {
        None => Some(Code::AlreadyExists),
        Some(e) => if same_creation(e, new) {
            None
        } else {
            Some(Code::AlreadyExists)
        },
    }
}

/// The backing file (or directory) of a volume to remove from the host.
pub struct BackingRemoval {
    pub path: String,
    pub filesystem: Filesystem,
}

pub open spec fn delete_outcome(req: DeleteVolumeRequest, loaded: Option<VolumeView>) -> Result<
    Option<Filesystem>,
    Code,
> {
    if req.volume_id@.len() == 0 {
        Err(Code::InvalidArgument)
    } else {
        match loaded {
            None => Ok(None),
            Some(v) => if v.state != VolumeState::Open {
                Err(Code::FailedPrecondition)
            } else {
                Ok(Some(v.filesystem))
            },
        }
    }
}

pub open spec fn controller_publish_outcome(
    req: ControllerPublishVolumeRequest,
    loaded: Option<VolumeView>,
) -> Result<Option<VolumeView>, Code> {
    if req.volume_id@.len() == 0 || req.node_id@.len() == 0 || req.volume_capability is None {
        Err(Code::InvalidArgument)
    } else {
        match loaded {
            None => Err(Code::NotFound),
            Some(v) => if v.assigned_node_id != req.node_id@ {
                Err(Code::NotFound)
            } else {
                match spec_parse_capability(req.volume_capability->0) {
                    None => Err(Code::InvalidArgument),
                    Some((cfg, fs)) => if !compatible(v, cfg, fs) {
                        Err(Code::AlreadyExists)
                    } else {
                        match v.state {
                            VolumeState::NodePublished => Err(Code::FailedPrecondition),
                            VolumeState::ControllerPublished => if v.published_config == Some(cfg)
                                && v.published_readonly == req.readonly {
                                Ok(None)
                            } else {
                                Err(Code::AlreadyExists)
                            },
                            VolumeState::Open => Ok(
                                Some(
                                    VolumeView {
                                        state: VolumeState::ControllerPublished,
                                        published_config: Some(cfg),
                                        published_readonly: req.readonly,
                                        ..v
                                    },
                                ),
                            ),
                        }
                    },
                }
            },
        }
    }
}

pub open spec fn controller_unpublish_outcome(
    req: ControllerUnpublishVolumeRequest,
    loaded: Option<VolumeView>,
) -> Result<Option<VolumeView>, Code> {
    if req.volume_id@.len() == 0 {
        Err(Code::InvalidArgument)
    } else {
        match loaded {
            None => Ok(None),
            Some(v) => match v.state {
                VolumeState::NodePublished => Err(Code::FailedPrecondition),
                VolumeState::Open => Ok(None),
                VolumeState::ControllerPublished => Ok(
                    Some(
                        VolumeView {
                            state: VolumeState::Open,
                            published_config: None,
                            published_readonly: false,
                            ..v
                        },
                    ),
                ),
            },
        }
    }
}

/// What checking one capability against a volume says: nothing when it is
/// admitted.
pub open spec fn capability_verdict(v: VolumeView, c: VolumeCapability) -> Option<Code> {
    match spec_parse_capability(c) {
        None => Some(Code::InvalidArgument),
        Some((cfg, fs)) => if compatible(v, cfg, fs) {
            None
        } else {
            Some(Code::AlreadyExists)
        },
    }
}

/// The verdict of the first capability in `caps` that is not admitted.
pub open spec fn first_verdict(v: VolumeView, caps: Seq<VolumeCapability>) -> Option<Code>
    decreases caps.len(),
{
    if caps.len() == 0 {
        None
    } else {
        match capability_verdict(v, caps[0]) {
            Some(c) => Some(c),
            None => first_verdict(v, caps.drop_first()),
        }
    }
}

pub open spec fn validate_outcome(req: ValidateVolumeCapabilitiesRequest, loaded: Option<VolumeView>) -> Option<Code> {
    if req.volume_id@.len() == 0 || req.volume_capabilities@.len() == 0 {
        Some(Code::InvalidArgument)
    } else {
        match loaded {
            None => Some(Code::NotFound),
            Some(v) => first_verdict(v, req.volume_capabilities@),
        }
    }
}

/// The report of a volume: its info and, while it is mounted, its node.
pub open spec fn entry_matches(e: VolumeEntry, v: VolumeView) -> bool {
    &&& info_matches(e.volume, v)
    &&& v.state == VolumeState::NodePublished ==> strings_view(e.published_node_ids@) == seq![
        v.assigned_node_id,
    ]
    &&& v.state != VolumeState::NodePublished ==> e.published_node_ids@.len() == 0
}

/// Builds what a caller learns of a volume record.
pub fn volume_info(v: &Volume) -> (r: VolumeInfo)
    ensures
        info_matches(r, v@),
{
    VolumeInfo {
        volume_id: v.name.clone(),
        capacity_bytes: v.size,
        node_id: v.assigned_node_id.clone(),
    }
}

/// Builds the report of a volume: its info and, while it is mounted, its node.
pub fn volume_entry(v: &Volume) -> (r: VolumeEntry)
    ensures
        entry_matches(r, v@),
{
    let mut published_node_ids: Vec<String> = Vec::new();
    if v.state == VolumeState::NodePublished {
        published_node_ids.push(v.assigned_node_id.clone());
        assert(strings_view(published_node_ids@) =~= seq![v.assigned_node_id@]);
    }
    VolumeEntry { volume: volume_info(v), published_node_ids }
}

impl ControllerService {
    /// Where a volume's backing file (or directory) lies on the host.
    pub fn backing_path(&self, v: &Volume) -> (r: String)
        ensures
            r@ == backing_path(self.host_prefix@, v.host_path@),
    {
        join_path_str(self.host_prefix.as_str(), trim_leading_slash_str(v.host_path.as_str()))
    }

    /// Answers a creation whose record the store already holds: the repeat
    /// succeeds only when it asks for exactly what the stored record has.
    pub fn create_volume_existing(new_volume: &Volume, existing: Option<Volume>) -> (r: Result<
        VolumeInfo,
        Status,
    >)
        ensures
            match existing_outcome(new_volume@, opt_volume_view(existing)) {
                None => r is Ok && info_matches(r->Ok_0, new_volume@),
                Some(c) => fails_with(r, c),
            },
    {
        let existing = match existing {
            Some(e) => e,
            None => {
                return Err(Status::already_exists("volume name already exists"));
            },
        };
        if !(configs_eq(&existing.valid_configs, &new_volume.valid_configs) && existing.filesystem
            == new_volume.filesystem && existing.host_path == new_volume.host_path
            && existing.assigned_node_id == new_volume.assigned_node_id && existing.size
            == new_volume.size) {
            return Err(Status::already_exists("volume name already exists"));
        }
        Ok(volume_info(new_volume))
    }

    /// Answers a creation after the caller tried to make the backing of a newly
    /// stored record; when that failed the caller removes the record again.
    pub fn create_volume_finish(new_volume: &Volume, backing_made: bool) -> (r: Result<
        VolumeInfo,
        Status,
    >)
        ensures
            backing_made ==> r is Ok && info_matches(r->Ok_0, new_volume@),
            !backing_made ==> fails_with(r, Code::Internal),
    {
        if !backing_made {
            return Err(Status::internal("internal failure"));
        }
        Ok(volume_info(new_volume))
    }

    /// Decides a deletion of the record `loaded` (the one named by the
    /// request, if the store holds it): `Ok(None)` when there is nothing to
    /// delete, else the backing to remove before the record is deleted.
    pub fn delete_volume(&self, req: &DeleteVolumeRequest, loaded: Option<&Volume>) -> (r: Result<
        Option<BackingRemoval>,
        Status,
    >)
        ensures
            match delete_outcome(*req, opt_ref_view(loaded)) {
                Ok(None) => r is Ok && r->Ok_0 is None,
                Ok(Some(fs)) => r is Ok && r->Ok_0 is Some && r->Ok_0->0.filesystem == fs
                    && r->Ok_0->0.path@ == backing_path(self.host_prefix@, loaded->0.host_path@),
                Err(c) => fails_with(r, c),
            },
    {
        if req.volume_id.as_str().unicode_len() == 0 {
            return Err(Status::invalid_argument("missing volume_id"));
        }
        match loaded {
            None => Ok(None),
            Some(v) => {
                if v.state != VolumeState::Open {
                    return Err(Status::failed_precondition("volume is in use"));
                }
                Ok(Some(BackingRemoval { path: self.backing_path(v), filesystem: v.filesystem }))
            },
        }
    }

    /// Decides a controller publish of the record `loaded`.
    pub fn controller_publish_volume(
        &self,
        req: &ControllerPublishVolumeRequest,
        loaded: Option<Volume>,
    ) -> (r: Result<Option<Volume>, Status>)
        requires
            loaded is Some ==> loaded->0@.wf(),
        ensures
            transition_matches(r, controller_publish_outcome(*req, opt_volume_view(loaded))),
            r is Ok && r->Ok_0 is Some ==> r->Ok_0->0@.wf(),
            r is Ok && r->Ok_0 is Some ==> loaded->0@.evolves_to(r->Ok_0->0@),
    {
        if req.volume_id.as_str().unicode_len() == 0 {
            return Err(Status::invalid_argument("missing volume_id"));
        }
        if req.node_id.as_str().unicode_len() == 0 {
            return Err(Status::invalid_argument("missing node_id"));
        }
        let capability = match &req.volume_capability {
            Some(c) => c,
            None => {
                return Err(Status::invalid_argument("no capabilities specified"));
            },
        };
        let mut volume = match loaded {
            Some(v) => v,
            None => {
                return Err(Status::not_found("volume_id not found"));
            },
        };
        if volume.assigned_node_id != req.node_id {
            return Err(Status::not_found("volume is locked to another node"));
        }
        let (config, filesystem) = match parse_volume_capability(capability) {
            Ok(x) => x,
            Err(e) => {
                return Err(e);
            },
        };
        if !check_compatible(&volume.valid_configs, volume.filesystem, config, filesystem) {
            return Err(Status::already_exists("incompatible volume_capability"));
        }
        match volume.state {
            VolumeState::NodePublished => {
                Err(Status::failed_precondition("volume currently mounted on node"))
            },
            VolumeState::ControllerPublished => {
                let same_config = match volume.published_config {
                    Some(c) => c == config,
                    None => false,
                };
                if !same_config || volume.published_readonly != req.readonly {
                    return Err(Status::already_exists("incompatible volume_capability"));
                }
                Ok(None)
            },
            VolumeState::Open => {
                volume.published_config = Some(config);
                volume.state = VolumeState::ControllerPublished;
                volume.published_readonly = req.readonly;
                Ok(Some(volume))
            },
        }
    }

    /// Decides a controller unpublish of the record `loaded`.
    pub fn controller_unpublish_volume(
        &self,
        req: &ControllerUnpublishVolumeRequest,
        loaded: Option<Volume>,
    ) -> (r: Result<Option<Volume>, Status>)
        requires
            loaded is Some ==> loaded->0@.wf(),
        ensures
            transition_matches(r, controller_unpublish_outcome(*req, opt_volume_view(loaded))),
            r is Ok && r->Ok_0 is Some ==> r->Ok_0->0@.wf(),
            r is Ok && r->Ok_0 is Some ==> loaded->0@.evolves_to(r->Ok_0->0@),
    {
        if req.volume_id.as_str().unicode_len() == 0 {
            return Err(Status::invalid_argument("missing volume_id"));
        }
        let mut volume = match loaded {
            Some(v) => v,
            None => {
                return Ok(None);
            },
        };
        match volume.state {
            VolumeState::NodePublished => {
                return Err(Status::failed_precondition("volume currently mounted on node"));
            },
            VolumeState::Open => {
                return Ok(None);
            },
            VolumeState::ControllerPublished => {},
        }
        volume.state = VolumeState::Open;
        volume.published_config = None;
        volume.published_readonly = false;
        Ok(Some(volume))
    }

    /// Checks capabilities against the record `loaded`; on success the caller
    /// confirms them as given.
    pub fn validate_volume_capabilities(
        &self,
        req: &ValidateVolumeCapabilitiesRequest,
        loaded: Option<&Volume>,
    ) -> (r: Result<(), Status>)
        ensures
            match validate_outcome(*req, opt_ref_view(loaded)) {
                None => r is Ok,
                Some(c) => fails_with(r, c),
            },
    {
        if req.volume_id.as_str().unicode_len() == 0 {
            return Err(Status::invalid_argument("missing volume_id"));
        }
        if req.volume_capabilities.len() == 0 {
            return Err(Status::invalid_argument("no capabilities specified"));
        }
        let volume = match loaded {
            Some(v) => v,
            None => {
                return Err(Status::not_found("volume_id not found"));
            },
        };
        let ghost caps = req.volume_capabilities@;
        let mut i: usize = 0;
        assert(caps.subrange(0, caps.len() as int) =~= caps);
        while i < req.volume_capabilities.len()
            invariant
                caps == req.volume_capabilities@,
                loaded == Some(volume),
                req.volume_id@.len() > 0,
                caps.len() > 0,
                i <= caps.len(),
                first_verdict(volume@, caps) == first_verdict(
                    volume@,
                    caps.subrange(i as int, caps.len() as int),
                ),
            decreases caps.len() - i,
        {
            let ghost rest = caps.subrange(i as int, caps.len() as int);
            assert(rest[0] == caps[i as int]);
            assert(rest.drop_first() =~= caps.subrange(i + 1, caps.len() as int));
            match parse_volume_capability(&req.volume_capabilities[i]) {
                Err(e) => {
                    return Err(e);
                },
                Ok((config, filesystem)) => {
                    if !check_compatible(
                        &volume.valid_configs,
                        volume.filesystem,
                        config,
                        filesystem,
                    ) {
                        return Err(Status::already_exists("incompatible volume_capability"));
                    }
                },
            }
            i = i + 1;
        }
        Ok(())
    }

    /// Reports a volume record, or `NotFound` when the store holds none.
    pub fn controller_get_volume(
        &self,
        req: &ControllerGetVolumeRequest,
        loaded: Option<&Volume>,
    ) -> (r: Result<VolumeEntry, Status>)
        ensures
            req.volume_id@.len() == 0 ==> fails_with(r, Code::InvalidArgument),
            req.volume_id@.len() > 0 && loaded is None ==> fails_with(r, Code::NotFound),
            req.volume_id@.len() > 0 && loaded is Some ==> r is Ok && entry_matches(
                r->Ok_0,
                loaded->0@,
            ),
    {
        if req.volume_id.as_str().unicode_len() == 0 {
            return Err(Status::invalid_argument("missing volume_id"));
        }
        match loaded {
            None => Err(Status::not_found("volume_id not found")),
            Some(v) => Ok(volume_entry(v)),
        }
    }
}

/// The controller features this plugin advertises.
#[derive(Clone, Copy, Debug, PartialEq, Eq, Structural)]
pub enum ControllerCapability {
    CreateDeleteVolume,
    PublishUnpublishVolume,
    GetVolume,
    ListVolumes,
    ListVolumesPublishedNodes,
    SingleNodeMultiWriter,
    GetCapacity,
    PublishReadonly,
}

/// Why a capacity request is refused, if it is.
pub open spec fn capacity_request_error(req: GetCapacityRequest, node: Seq<char>) -> Option<Code> {
    if req.accessible_topology is Some && !topology_on_node(req.accessible_topology->0, node) {
        Some(Code::ResourceExhausted)
    } else if exists|i: int|
        0 <= i < req.parameters@.len() && (#[trigger] req.parameters@[i]).0@ != "host_base_path"@ {
        Some(Code::InvalidArgument)
    } else {
        None
    }
}

impl ControllerService {
    /// Decides a capacity request: `Ok(None)` when no base path is named (the
    /// capacity is then 0), else the path whose free space the caller reads.
    pub fn get_capacity(&self, req: &GetCapacityRequest) -> (r: Result<Option<String>, Status>)
        ensures
            match capacity_request_error(*req, self.node_id@) {
                None => r is Ok && crate::volume::opt_view(r->Ok_0) == param_value(
                    req.parameters@,
                    "host_base_path"@,
                ),
                Some(c) => fails_with(r, c),
            },
    {
        if let Some(t) = &req.accessible_topology {
            if !check_topology(t, self.node_id.as_str()) {
                return Err(
                    Status::resource_exhausted(
                        "invalid accessibility_requirements, only allowed node=<node id>",
                    ),
                );
            }
        }
        let ghost ps = req.parameters@;
        let mut host_base_path: Option<String> = None;
        let mut i: usize = 0;
        while i < req.parameters.len()
            invariant
                ps == req.parameters@,
                capacity_request_error(*req, self.node_id@) != Some(Code::ResourceExhausted),
                i <= ps.len(),
                forall|k: int| 0 <= k < i ==> (#[trigger] ps[k]).0@ == "host_base_path"@,
                crate::volume::opt_view(host_base_path) == param_value(
                    ps.subrange(0, i as int),
                    "host_base_path"@,
                ),
            decreases ps.len() - i,
        {
            let p = &req.parameters[i];
            proof {
                let s1 = ps.subrange(0, i + 1);
                assert(s1.drop_last() =~= ps.subrange(0, i as int));
                assert(s1.last() == ps[i as int]);
            }
            if !str_eq(p.0.as_str(), "host_base_path") {
                assert(ps[i as int].0@ != "host_base_path"@);
                return Err(Status::invalid_argument("unknown parameter"));
            }
            host_base_path = Some(p.1.clone());
            i = i + 1;
        }
        assert(ps.subrange(0, ps.len() as int) =~= ps);
        Ok(host_base_path)
    }

    /// The controller features this plugin offers.
    pub fn controller_get_capabilities(&self) -> (r: Vec<ControllerCapability>)
        ensures
            r@ == seq![
                ControllerCapability::CreateDeleteVolume,
                ControllerCapability::PublishUnpublishVolume,
                ControllerCapability::GetVolume,
                ControllerCapability::ListVolumes,
                ControllerCapability::ListVolumesPublishedNodes,
                ControllerCapability::SingleNodeMultiWriter,
                ControllerCapability::GetCapacity,
                ControllerCapability::PublishReadonly,
            ],
    {
        let r = vec![
            ControllerCapability::CreateDeleteVolume,
            ControllerCapability::PublishUnpublishVolume,
            ControllerCapability::GetVolume,
            ControllerCapability::ListVolumes,
            ControllerCapability::ListVolumesPublishedNodes,
            ControllerCapability::SingleNodeMultiWriter,
            ControllerCapability::GetCapacity,
            ControllerCapability::PublishReadonly,
        ];
        assert(r@ =~= seq![
            ControllerCapability::CreateDeleteVolume,
            ControllerCapability::PublishUnpublishVolume,
            ControllerCapability::GetVolume,
            ControllerCapability::ListVolumes,
            ControllerCapability::ListVolumesPublishedNodes,
            ControllerCapability::SingleNodeMultiWriter,
            ControllerCapability::GetCapacity,
            ControllerCapability::PublishReadonly,
        ]);
        r
    }

    /// Snapshots are not offered.
    pub fn create_snapshot(&self) -> (r: Status)
        ensures
            r.code == Code::Unimplemented,
    {
        Status::unimplemented("controller doesn't have CREATE_DELETE_SNAPSHOT capability")
    }

    /// Snapshots are not offered.
    pub fn delete_snapshot(&self) -> (r: Status)
        ensures
            r.code == Code::Unimplemented,
    {
        Status::unimplemented("controller doesn't have CREATE_DELETE_SNAPSHOT capability")
    }

    /// Snapshots are not offered.
    pub fn list_snapshots(&self) -> (r: Status)
        ensures
            r.code == Code::Unimplemented,
    {
        Status::unimplemented("controller doesn't have LIST_SNAPSHOTS capability")
    }

    /// Volumes grow on the node, not through the controller.
    pub fn controller_expand_volume(&self) -> (r: Status)
        ensures
            r.code == Code::Unimplemented,
    {
        Status::unimplemented("controller requires node expansion")
    }
}

/// One page of the volume listing.
pub struct ListVolumesPage {
    pub entries: Vec<VolumeEntry>,
    /// The token for the next page; empty when this page is the last.
    pub next_token: String,
}

/// `e` reports one of the records `vs`.
pub open spec fn listed_from(vs: Seq<Volume>, e: VolumeEntry) -> bool {
    exists|i: int| 0 <= i < vs.len() && #[trigger] entry_matches(e, vs[i]@)
}

/// A name comes after a starting token (every name does when it is empty).
pub open spec fn above(tok: Seq<char>, n: Seq<char>) -> bool {
    tok.len() == 0 || lex_lt(tok, n)
}

pub open spec fn names_of(vs: Seq<Volume>) -> Seq<Seq<char>> {
    vs.map_values(|v: Volume| v@.name)
}

pub open spec fn entry_names(es: Seq<VolumeEntry>) -> Seq<Seq<char>> {
    es.map_values(|e: VolumeEntry| e.volume.volume_id@)
}

/// A starting token is empty or names a record.
pub open spec fn token_known(names: Seq<Seq<char>>, tok: Seq<char>) -> bool {
    tok.len() == 0 || names.contains(tok)
}

/// Some listed name after `tok` is not in `out`.
pub open spec fn names_left(names: Seq<Seq<char>>, tok: Seq<char>, out: Seq<Seq<char>>) -> bool {
    exists|i: int| 0 <= i < names.len() && above(tok, #[trigger] names[i]) && !out.contains(names[i])
}

/// `out` and `next` are the page of `names` after `tok` holding at most
/// `max` entries (any number when `max <= 0`): the first names after `tok`
/// in lexicographic order, and the last of them as the next token when
/// names are left over.
pub open spec fn page_ok(
    names: Seq<Seq<char>>,
    tok: Seq<char>,
    max: i32,
    out: Seq<Seq<char>>,
    next: Seq<char>,
) -> bool {
    &&& forall|k: int, l: int| 0 <= k < l < out.len() ==> lex_lt(#[trigger] out[k], #[trigger] out[l])
    &&& forall|k: int| 0 <= k < out.len() ==> names.contains(#[trigger] out[k]) && above(tok, out[k])
    &&& forall|i: int|
        0 <= i < names.len() && above(tok, #[trigger] names[i]) && !out.contains(names[i]) ==> forall|k: int|
            0 <= k < out.len() ==> lex_lt(#[trigger] out[k], names[i])
    &&& max > 0 ==> out.len() <= max
    &&& (max <= 0 || out.len() < max) ==> !names_left(names, tok, out)
    &&& next == if names_left(names, tok, out) {
        out.last()
    } else {
        Seq::<char>::empty()
    }
}

/// A name comes after the last one listed, or after the token when none is.
pub open spec fn beyond(names: Seq<Seq<char>>, tok: Seq<char>, last: Option<usize>, n: Seq<char>) -> bool {
    match last {
        None => above(tok, n),
        Some(j) => lex_lt(names[j as int], n),
    }
}

proof fn lemma_distinct_within(out: Seq<Seq<char>>, names: Seq<Seq<char>>)
    requires
        forall|k: int, l: int| 0 <= k < l < out.len() ==> lex_lt(#[trigger] out[k], #[trigger] out[l]),
        forall|k: int| 0 <= k < out.len() ==> names.contains(#[trigger] out[k]),
    ensures
        out.len() <= names.len(),
{
    assert(out.no_duplicates()) by {
        assert forall|k: int, l: int| 0 <= k < out.len() && 0 <= l < out.len() && k != l implies out[k]
            != out[l] by {
            lemma_lex_irreflexive(out[k]);
            if k < l {
                assert(lex_lt(out[k], out[l]));
            } else {
                assert(lex_lt(out[l], out[k]));
            }
        }
    }
    out.unique_seq_to_set();
    names.lemma_cardinality_of_set();
    assert(out.to_set().subset_of(names.to_set())) by {
        assert forall|x: Seq<char>| out.to_set().contains(x) implies names.to_set().contains(x) by {
            let k = choose|k: int| 0 <= k < out.len() && out[k] == x;
            assert(names.contains(out[k]));
        }
    }
    vstd::set_lib::lemma_len_subset(out.to_set(), names.to_set());
}

/// Whether `n` comes after the last listed name, or after `tok` when none is.
fn is_beyond(volumes: &Vec<Volume>, tok: &String, last: Option<usize>, n: &String) -> (r: bool)
    requires
        last is Some ==> last->0 < volumes@.len(),
    ensures
        r == beyond(names_of(volumes@), tok@, last, n@),
{
    match last {
        None => tok.as_str().unicode_len() == 0 || str_lt(tok.as_str(), n.as_str()),
        Some(j) => str_lt(volumes[j].name.as_str(), n.as_str()),
    }
}

/// The record with the least name beyond the last one listed.
fn select_next(volumes: &Vec<Volume>, tok: &String, last: Option<usize>) -> (r: Option<usize>)
    requires
        last is Some ==> last->0 < volumes@.len(),
    ensures
        r is None ==> forall|i: int|
            0 <= i < volumes@.len() ==> !beyond(names_of(volumes@), tok@, last, #[trigger] names_of(volumes@)[i]),
        r is Some ==> {
            let names = names_of(volumes@);
            &&& r->0 < volumes@.len()
            &&& beyond(names, tok@, last, names[r->0 as int])
            &&& forall|i: int|
                0 <= i < volumes@.len() && beyond(names, tok@, last, #[trigger] names[i]) ==> !lex_lt(
                    names[i],
                    names[r->0 as int],
                )
        },
{
    let ghost names = names_of(volumes@);
    let mut best: Option<usize> = None;
    let mut j: usize = 0;
    while j < volumes.len()
        invariant
            names == names_of(volumes@),
            last is Some ==> last->0 < volumes@.len(),
            j <= volumes@.len(),
            best is None ==> forall|i: int| 0 <= i < j ==> !beyond(names, tok@, last, #[trigger] names[i]),
            best is Some ==> {
                &&& best->0 < j
                &&& beyond(names, tok@, last, names[best->0 as int])
                &&& forall|i: int|
                    0 <= i < j && beyond(names, tok@, last, #[trigger] names[i]) ==> !lex_lt(
                        names[i],
                        names[best->0 as int],
                    )
            },
        decreases volumes.len() - j,
    {
        assert(names[j as int] == volumes@[j as int].name@);
        if is_beyond(volumes, tok, last, &volumes[j.clone()].name) {
            let take = match best {
                None => true,
                Some(b) => {
                    assert(names[b as int] == volumes@[b as int].name@);
                    str_lt(volumes[j].name.as_str(), volumes[b].name.as_str())
                },
            };
            if take {
                proof {
                    if best is Some {
                        let b = best->0 as int;
                        assert forall|i: int|
                            0 <= i < j + 1 && beyond(names, tok@, last, #[trigger] names[i]) implies !lex_lt(
                            names[i],
                            names[j as int],
                        ) by {
                            if i < j && lex_lt(names[i], names[j as int]) {
                                lemma_lex_transitive(names[i], names[j as int], names[b]);
                            }
                            if i == j {
                                lemma_lex_irreflexive(names[i]);
                            }
                        }
                    } else {
                        assert forall|i: int|
                            0 <= i < j + 1 && beyond(names, tok@, last, #[trigger] names[i]) implies !lex_lt(
                            names[i],
                            names[j as int],
                        ) by {
                            lemma_lex_irreflexive(names[i]);
                        }
                    }
                }
                best = Some(j);
            }
        }
        j = j + 1;
    }
    best
}

impl ControllerService {
    /// Lists the records `volumes` (all that the store holds) one page at a
    /// time, in lexicographic order of their names.
    pub fn list_volumes(&self, req: &ListVolumesRequest, volumes: &Vec<Volume>) -> (r: Result<
        ListVolumesPage,
        Status,
    >)
        ensures
            !token_known(names_of(volumes@), req.starting_token@) ==> fails_with(r, Code::Aborted),
            token_known(names_of(volumes@), req.starting_token@) ==> r is Ok && page_ok(
                names_of(volumes@),
                req.starting_token@,
                req.max_entries,
                entry_names(r->Ok_0.entries@),
                r->Ok_0.next_token@,
            ),
            r is Ok ==> forall|k: int|
                0 <= k < r->Ok_0.entries@.len() ==> listed_from(volumes@, #[trigger] r->Ok_0.entries@[k]),
    {
        let ghost names = names_of(volumes@);
        let ghost tok = req.starting_token@;
        let n = volumes.len();
        if req.starting_token.as_str().unicode_len() > 0 {
            let mut found = false;
            let mut i: usize = 0;
            while i < n
                invariant
                    n == volumes@.len(),
                    names == names_of(volumes@),
                    tok == req.starting_token@,
                    i <= n,
                    found == exists|j: int| 0 <= j < i && #[trigger] names[j] == tok,
                decreases n - i,
            {
                assert(names[i as int] == volumes@[i as int].name@);
                if volumes[i].name == req.starting_token {
                    found = true;
                }
                i = i + 1;
            }
            if !found {
                return Err(Status::aborted("invalid starting_token"));
            }
        }
        let mut entries: Vec<VolumeEntry> = Vec::new();
        let ghost mut out: Seq<Seq<char>> = Seq::empty();
        let mut last: Option<usize> = None;
        let mut stop = false;
        let mut capped = false;
        while !stop
            invariant
                n == volumes@.len(),
                names == names_of(volumes@),
                tok == req.starting_token@,
                entry_names(entries@) == out,
                entries@.len() == out.len(),
                forall|k: int, l: int|
                    0 <= k < l < out.len() ==> lex_lt(#[trigger] out[k], #[trigger] out[l]),
                forall|k: int|
                    0 <= k < out.len() ==> names.contains(#[trigger] out[k]) && above(tok, out[k]),
                forall|i: int|
                    0 <= i < names.len() && above(tok, #[trigger] names[i]) && !out.contains(
                        names[i],
                    ) ==> forall|k: int| 0 <= k < out.len() ==> lex_lt(#[trigger] out[k], names[i]),
                last is None <==> out.len() == 0,
                last is Some ==> last->0 < n && names[last->0 as int] == out.last(),
                out.len() <= n,
                req.max_entries > 0 ==> out.len() <= req.max_entries,
                forall|k: int|
                    0 <= k < entries@.len() ==> listed_from(volumes@, #[trigger] entries@[k]),
                capped ==> stop,
                stop && capped ==> req.max_entries > 0 && out.len() == req.max_entries,
                stop && !capped ==> forall|i: int|
                    0 <= i < n ==> !beyond(names, tok, last, #[trigger] names[i]),
            decreases 2 * (n - out.len()) + if stop { 0int } else { 1int },
        {
            if req.max_entries > 0 && entries.len() >= req.max_entries as usize {
                stop = true;
                capped = true;
            } else {
                match select_next(volumes, &req.starting_token, last) {
                    None => {
                        stop = true;
                    },
                    Some(b) => {
                        let ghost nb = names[b as int];
                        assert(nb == volumes@[b as int].name@);
                        proof {
                            if out.len() > 0 {
                                let lst = out.last();
                                assert(lex_lt(lst, nb));
                                assert forall|k: int| 0 <= k < out.len() implies lex_lt(
                                    #[trigger] out[k],
                                    nb,
                                ) by {
                                    if k < out.len() - 1 {
                                        lemma_lex_transitive(out[k], lst, nb);
                                    }
                                }
                                if tok.len() > 0 {
                                    lemma_lex_transitive(tok, lst, nb);
                                }
                            }
                        }
                        let e = volume_entry(&volumes[b]);
                        entries.push(e);
                        let ghost old_out = out;
                        proof {
                            out = out.push(nb);
                            assert(entry_names(entries@) =~= out);
                            assert(names.contains(nb)) by {
                                assert(names[b as int] == nb);
                            }
                            assert forall|k: int, l: int|
                                0 <= k < l < out.len() implies lex_lt(
                                #[trigger] out[k],
                                #[trigger] out[l],
                            ) by {
                                if l < old_out.len() {
                                    assert(out[k] == old_out[k] && out[l] == old_out[l]);
                                } else {
                                    assert(out[k] == old_out[k]);
                                }
                            }
                            assert forall|k: int| 0 <= k < out.len() implies names.contains(
                                #[trigger] out[k],
                            ) && above(tok, out[k]) by {
                                if k < old_out.len() {
                                    assert(out[k] == old_out[k]);
                                }
                            }
                            assert forall|i: int|
                                0 <= i < names.len() && above(tok, #[trigger] names[i])
                                    && !out.contains(names[i]) implies forall|k: int|
                                0 <= k < out.len() ==> lex_lt(#[trigger] out[k], names[i]) by {
                                let ni = names[i];
                                assert(!old_out.contains(ni)) by {
                                    if old_out.contains(ni) {
                                        let k = choose|k: int| 0 <= k < old_out.len() && old_out[k] == ni;
                                        assert(out[k] == ni);
                                    }
                                }
                                assert(ni != nb) by {
                                    assert(out[old_out.len() as int] == nb);
                                }
                                assert(beyond(names, tok, last, ni));
                                assert(!lex_lt(ni, nb));
                                lemma_lex_total(ni, nb);
                                assert forall|k: int| 0 <= k < out.len() implies lex_lt(
                                    #[trigger] out[k],
                                    ni,
                                ) by {
                                    if k < old_out.len() {
                                        assert(out[k] == old_out[k]);
                                    }
                                }
                            }
                            assert forall|k: int| 0 <= k < entries@.len() implies listed_from(
                                volumes@,
                                #[trigger] entries@[k],
                            ) by {
                                if k == entries@.len() - 1 {
                                    assert(entry_matches(entries@[k], volumes@[b as int]@));
                                }
                            }
                            lemma_distinct_within(out, names);
                        }
                        last = Some(b);
                    },
                }
            }
        }
        proof {
            if !capped {
                assert(!names_left(names, tok, out)) by {
                    if names_left(names, tok, out) {
                        let i = choose|i: int|
                            0 <= i < names.len() && above(tok, #[trigger] names[i]) && !out.contains(
                                names[i],
                            );
                        if out.len() > 0 {
                            assert(lex_lt(out[out.len() - 1], names[i]));
                        }
                        assert(!beyond(names, tok, last, names[i]));
                    }
                }
            }
        }
        let mut next_token = String::new();
        if capped {
            if let Some(b) = select_next(volumes, &req.starting_token, last) {
                proof {
                    let nb = names[b as int];
                    let lst = out.last();
                    assert(lex_lt(lst, nb));
                    assert(above(tok, nb)) by {
                        if tok.len() > 0 {
                            lemma_lex_transitive(tok, lst, nb);
                        }
                    }
                    assert(!out.contains(nb)) by {
                        if out.contains(nb) {
                            let k = choose|k: int| 0 <= k < out.len() && out[k] == nb;
                            if k == out.len() - 1 {
                                lemma_lex_irreflexive(nb);
                            } else {
                                assert(lex_lt(out[k], lst));
                                lemma_lex_asymmetric(lst, nb);
                            }
                        }
                    }
                    assert(names_left(names, tok, out));
                }
                match last {
                    Some(l) => {
                        next_token = volumes[l].name.clone();
                    },
                    None => {},
                }
            } else {
                proof {
                    assert(!names_left(names, tok, out)) by {
                        if names_left(names, tok, out) {
                            let i = choose|i: int|
                                0 <= i < names.len() && above(tok, #[trigger] names[i])
                                    && !out.contains(names[i]);
                            if out.len() > 0 {
                                assert(lex_lt(out[out.len() - 1], names[i]));
                            }
                            assert(!beyond(names, tok, last, names[i]));
                        }
                    }
                }
            }
        }
        Ok(ListVolumesPage { entries, next_token })
    }
}

} // verus!
