use lvp::controller::ControllerService;
use lvp::node::{NodePublishStep, NodeService, NodeUnpublishStep, NodeExpandStep};
use lvp::request::{
    AccessMode, AccessType, CapacityRange, ControllerPublishVolumeRequest,
    ControllerUnpublishVolumeRequest, CreateVolumeRequest, DeleteVolumeRequest, MountVolume,
    NodeExpandVolumeRequest, NodePublishVolumeRequest, NodeUnpublishVolumeRequest,
    VolumeCapability,
};
use lvp::status::Code;
use lvp::volume::{Filesystem, Volume, VolumeConfig, VolumeMode, VolumeState};

const GIB: u64 = 1073741824;

fn controller() -> ControllerService {
    ControllerService { node_id: "node-1".to_string(), host_prefix: "/host".to_string() }
}

fn node() -> NodeService {
    NodeService {
        node_id: "node-1".to_string(),
        topology: vec![("node".to_string(), "node-1".to_string())],
        host_prefix: "/host".to_string(),
    }
}

fn cap(mode: AccessMode, fs: &str) -> VolumeCapability {
    VolumeCapability {
        access_mode: Some(mode),
        access_type: Some(AccessType::Mount(MountVolume {
            fs_type: fs.to_string(),
            mount_flags: vec![],
        })),
    }
}

fn create_req(name: &str, size: Option<i64>, fs: &str, mode: AccessMode) -> CreateVolumeRequest {
    CreateVolumeRequest {
        name: name.to_string(),
        capacity_range: size.map(|s| CapacityRange { required_bytes: s, limit_bytes: 0 }),
        volume_capabilities: vec![cap(mode, "")],
        parameters: vec![
            ("host_base_path".to_string(), "/data".to_string()),
            ("fs_type".to_string(), fs.to_string()),
        ],
        accessibility_requirements: None,
    }
}

fn publish_req(id: &str, mode: AccessMode, readonly: bool) -> ControllerPublishVolumeRequest {
    ControllerPublishVolumeRequest {
        volume_id: id.to_string(),
        node_id: "node-1".to_string(),
        volume_capability: Some(cap(mode, "")),
        readonly,
    }
}

fn node_publish_req(id: &str, target: &str, mode: AccessMode) -> NodePublishVolumeRequest {
    NodePublishVolumeRequest {
        volume_id: id.to_string(),
        target_path: target.to_string(),
        volume_capability: Some(cap(mode, "")),
        readonly: false,
    }
}

fn node_unpublish_req(id: &str, target: &str) -> NodeUnpublishVolumeRequest {
    NodeUnpublishVolumeRequest { volume_id: id.to_string(), target_path: target.to_string() }
}

/// A volume created, then published to the controller in `mode`.
fn controller_published(name: &str, mode: AccessMode) -> Volume {
    let c = controller();
    let v = c.create_volume(&create_req(name, None, "ext4", mode)).unwrap();
    c.controller_publish_volume(&publish_req(name, mode, false), Some(v)).unwrap().unwrap()
}

/// Runs a node publish against `v`, with the mount reporting `device`.
fn mount(v: Volume, target: &str, mode: AccessMode, device: Option<&str>) -> Volume {
    let step = node().node_publish_volume(&node_publish_req(&v.name, target, mode), Some(&v));
    match step.unwrap() {
        NodePublishStep::Mount(m) => {
            assert_eq!(m.target, target);
            NodeService::node_publish_finish(v, m.target, device.map(|d| d.to_string()))
        }
        NodePublishStep::AlreadyPublished => panic!("expected a mount"),
    }
}

/// Runs a node unpublish against `v` whose unmount succeeds.
fn unmount(v: Volume, target: &str) -> (Volume, Option<String>) {
    let step = node().node_unpublish_volume(&node_unpublish_req(&v.name, target), Some(&v));
    assert!(matches!(step.unwrap(), NodeUnpublishStep::Unmount));
    NodeService::node_unpublish_finish(v, &target.to_string())
}

#[test]
fn create_publish_mount_unmount_delete() {
    let c = controller();
    let v = c
        .create_volume(&create_req("v1", Some(2147483648), "ext4", AccessMode::SingleNodeWriter))
        .unwrap();
    assert_eq!(v.size, 2147483648);
    assert_eq!(v.filesystem, Filesystem::Ext4);
    assert_eq!(v.host_path, "data/v1");
    assert_eq!(v.state, VolumeState::Open);
    assert_eq!(c.backing_path(&v), "/host/data/v1");

    let v = c
        .controller_publish_volume(&publish_req("v1", AccessMode::SingleNodeWriter, false), Some(v))
        .unwrap()
        .unwrap();
    assert_eq!(v.state, VolumeState::ControllerPublished);
    assert_eq!(v.published_config, Some(VolumeConfig { mode: VolumeMode::SingleNodeWriter }));

    let step = node()
        .node_publish_volume(&node_publish_req("v1", "/mnt/a", AccessMode::SingleNodeWriter), Some(&v))
        .unwrap();
    let m = match step {
        NodePublishStep::Mount(m) => m,
        NodePublishStep::AlreadyPublished => panic!("expected a mount"),
    };
    assert_eq!(m.source, "/host/data/v1");
    assert_eq!(m.loop_device, None);
    assert!(!m.readonly);
    let v = NodeService::node_publish_finish(v, m.target, Some("/dev/loop0".to_string()));
    assert_eq!(v.loop_device, Some("/dev/loop0".to_string()));
    assert_eq!(v.mount_paths, vec!["/mnt/a".to_string()]);
    assert_eq!(v.state, VolumeState::NodePublished);

    let (v, detach) = unmount(v, "/mnt/a");
    assert!(v.mount_paths.is_empty());
    assert_eq!(detach, Some("/dev/loop0".to_string()));
    assert_eq!(v.loop_device, None);
    assert_eq!(v.state, VolumeState::ControllerPublished);

    let unpub = ControllerUnpublishVolumeRequest { volume_id: "v1".to_string(), node_id: "node-1".to_string() };
    let v = c.controller_unpublish_volume(&unpub, Some(v)).unwrap().unwrap();
    assert_eq!(v.state, VolumeState::Open);

    let del = DeleteVolumeRequest { volume_id: "v1".to_string() };
    let removal = c.delete_volume(&del, Some(&v)).unwrap().unwrap();
    assert_eq!(removal.path, "/host/data/v1");
    assert_eq!(removal.filesystem, Filesystem::Ext4);
    // Deleting again once the record is gone succeeds with nothing to do.
    assert!(c.delete_volume(&del, None).unwrap().is_none());
}

#[test]
fn multi_writer_two_mounts() {
    let v = controller_published("v2", AccessMode::SingleNodeMultiWriter);
    let v = mount(v, "/mnt/t1", AccessMode::SingleNodeMultiWriter, Some("/dev/loop3"));
    let v = mount(v, "/mnt/t2", AccessMode::SingleNodeMultiWriter, None);
    assert_eq!(v.mount_paths, vec!["/mnt/t1".to_string(), "/mnt/t2".to_string()]);
    assert_eq!(v.loop_device, Some("/dev/loop3".to_string()));

    let (v, detach) = unmount(v, "/mnt/t1");
    assert_eq!(detach, None);
    assert_eq!(v.mount_paths, vec!["/mnt/t2".to_string()]);
    assert_eq!(v.state, VolumeState::NodePublished);

    let (v, detach) = unmount(v, "/mnt/t2");
    assert_eq!(detach, Some("/dev/loop3".to_string()));
    assert_eq!(v.state, VolumeState::ControllerPublished);
    assert!(v.mount_paths.is_empty());
}

#[test]
fn second_mount_reuses_loop_device() {
    let v = controller_published("v2b", AccessMode::SingleNodeMultiWriter);
    let v = mount(v, "/mnt/t1", AccessMode::SingleNodeMultiWriter, Some("/dev/loop3"));
    let step = node()
        .node_publish_volume(&node_publish_req("v2b", "/mnt/t2", AccessMode::SingleNodeMultiWriter), Some(&v))
        .unwrap();
    match step {
        NodePublishStep::Mount(m) => assert_eq!(m.loop_device, Some("/dev/loop3".to_string())),
        NodePublishStep::AlreadyPublished => panic!("expected a mount"),
    }
}

#[test]
fn idempotent_node_republish() {
    let v = controller_published("v3", AccessMode::SingleNodeWriter);
    let v = mount(v, "/mnt/t1", AccessMode::SingleNodeWriter, Some("/dev/loop1"));
    let step = node()
        .node_publish_volume(&node_publish_req("v3", "/mnt/t1", AccessMode::SingleNodeWriter), Some(&v))
        .unwrap();
    assert!(matches!(step, NodePublishStep::AlreadyPublished));
    assert_eq!(v.mount_paths, vec!["/mnt/t1".to_string()]);
    assert_eq!(v.loop_device, Some("/dev/loop1".to_string()));
}

#[test]
fn single_writer_second_target_refused() {
    let v = controller_published("v3b", AccessMode::SingleNodeWriter);
    let v = mount(v, "/mnt/t1", AccessMode::SingleNodeWriter, Some("/dev/loop1"));
    let r = node().node_publish_volume(&node_publish_req("v3b", "/mnt/t2", AccessMode::SingleNodeWriter), Some(&v));
    assert_eq!(r.err().unwrap().code, Code::FailedPrecondition);
}

#[test]
fn multi_writer_other_mode_refused() {
    let c = controller();
    let mut req = create_req("v3c", None, "ext4", AccessMode::SingleNodeMultiWriter);
    req.volume_capabilities.push(cap(AccessMode::SingleNodeWriter, ""));
    let v = c.create_volume(&req).unwrap();
    let v = c
        .controller_publish_volume(&publish_req("v3c", AccessMode::SingleNodeMultiWriter, false), Some(v))
        .unwrap()
        .unwrap();
    let v = mount(v, "/mnt/t1", AccessMode::SingleNodeMultiWriter, Some("/dev/loop1"));
    let r = node().node_publish_volume(&node_publish_req("v3c", "/mnt/t2", AccessMode::SingleNodeWriter), Some(&v));
    assert_eq!(r.err().unwrap().code, Code::FailedPrecondition);
}

#[test]
fn incompatible_controller_republish() {
    let c = controller();
    let mut req = create_req("v4", None, "ext4", AccessMode::SingleNodeReaderOnly);
    req.volume_capabilities.push(cap(AccessMode::SingleNodeWriter, ""));
    let v = c.create_volume(&req).unwrap();
    let v = c
        .controller_publish_volume(&publish_req("v4", AccessMode::SingleNodeReaderOnly, false), Some(v))
        .unwrap()
        .unwrap();
    let r = c.controller_publish_volume(&publish_req("v4", AccessMode::SingleNodeWriter, false), Some(v));
    assert_eq!(r.err().unwrap().code, Code::AlreadyExists);
}

#[test]
fn identical_controller_republish_is_idempotent() {
    let c = controller();
    let v = controller_published("v4b", AccessMode::SingleNodeReaderOnly);
    let r = c.controller_publish_volume(&publish_req("v4b", AccessMode::SingleNodeReaderOnly, false), Some(v));
    assert!(r.unwrap().is_none());
}

#[test]
fn controller_republish_with_other_readonly_refused() {
    let c = controller();
    let v = controller_published("v4c", AccessMode::SingleNodeWriter);
    let r = c.controller_publish_volume(&publish_req("v4c", AccessMode::SingleNodeWriter, true), Some(v));
    assert_eq!(r.err().unwrap().code, Code::AlreadyExists);
}

#[test]
fn expand_then_smaller_request() {
    let v = controller_published("v5", AccessMode::SingleNodeWriter);
    let v = mount(v, "/mnt/t", AccessMode::SingleNodeWriter, Some("/dev/loop5"));
    assert_eq!(v.size, GIB);
    let req = NodeExpandVolumeRequest {
        volume_id: "v5".to_string(),
        volume_path: "/mnt/t".to_string(),
        capacity_range: Some(CapacityRange { required_bytes: 2 * GIB as i64, limit_bytes: 0 }),
    };
    let g = match node().node_expand_volume(&req, Some(&v)).unwrap() {
        NodeExpandStep::Grow(g) => g,
        NodeExpandStep::Current(_) => panic!("expected a grow"),
    };
    assert_eq!(g.size, 2 * GIB);
    assert_eq!(g.source, "/host/data/v5");
    assert_eq!(g.loop_device, Some("/dev/loop5".to_string()));
    assert_eq!(g.filesystem, Filesystem::Ext4);
    let v = NodeService::node_expand_finish(v, g.size);
    assert_eq!(v.size, 2 * GIB);

    let again = NodeExpandVolumeRequest {
        volume_id: "v5".to_string(),
        volume_path: "/mnt/t".to_string(),
        capacity_range: Some(CapacityRange { required_bytes: GIB as i64, limit_bytes: 0 }),
    };
    match node().node_expand_volume(&again, Some(&v)).unwrap() {
        NodeExpandStep::Current(size) => assert_eq!(size, 2 * GIB),
        NodeExpandStep::Grow(_) => panic!("expected the current size"),
    }
}

#[test]
fn expand_unmounted_path_not_found() {
    let v = controller_published("v5b", AccessMode::SingleNodeWriter);
    let req = NodeExpandVolumeRequest {
        volume_id: "v5b".to_string(),
        volume_path: "/mnt/t".to_string(),
        capacity_range: None,
    };
    assert_eq!(node().node_expand_volume(&req, Some(&v)).err().unwrap().code, Code::NotFound);
}

#[test]
fn expand_bind_volume_grows_without_loop_device() {
    let c = controller();
    let v = c.create_volume(&create_req("b1", None, "bind", AccessMode::SingleNodeWriter)).unwrap();
    let v = c
        .controller_publish_volume(&publish_req("b1", AccessMode::SingleNodeWriter, false), Some(v))
        .unwrap()
        .unwrap();
    let v = mount(v, "/mnt/b", AccessMode::SingleNodeWriter, None);
    assert_eq!(v.loop_device, None);
    let req = NodeExpandVolumeRequest {
        volume_id: "b1".to_string(),
        volume_path: "/mnt/b".to_string(),
        capacity_range: Some(CapacityRange { required_bytes: 3 * GIB as i64, limit_bytes: 0 }),
    };
    match node().node_expand_volume(&req, Some(&v)).unwrap() {
        NodeExpandStep::Grow(g) => {
            assert_eq!(g.loop_device, None);
            assert_eq!(g.filesystem, Filesystem::Bind);
        }
        NodeExpandStep::Current(_) => panic!("expected a grow"),
    }
}

#[test]
fn controller_round_trip_restores_record() {
    let c = controller();
    let v = c.create_volume(&create_req("r1", None, "xfs", AccessMode::SingleNodeWriter)).unwrap();
    let p = c
        .controller_publish_volume(&publish_req("r1", AccessMode::SingleNodeWriter, true), Some(v))
        .unwrap()
        .unwrap();
    assert!(p.published_readonly);
    let unpub = ControllerUnpublishVolumeRequest { volume_id: "r1".to_string(), node_id: String::new() };
    let back = c.controller_unpublish_volume(&unpub, Some(p)).unwrap().unwrap();
    assert_eq!(back.state, VolumeState::Open);
    assert_eq!(back.published_config, None);
    assert!(!back.published_readonly);
    assert_eq!(back.filesystem, Filesystem::Xfs);
}

#[test]
fn node_round_trip_restores_controller_published() {
    let v = controller_published("r2", AccessMode::SingleNodeWriter);
    let v = mount(v, "/mnt/r2", AccessMode::SingleNodeWriter, Some("/dev/loop9"));
    let (v, _) = unmount(v, "/mnt/r2");
    assert_eq!(v.state, VolumeState::ControllerPublished);
    assert!(v.mount_paths.is_empty());
    assert_eq!(v.loop_device, None);
}

#[test]
fn unpublish_states() {
    let c = controller();
    let unpub = ControllerUnpublishVolumeRequest { volume_id: "u1".to_string(), node_id: String::new() };
    assert!(c.controller_unpublish_volume(&unpub, None).unwrap().is_none());
    let v = c.create_volume(&create_req("u1", None, "ext4", AccessMode::SingleNodeWriter)).unwrap();
    assert!(c.controller_unpublish_volume(&unpub, Some(v)).unwrap().is_none());
    let v = controller_published("u1", AccessMode::SingleNodeWriter);
    let v = mount(v, "/mnt/u", AccessMode::SingleNodeWriter, Some("/dev/loop2"));
    assert_eq!(c.controller_unpublish_volume(&unpub, Some(v)).err().unwrap().code, Code::FailedPrecondition);
}

#[test]
fn node_unpublish_unknown_target_is_noop() {
    let v = controller_published("u2", AccessMode::SingleNodeWriter);
    let step = node().node_unpublish_volume(&node_unpublish_req("u2", "/mnt/none"), Some(&v)).unwrap();
    assert!(matches!(step, NodeUnpublishStep::NotPublished));
    let r = node().node_unpublish_volume(&node_unpublish_req("u2", "/mnt/none"), None);
    assert_eq!(r.err().unwrap().code, Code::NotFound);
}

#[test]
fn delete_in_use_volume_refused() {
    let c = controller();
    let v = controller_published("d1", AccessMode::SingleNodeWriter);
    let r = c.delete_volume(&DeleteVolumeRequest { volume_id: "d1".to_string() }, Some(&v));
    assert_eq!(r.err().unwrap().code, Code::FailedPrecondition);
}

#[test]
fn node_publish_needs_controller_publish() {
    let c = controller();
    let v = c.create_volume(&create_req("n1", None, "ext4", AccessMode::SingleNodeWriter)).unwrap();
    let r = node().node_publish_volume(&node_publish_req("n1", "/mnt/n", AccessMode::SingleNodeWriter), Some(&v));
    assert_eq!(r.err().unwrap().code, Code::FailedPrecondition);
}

#[test]
fn publish_on_other_node_not_found() {
    let c = controller();
    let v = c.create_volume(&create_req("n2", None, "ext4", AccessMode::SingleNodeWriter)).unwrap();
    let mut req = publish_req("n2", AccessMode::SingleNodeWriter, false);
    req.node_id = "node-2".to_string();
    assert_eq!(c.controller_publish_volume(&req, Some(v)).err().unwrap().code, Code::NotFound);
    let req = publish_req("n2", AccessMode::SingleNodeWriter, false);
    assert_eq!(c.controller_publish_volume(&req, None).err().unwrap().code, Code::NotFound);
}

#[test]
fn publish_with_other_filesystem_refused() {
    let c = controller();
    let v = c.create_volume(&create_req("n3", None, "ext4", AccessMode::SingleNodeWriter)).unwrap();
    let mut req = publish_req("n3", AccessMode::SingleNodeWriter, false);
    req.volume_capability = Some(cap(AccessMode::SingleNodeWriter, "xfs"));
    assert_eq!(c.controller_publish_volume(&req, Some(v)).err().unwrap().code, Code::AlreadyExists);
}

#[test]
fn readonly_mount_when_published_readonly() {
    let c = controller();
    let v = c.create_volume(&create_req("n4", None, "ext4", AccessMode::SingleNodeReaderOnly)).unwrap();
    let v = c
        .controller_publish_volume(&publish_req("n4", AccessMode::SingleNodeReaderOnly, true), Some(v))
        .unwrap()
        .unwrap();
    match node()
        .node_publish_volume(&node_publish_req("n4", "/mnt/n4", AccessMode::SingleNodeReaderOnly), Some(&v))
        .unwrap()
    {
        NodePublishStep::Mount(m) => assert!(m.readonly),
        NodePublishStep::AlreadyPublished => panic!("expected a mount"),
    }
}

#[test]
fn stats_on_mounted_path() {
    let v = controller_published("s1", AccessMode::SingleNodeWriter);
    let v = mount(v, "/mnt/s1", AccessMode::SingleNodeWriter, Some("/dev/loop4"));
    let req = lvp::request::NodeGetVolumeStatsRequest { volume_id: "s1".to_string(), volume_path: "/mnt/s1".to_string() };
    assert!(node().node_get_volume_stats(&req, Some(&v)).is_ok());
    let other = lvp::request::NodeGetVolumeStatsRequest { volume_id: "s1".to_string(), volume_path: "/mnt/other".to_string() };
    assert_eq!(node().node_get_volume_stats(&other, Some(&v)).err().unwrap().code, Code::NotFound);
    assert!(v.is_well_formed());
}
