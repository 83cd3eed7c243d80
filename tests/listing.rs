use lvp::controller::ControllerService;
use lvp::request::{AccessMode, AccessType, CreateVolumeRequest, ListVolumesRequest, MountVolume, VolumeCapability};
use lvp::status::Code;
use lvp::volume::Volume;

fn controller() -> ControllerService {
    ControllerService { node_id: "node-1".to_string(), host_prefix: "/host".to_string() }
}

fn volume(name: &str) -> Volume {
    let req = CreateVolumeRequest {
        name: name.to_string(),
        capacity_range: None,
        volume_capabilities: vec![VolumeCapability {
            access_mode: Some(AccessMode::SingleNodeWriter),
            access_type: Some(AccessType::Mount(MountVolume { fs_type: String::new(), mount_flags: vec![] })),
        }],
        parameters: vec![("host_base_path".to_string(), "data".to_string())],
        accessibility_requirements: None,
    };
    controller().create_volume(&req).unwrap()
}

fn page(volumes: &Vec<Volume>, token: &str, max: i32) -> (Vec<String>, String) {
    let req = ListVolumesRequest { max_entries: max, starting_token: token.to_string() };
    let p = controller().list_volumes(&req, volumes).unwrap();
    (p.entries.iter().map(|e| e.volume.volume_id.clone()).collect(), p.next_token)
}

#[test]
fn list_pagination() {
    let vs = vec![volume("c"), volume("a"), volume("d"), volume("b")];
    let (names, next) = page(&vs, "", 2);
    assert_eq!(names, vec!["a", "b"]);
    assert_eq!(next, "b");
    let (names, next) = page(&vs, "b", 2);
    assert_eq!(names, vec!["c", "d"]);
    assert_eq!(next, "");
}

#[test]
fn list_everything_without_cap() {
    let vs = vec![volume("b"), volume("ab"), volume("a"), volume("B")];
    let (names, next) = page(&vs, "", 0);
    assert_eq!(names, vec!["B", "a", "ab", "b"]);
    assert_eq!(next, "");
}

#[test]
fn pages_visit_each_record_once() {
    let vs: Vec<Volume> = ["k", "e", "x", "a", "m", "q", "b"].iter().map(|n| volume(n)).collect();
    let mut seen: Vec<String> = vec![];
    let mut token = String::new();
    loop {
        let (names, next) = page(&vs, &token, 3);
        assert!(names.len() <= 3);
        seen.extend(names);
        if next.is_empty() {
            break;
        }
        token = next;
    }
    assert_eq!(seen, vec!["a", "b", "e", "k", "m", "q", "x"]);
}

#[test]
fn unknown_token_aborts() {
    let vs = vec![volume("a")];
    let req = ListVolumesRequest { max_entries: 1, starting_token: "zz".to_string() };
    assert_eq!(controller().list_volumes(&req, &vs).err().unwrap().code, Code::Aborted);
}

#[test]
fn list_empty_store() {
    let (names, next) = page(&vec![], "", 5);
    assert!(names.is_empty());
    assert_eq!(next, "");
}
