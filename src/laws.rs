//! Properties that relate several operations, proved over the outcomes that
//! the operations' contracts are stated in.
use vstd::prelude::*;
use crate::capability::spec_parse_capability;
use crate::controller::{
    above, controller_publish_outcome, controller_unpublish_outcome, create_request_error,
    existing_outcome, names_left, page_ok, same_creation, spec_new_volume,
};
use crate::node::{may_mount, node_unpublish_outcome, published_view, unpublished_view};
use crate::request::{
    ControllerPublishVolumeRequest, ControllerUnpublishVolumeRequest, CreateVolumeRequest,
    NodeUnpublishVolumeRequest,
};
use crate::status::Code;
use crate::text::{lemma_lex_asymmetric, lemma_lex_irreflexive, lemma_lex_total, lemma_lex_transitive, lex_lt};
use crate::volume::{lemma_without, without, Filesystem, VolumeState, VolumeView};

verus! {

/// A record holds a loop device only while it is mounted, and never for a
/// bind volume.
pub proof fn lemma_loop_device_only_when_mounted(v: VolumeView)
    requires
        v.wf(),
    ensures
        v.loop_device is Some ==> v.filesystem != Filesystem::Bind && v.state
            == VolumeState::NodePublished,
{
}

/// Creating twice with the same request succeeds the second time, with the
/// record the first one stored.
pub proof fn lemma_create_idempotent(req: CreateVolumeRequest, node: Seq<char>)
    requires
        create_request_error(req, node) is None,
    ensures
        existing_outcome(spec_new_volume(req, node), Some(spec_new_volume(req, node))) is None,
{
}

/// Creating under a stored name with other attributes fails with
/// `AlreadyExists`.
pub proof fn lemma_create_conflict(new: VolumeView, existing: VolumeView)
    requires
        !same_creation(existing, new),
    ensures
        existing_outcome(new, Some(existing)) == Some(Code::AlreadyExists),
{
}

/// Publishing an open volume to the controller and unpublishing it again
/// gives back the record as it was.
pub proof fn lemma_controller_publish_round_trip(
    v: VolumeView,
    publish: ControllerPublishVolumeRequest,
    unpublish: ControllerUnpublishVolumeRequest,
)
    requires
        v.wf(),
        v.state == VolumeState::Open,
        controller_publish_outcome(publish, Some(v)) is Ok,
        unpublish.volume_id@.len() > 0,
    ensures
        controller_publish_outcome(publish, Some(v)) matches Ok(Some(p)) && p.state
            == VolumeState::ControllerPublished && controller_unpublish_outcome(
            unpublish,
            Some(p),
        ) == Ok::<Option<VolumeView>, Code>(Some(v)),
{
    let (cfg, fs) = spec_parse_capability(publish.volume_capability->0)->0;
    let p = VolumeView {
        state: VolumeState::ControllerPublished,
        published_config: Some(cfg),
        published_readonly: publish.readonly,
        ..v
    };
    assert(controller_publish_outcome(publish, Some(v)) == Ok::<Option<VolumeView>, Code>(Some(p)));
    let back = VolumeView {
        state: VolumeState::Open,
        published_config: None,
        published_readonly: false,
        ..p
    };
    assert(back == v);
}

/// Mounting a controller-published volume at a target and unmounting it
/// again leaves it controller-published with no mounts and no loop device,
/// as it was.
pub proof fn lemma_node_publish_round_trip(
    v: VolumeView,
    target: Seq<char>,
    device: Option<Seq<char>>,
    unpublish: NodeUnpublishVolumeRequest,
)
    requires
        v.wf(),
        v.state == VolumeState::ControllerPublished,
        v.filesystem == Filesystem::Bind ==> device is None,
        v.filesystem != Filesystem::Bind ==> device is Some,
        unpublish.volume_id@.len() > 0,
        unpublish.target_path@ == target,
        target.len() > 0,
    ensures
        published_view(v, target, device).wf(),
        node_unpublish_outcome(unpublish, Some(published_view(v, target, device))) == Ok::<bool, Code>(true),
        unpublished_view(published_view(v, target, device), target) == v,
        v.mount_paths.len() == 0 && v.loop_device is None,
{
    let p = published_view(v, target, device);
    assert(p.mount_paths =~= seq![target]);
    assert(p.mount_paths[0] == target);
    assert(p.mount_paths.no_duplicates());
    let rest = without(p.mount_paths, target);
    assert(p.mount_paths.drop_last() =~= Seq::<Seq<char>>::empty());
    assert(p.mount_paths.last() == target);
    assert(without(p.mount_paths.drop_last(), target) == p.mount_paths.drop_last());
    assert(rest == without(p.mount_paths.drop_last(), target));
    assert(rest =~= Seq::<Seq<char>>::empty());
    assert(v.mount_paths =~= rest);
}

/// A listing page and the names after its next token split the names after
/// its starting token: every name is on the page or after the next token,
/// never both, and the next token names a record that later pages start
/// from. A page with no next token holds all the remaining names.
pub proof fn lemma_pages_partition(
    names: Seq<Seq<char>>,
    tok: Seq<char>,
    max: i32,
    out: Seq<Seq<char>>,
    next: Seq<char>,
)
    requires
        page_ok(names, tok, max, out, next),
        forall|i: int| 0 <= i < names.len() ==> (#[trigger] names[i]).len() > 0,
    ensures
        names_left(names, tok, out) ==> {
            &&& names.contains(next)
            &&& next.len() > 0
            &&& forall|n: Seq<char>|
                (names.contains(n) && above(tok, n)) <==> (out.contains(n) || (names.contains(n)
                    && above(next, n)))
            &&& forall|n: Seq<char>| out.contains(n) ==> !above(next, n)
        },
        !names_left(names, tok, out) ==> {
            &&& next.len() == 0
            &&& forall|n: Seq<char>| (names.contains(n) && above(tok, n)) <==> out.contains(n)
        },
{
    if names_left(names, tok, out) {
        let i0 = choose|i: int| 0 <= i < names.len() && above(tok, #[trigger] names[i]) && !out.contains(names[i]);
        // The page is full, so it is not empty.
        assert(out.len() > 0);
        let last = out.last();
        assert(names.contains(out[out.len() - 1]));
        let j = choose|j: int| 0 <= j < names.len() && names[j] == last;
        assert(names[j].len() > 0);
        assert forall|n: Seq<char>| out.contains(n) implies !above(next, n) by {
            let k = choose|k: int| 0 <= k < out.len() && out[k] == n;
            if k < out.len() - 1 {
                assert(lex_lt(out[k], out[out.len() - 1]));
                lemma_lex_asymmetric(out[k], last);
            } else {
                lemma_lex_irreflexive(n);
            }
        }
        assert forall|n: Seq<char>|
            (names.contains(n) && above(tok, n)) <==> (out.contains(n) || (names.contains(n)
                && above(next, n))) by {
            if names.contains(n) && above(tok, n) && !out.contains(n) {
                let i = choose|i: int| 0 <= i < names.len() && names[i] == n;
                assert(above(tok, names[i]));
                assert(lex_lt(out[out.len() - 1], names[i]));
            }
            if out.contains(n) {
                let k = choose|k: int| 0 <= k < out.len() && out[k] == n;
                assert(names.contains(out[k]) && above(tok, out[k]));
            }
            if names.contains(n) && above(next, n) && tok.len() > 0 {
                assert(names.contains(out[out.len() - 1]) && above(tok, out[out.len() - 1]));
                lemma_lex_transitive(tok, last, n);
            }
        }
    } else {
        assert forall|n: Seq<char>| (names.contains(n) && above(tok, n)) <==> out.contains(n) by {
            if names.contains(n) && above(tok, n) {
                let i = choose|i: int| 0 <= i < names.len() && names[i] == n;
                assert(above(tok, names[i]));
            }
            if out.contains(n) {
                let k = choose|k: int| 0 <= k < out.len() && out[k] == n;
                assert(names.contains(out[k]) && above(tok, out[k]));
            }
        }
    }
}

/// Every transition that a successful request makes keeps the record
/// invariants, and keeps what creation fixed with a size that never shrinks.
pub proof fn lemma_transitions_keep_invariants(
    v: VolumeView,
    publish: ControllerPublishVolumeRequest,
    unpublish: ControllerUnpublishVolumeRequest,
    target: Seq<char>,
    device: Option<Seq<char>>,
    size: u64,
)
    requires
        v.wf(),
    ensures
        controller_publish_outcome(publish, Some(v)) matches Ok(Some(w)) ==> w.wf()
            && v.evolves_to(w),
        controller_unpublish_outcome(unpublish, Some(v)) matches Ok(Some(w)) ==> w.wf()
            && v.evolves_to(w),
        may_mount(v, target) && (v.filesystem == Filesystem::Bind ==> device is None) && (
        v.filesystem != Filesystem::Bind ==> v.loop_device is Some || device is Some) ==> {
            let w = published_view(v, target, device);
            w.wf() && v.evolves_to(w)
        },
        v.state == VolumeState::NodePublished && v.mount_paths.contains(target) ==> {
            let w = unpublished_view(v, target);
            w.wf() && v.evolves_to(w)
        },
        v.size <= size ==> {
            let w = VolumeView { size, ..v };
            w.wf() && v.evolves_to(w)
        },
{
    if may_mount(v, target) {
        let w = published_view(v, target, device);
        assert(w.mount_paths.no_duplicates()) by {
            let p = w.mount_paths;
            assert forall|i: int, j: int| 0 <= i < p.len() && 0 <= j < p.len() && i != j implies p[i]
                != p[j] by {
                if i < v.mount_paths.len() && j < v.mount_paths.len() {
                    assert(p[i] == v.mount_paths[i] && p[j] == v.mount_paths[j]);
                } else if i < v.mount_paths.len() {
                    assert(p[i] == v.mount_paths[i]);
                    assert(v.mount_paths.contains(v.mount_paths[i]));
                } else if j < v.mount_paths.len() {
                    assert(p[j] == v.mount_paths[j]);
                    assert(v.mount_paths.contains(v.mount_paths[j]));
                }
            }
        }
    }
    lemma_without(v.mount_paths, target);
}

} // verus!
