use vstd::prelude::*;

verus! {

/// One GiB, the size of a volume whose request names none.
pub const DEFAULT_VOLUME_SIZE: u64 = 1073741824;

/// How a volume's backing is formatted and mounted.
#[derive(Clone, Copy, Debug, PartialEq, Eq, Structural)]
pub enum Filesystem {
    Ext4,
    Xfs,
    /// A host directory, bind-mounted: no loop device and no growing.
    Bind,
}

/// Where a volume stands in its lifecycle.
#[derive(Clone, Copy, Debug, PartialEq, Eq, Structural)]
pub enum VolumeState {
    Open,
    ControllerPublished,
    NodePublished,
}

/// The access modes a volume can be published in.
#[derive(Clone, Copy, Debug, PartialEq, Eq, Structural)]
pub enum VolumeMode {
    SingleNodeWriter,
    SingleNodeReader,
    SingleNodeSingleWriter,
    SingleNodeMultiWriter,
}

#[derive(Clone, Copy, Debug, PartialEq, Eq, Structural)]
pub struct VolumeConfig {
    pub mode: VolumeMode,
}

/// What the record store answers to an attempt to create a record.
#[derive(Clone, Copy, Debug, PartialEq, Eq, Structural)]
pub enum VolumeCreation {
    AlreadyExists,
    Success,
}

/// The persistent record of one volume, keyed by `name`.
#[derive(Debug)]
pub struct Volume {
    pub name: String,
    pub size: u64,
    pub assigned_node_id: String,
    pub state: VolumeState,
    pub published_readonly: bool,
    pub published_config: Option<VolumeConfig>,
    pub filesystem: Filesystem,
    pub valid_configs: Vec<VolumeConfig>,
    pub loop_device: Option<String>,
    pub mount_paths: Vec<String>,
    pub host_path: String,
}

/// A volume record as a mathematical value.
pub struct VolumeView {
    pub name: Seq<char>,
    pub size: u64,
    pub assigned_node_id: Seq<char>,
    pub state: VolumeState,
    pub published_readonly: bool,
    pub published_config: Option<VolumeConfig>,
    pub filesystem: Filesystem,
    pub valid_configs: Seq<VolumeConfig>,
    pub loop_device: Option<Seq<char>>,
    pub mount_paths: Seq<Seq<char>>,
    pub host_path: Seq<char>,
}

pub open spec fn opt_view(s: Option<String>) -> Option<Seq<char>> {
    match s {
        Some(x) => Some(x@),
        None => None,
    }
}

pub open spec fn strings_view(v: Seq<String>) -> Seq<Seq<char>> {
    v.map_values(|s: String| s@)
}

impl View for Volume {
    type V = VolumeView;

    open spec fn view(&self) -> VolumeView {
        VolumeView {
            name: self.name@,
            size: self.size,
            assigned_node_id: self.assigned_node_id@,
            state: self.state,
            published_readonly: self.published_readonly,
            published_config: self.published_config,
            filesystem: self.filesystem,
            valid_configs: self.valid_configs@,
            loop_device: opt_view(self.loop_device),
            mount_paths: strings_view(self.mount_paths@),
            host_path: self.host_path@,
        }
    }
}

impl VolumeView {
    /// The record invariants: what each state says of the published fields,
    /// distinct mount targets, and a single target unless multi-writer.
    pub open spec fn wf(self) -> bool {
        &&& self.state == VolumeState::Open ==> {
            &&& self.published_config is None
            &&& !self.published_readonly
            &&& self.loop_device is None
            &&& self.mount_paths.len() == 0
        }
        &&& self.state == VolumeState::ControllerPublished ==> {
            &&& self.published_config is Some
            &&& self.mount_paths.len() == 0
            &&& self.loop_device is None
        }
        &&& self.state == VolumeState::NodePublished ==> {
            &&& self.published_config is Some
            &&& self.mount_paths.len() > 0
            &&& (self.filesystem == Filesystem::Bind <==> self.loop_device is None)
        }
        &&& self.published_config is Some ==> self.valid_configs.contains(
            self.published_config->0,
        )
        &&& self.mount_paths.no_duplicates()
        &&& self.published_config is Some && self.published_config->0.mode
            != VolumeMode::SingleNodeMultiWriter ==> self.mount_paths.len() <= 1
    }

    /// `next` is a later version of this record: what is fixed at creation is
    /// kept, and the size has not shrunk.
    pub open spec fn evolves_to(self, next: VolumeView) -> bool {
        self.same_identity(next) && self.size <= next.size
    }

    /// The fields that never change after creation.
    pub open spec fn same_identity(self, other: VolumeView) -> bool {
        &&& self.name == other.name
        &&& self.assigned_node_id == other.assigned_node_id
        &&& self.filesystem == other.filesystem
        &&& self.valid_configs == other.valid_configs
        &&& self.host_path == other.host_path
    }
}

/// Whether `config` is among `configs`.
pub fn contains_config(configs: &Vec<VolumeConfig>, config: VolumeConfig) -> (r: bool)
    ensures
        r == configs@.contains(config),
{
    let mut i: usize = 0;
    while i < configs.len()
        invariant
            i <= configs.len(),
            forall|j: int| 0 <= j < i ==> configs@[j] != config,
        decreases configs.len() - i,
    {
        if configs[i] == config {
            return true;
        }
        i = i + 1;
    }
    false
}

pub open spec fn opt_volume_view(v: Option<Volume>) -> Option<VolumeView> {
    match v {
        Some(x) => Some(x@),
        None => None,
    }
}

pub open spec fn opt_ref_view(v: Option<&Volume>) -> Option<VolumeView> {
    match v {
        Some(x) => Some(x@),
        None => None,
    }
}

/// An outcome computed over records agrees with one computed over their views:
/// `Ok(None)` leaves the record as it is, `Ok(Some(v))` is the record to write back.
pub open spec fn transition_matches(
    r: Result<Option<Volume>, crate::status::Status>,
    s: Result<Option<VolumeView>, crate::status::Code>,
) -> bool {
    match s {
        Ok(None) => r is Ok && r->Ok_0 is None,
        Ok(Some(v)) => r is Ok && r->Ok_0 is Some && r->Ok_0->0@ == v,
        Err(c) => r is Err && r->Err_0.code == c,
    }
}

/// Whether two lists of access configurations are equal.
pub fn configs_eq(a: &Vec<VolumeConfig>, b: &Vec<VolumeConfig>) -> (r: bool)
    ensures
        r == (a@ == b@),
{
    if a.len() != b.len() {
        return false;
    }
    let mut i: usize = 0;
    while i < a.len()
        invariant
            a@.len() == b@.len(),
            i <= a@.len(),
            forall|j: int| 0 <= j < i ==> a@[j] == b@[j],
        decreases a.len() - i,
    {
        if a[i] != b[i] {
            return false;
        }
        i = i + 1;
    }
    assert(a@ =~= b@);
    true
}

/// Where a volume's backing lies: its host path, without a leading `/`,
/// under the host prefix.
pub open spec fn backing_path(host_prefix: Seq<char>, host_path: Seq<char>) -> Seq<char> {
    crate::text::join_path(host_prefix, crate::text::trim_leading_slash(host_path))
}

/// `s` with every occurrence of `x` taken out.
pub open spec fn without(s: Seq<Seq<char>>, x: Seq<char>) -> Seq<Seq<char>>
    decreases s.len(),
{
    if s.len() == 0 {
        s
    } else if s.last() == x {
        without(s.drop_last(), x)
    } else {
        without(s.drop_last(), x).push(s.last())
    }
}

pub proof fn lemma_without(s: Seq<Seq<char>>, x: Seq<char>)
    requires
        s.no_duplicates(),
    ensures
        without(s, x).no_duplicates(),
        forall|y: Seq<char>| #[trigger] without(s, x).contains(y) <==> (s.contains(y) && y != x),
        s.contains(x) ==> without(s, x).len() == s.len() - 1,
        !s.contains(x) ==> without(s, x).len() == s.len(),
    decreases s.len(),
{
    if s.len() > 0 {
        let t = s.drop_last();
        assert(t.no_duplicates()) by {
            assert forall|i: int, j: int| 0 <= i < t.len() && 0 <= j < t.len() && i != j implies t[i]
                != t[j] by {
                assert(t[i] == s[i] && t[j] == s[j]);
            }
        }
        lemma_without(t, x);
        assert forall|y: Seq<char>| s.contains(y) <==> (t.contains(y) || y == s.last()) by {
            if s.contains(y) {
                let i = choose|i: int| 0 <= i < s.len() && s[i] == y;
                if i < s.len() - 1 {
                    assert(t[i] == y);
                }
            }
            if t.contains(y) {
                let i = choose|i: int| 0 <= i < t.len() && t[i] == y;
                assert(s[i] == y);
            }
            if y == s.last() {
                assert(s[s.len() - 1] == y);
            }
        }
        assert(!t.contains(s.last())) by {
            if t.contains(s.last()) {
                let i = choose|i: int| 0 <= i < t.len() && t[i] == s.last();
                assert(s[i] == s[s.len() - 1]);
            }
        }
        if s.last() != x {
            let w = without(t, x);
            assert(without(s, x) == w.push(s.last()));
            assert forall|y: Seq<char>| #[trigger] w.push(s.last()).contains(y) <==> (w.contains(y)
                || y == s.last()) by {
                if w.push(s.last()).contains(y) {
                    let i = choose|i: int| 0 <= i < w.len() + 1 && w.push(s.last())[i] == y;
                    if i < w.len() {
                        assert(w[i] == y);
                    }
                }
                if w.contains(y) {
                    let i = choose|i: int| 0 <= i < w.len() && w[i] == y;
                    assert(w.push(s.last())[i] == y);
                }
                if y == s.last() {
                    assert(w.push(s.last())[w.len() as int] == y);
                }
            }
            assert(w.push(s.last()).no_duplicates()) by {
                let u = w.push(s.last());
                assert forall|i: int, j: int| 0 <= i < u.len() && 0 <= j < u.len() && i != j implies u[i]
                    != u[j] by {
                    if i < w.len() && j < w.len() {
                        assert(u[i] == w[i] && u[j] == w[j]);
                    } else if i < w.len() {
                        assert(u[i] == w[i]);
                        assert(w.contains(w[i]));
                    } else if j < w.len() {
                        assert(u[j] == w[j]);
                        assert(w.contains(w[j]));
                    }
                }
            }
        }
    }
}

/// Whether the strings of `paths` are pairwise distinct.
pub fn paths_distinct(paths: &Vec<String>) -> (r: bool)
    ensures
        r == strings_view(paths@).no_duplicates(),
{
    let ghost sv = strings_view(paths@);
    let mut i: usize = 0;
    while i < paths.len()
        invariant
            sv == strings_view(paths@),
            i <= paths@.len(),
            forall|a: int, b: int| 0 <= a < i && 0 <= b < sv.len() && a != b ==> sv[a] != sv[b],
        decreases paths.len() - i,
    {
        let mut j: usize = 0;
        while j < paths.len()
            invariant
                sv == strings_view(paths@),
                i < paths@.len(),
                j <= paths@.len(),
                forall|a: int, b: int| 0 <= a < i && 0 <= b < sv.len() && a != b ==> sv[a] != sv[b],
                forall|b: int| 0 <= b < j && b != i ==> sv[i as int] != sv[b],
            decreases paths.len() - j,
        {
            if j != i && paths[i] == paths[j] {
                assert(sv[i as int] == sv[j as int]);
                return false;
            }
            j = j + 1;
        }
        i = i + 1;
    }
    true
}

impl Volume {
    /// Whether the record meets the record invariants.
    pub fn is_well_formed(&self) -> (r: bool)
        ensures
            r == self@.wf(),
    {
        let no_paths = self.mount_paths.len() == 0;
        let state_ok = match self.state {
            VolumeState::Open => self.published_config.is_none() && !self.published_readonly
                && self.loop_device.is_none() && no_paths,
            VolumeState::ControllerPublished => self.published_config.is_some()
                && self.loop_device.is_none() && no_paths,
            VolumeState::NodePublished => self.published_config.is_some() && !no_paths && ((
            self.filesystem == Filesystem::Bind) == self.loop_device.is_none()),
        };
        if !state_ok {
            return false;
        }
        match self.published_config {
            Some(c) => {
                if !contains_config(&self.valid_configs, c) {
                    return false;
                }
                if c.mode != VolumeMode::SingleNodeMultiWriter && self.mount_paths.len() > 1 {
                    return false;
                }
            },
            None => {},
        }
        paths_distinct(&self.mount_paths)
    }

    /// The key under which the record is stored.
    pub fn key(&self) -> (r: String)
        ensures
            r@ == "lvp-vol-"@ + self.name@,
    {
        let prefix = String::from_str("lvp-vol-");
        prefix.concat(self.name.as_str())
    }
}

} // verus!
