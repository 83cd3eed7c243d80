use vstd::prelude::*;
use crate::controller::ControllerService;
use crate::node::NodeService;

verus! {

/// The plugin's startup settings.
#[derive(Clone, Debug)]
pub struct Config {
    /// Where the plugin listens.
    pub socket_path: String,
    /// Where the local record store lives.
    pub database: String,
    /// The host directory under which volume host paths resolve.
    pub host_prefix: String,
    /// This node's id.
    pub node_id: String,
    /// The topology segments this node advertises.
    pub topology: Vec<(String, String)>,
}

impl Config {
    /// The controller service for this node.
    pub fn controller(&self) -> (r: ControllerService)
        ensures
            r.node_id@ == self.node_id@,
            r.host_prefix@ == self.host_prefix@,
    {
        ControllerService { node_id: self.node_id.clone(), host_prefix: self.host_prefix.clone() }
    }

    /// The node service for this node.
    pub fn node(&self) -> (r: NodeService)
        ensures
            r.node_id@ == self.node_id@,
            r.host_prefix@ == self.host_prefix@,
            r.topology@.len() == self.topology@.len(),
            forall|i: int|
                0 <= i < r.topology@.len() ==> (#[trigger] r.topology@[i]).0@
                    == self.topology@[i].0@ && r.topology@[i].1@ == self.topology@[i].1@,
    {
        let mut topology: Vec<(String, String)> = Vec::new();
        let mut i: usize = 0;
        while i < self.topology.len()
            invariant
                i <= self.topology@.len(),
                topology@.len() == i,
                forall|k: int|
                    0 <= k < i ==> (#[trigger] topology@[k]).0@ == self.topology@[k].0@
                        && topology@[k].1@ == self.topology@[k].1@,
            decreases self.topology.len() - i,
        {
            let seg = &self.topology[i];
            topology.push((seg.0.clone(), seg.1.clone()));
            i = i + 1;
        }
        NodeService {
            node_id: self.node_id.clone(),
            topology,
            host_prefix: self.host_prefix.clone(),
        }
    }
}

} // verus!
