use vstd::prelude::*;

verus! {

/// The plugin-wide service: who this plugin is and what it offers.
pub struct IdentityService {}

/// The plugin's name and version.
#[derive(Clone, Debug)]
pub struct PluginInfo {
    pub name: String,
    pub vendor_version: String,
}

/// The plugin-wide features this plugin advertises.
#[derive(Clone, Copy, Debug, PartialEq, Eq, Structural)]
pub enum PluginCapability {
    ControllerService,
    VolumeAccessibilityConstraints,
    OnlineVolumeExpansion,
}

impl IdentityService {
    /// The plugin's name, `lvp`, with the version it was built as.
    pub fn get_plugin_info(&self, version: &str) -> (r: PluginInfo)
        ensures
            r.name@ == "lvp"@,
            r.vendor_version@ == version@,
    {
        PluginInfo { name: String::from_str("lvp"), vendor_version: String::from_str(version) }
    }

    pub fn get_plugin_capabilities(&self) -> (r: Vec<PluginCapability>)
        ensures
            r@ == seq![
                PluginCapability::ControllerService,
                PluginCapability::VolumeAccessibilityConstraints,
                PluginCapability::OnlineVolumeExpansion,
            ],
    {
        let r = vec![
            PluginCapability::ControllerService,
            PluginCapability::VolumeAccessibilityConstraints,
            PluginCapability::OnlineVolumeExpansion,
        ];
        assert(r@ =~= seq![
            PluginCapability::ControllerService,
            PluginCapability::VolumeAccessibilityConstraints,
            PluginCapability::OnlineVolumeExpansion,
        ]);
        r
    }

    /// The plugin is ready as soon as it answers.
    pub fn probe(&self) -> (r: bool)
        ensures
            r,
    {
        true
    }
}

} // verus!
