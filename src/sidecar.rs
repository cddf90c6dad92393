use vstd::prelude::*;

use crate::config::{lemma_sorted_canonical, pairs_of, CirrusEnvironment};

verus! {

pub const CONTAINER_NAME: &'static str = "cirrus";
pub const IMAGE: &'static str = "experimenter-cirrus";
pub const PULL_POLICY: &'static str = "IfNotPresent";
pub const CONTAINER_PORT: u16 = 8001;
pub const VOLUME_NAME: &'static str = "cirrus-glean";
pub const MOUNT_PATH: &'static str = "/glean";
pub const VOLUME_SIZE_LIMIT: &'static str = "2Mi";
/// Label set on the pod template, as name and value.
pub const LABEL_NAME: &'static str = "nimbus";
pub const LABEL_VALUE: &'static str = "enabled";

/// The sidecar container to merge into the pod template.
pub struct SidecarSpec {
    pub name: String,
    pub image: String,
    pub image_pull_policy: String,
    pub container_port: u16,
    pub port_name: String,
    pub volume_name: String,
    pub mount_path: String,
    pub size_limit: String,
    /// Environment variables, sorted by name.
    pub env: Vec<(String, String)>,
}

/// The desired sidecar for a configuration: fixed container, port and
/// volume, and the configuration as its environment, sorted by name.
pub fn build_sidecar(env: &CirrusEnvironment) -> (r: SidecarSpec)
    requires
        env.wf(),
    ensures
        r.name@ == CONTAINER_NAME@,
        r.image@ == IMAGE@,
        r.image_pull_policy@ == PULL_POLICY@,
        r.container_port == CONTAINER_PORT,
        r.port_name@ == CONTAINER_NAME@,
        r.volume_name@ == VOLUME_NAME@,
        r.mount_path@ == MOUNT_PATH@,
        r.size_limit@ == VOLUME_SIZE_LIMIT@,
        pairs_of(r.env@) == env.pairs(),
{
    SidecarSpec {
        name: String::from_str(CONTAINER_NAME),
        image: String::from_str(IMAGE),
        image_pull_policy: String::from_str(PULL_POLICY),
        container_port: CONTAINER_PORT,
        port_name: String::from_str(CONTAINER_NAME),
        volume_name: String::from_str(VOLUME_NAME),
        mount_path: String::from_str(MOUNT_PATH),
        size_limit: String::from_str(VOLUME_SIZE_LIMIT),
        env: env.env_vars(),
    }
}

/// Building is deterministic: configurations with the same names and values
/// give the same environment list, in the same order, whatever order their
/// values were set in.
pub proof fn lemma_build_deterministic(a: CirrusEnvironment, b: CirrusEnvironment)
    requires
        a.wf(),
        b.wf(),
        a@ == b@,
    ensures
        a.pairs() == b.pairs(),
{
    lemma_sorted_canonical(a.pairs(), b.pairs());
}

} // verus!
