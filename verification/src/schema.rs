//! The data the runtime reads: its own parameters and the parts of the OCI
//! bundle configuration that it looks at.
use vstd::prelude::*;

verus! {

/// Parameters of the runtime installation, read from its index file, together
/// with the id of the container being handled.
#[derive(Debug, Clone)]
pub struct EmbeddedParams {
    pub container_manager: String,
    pub home: String,
    pub container_id: String,
    pub log_level: String,
}

/// The parts of an OCI bundle's `config.json` that the runtime reads.
pub struct OCIConfig {
    pub oci_version: String,
    pub process: Process,
}

/// The `process` section of an OCI bundle's `config.json`.
pub struct Process {
    pub args: Vec<String>,
    pub env: Vec<String>,
}

/// A unikernel manifest: what kind of object it is, its API version and its spec.
pub struct UnikernelConfig {
    pub kind: String,
    pub api_version: String,
    pub spec: Spec,
}

/// The spec of a unikernel manifest: the port it listens on, the host port
/// that publishes it, its environment and its memory size.
pub struct Spec {
    pub port: String,
    pub host_port: String,
    pub env: Option<Vec<Env>>,
    pub memory: Option<String>,
}

/// One environment variable of a unikernel manifest.
pub struct Env {
    pub name: String,
    pub value: String,
}

/// The texts held by a sequence of strings.
pub open spec fn texts(v: Seq<String>) -> Seq<Seq<char>> {
    v.map_values(|s: String| s@)
}

} // verus!
