pub mod broker;
pub mod error;
pub mod frozen;
pub mod hard_tools;
pub mod inject;
pub mod load;
pub mod methods;
pub mod shape;
pub mod types;
pub mod validate;
pub mod workflow;

pub use broker::{broker_endpoint_from_url, broker_port, resolve_broker_url, BrokerCfg};
pub use error::{ManifestError, Refusal};
pub use hard_tools::HardToolCfg;
pub use types::{
    AgentCfg, Artifact, CodexCfg, ComponentRef, CompositeCfg, CompositeManifest, Direction, Harness,
    HarnessModels, HermesCfg, Inject, JudgeCfg, Manifest, OpaqueTable, PublishCfg, ReasoningEffort, Repo,
    ResolvedComponent, WorkflowCfg, WorkflowType, Workspace, WorldCfg,
};
