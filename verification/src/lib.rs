//! Hardware telemetry for NVIDIA GPUs: collection rules, the DCGM companion
//! backend and the Prometheus exposition of the hardware-detail metrics.
pub mod bindings;
pub mod dcgm;
pub mod dcgm_merge;
pub mod dcgm_plugin_api;
pub mod dcgm_values;
pub mod exposition;
pub mod families;
pub mod hardware;
pub mod hardware_laws;
pub mod metrics;
pub mod number;
pub mod nvidia_extras;
pub mod nvidia_gpm;
pub mod nvidia_xid;
pub mod order;
pub mod path_text;
pub mod plugin;
pub mod sample_summary;
pub mod session;
pub mod text;
pub mod text_map;
pub mod types;
