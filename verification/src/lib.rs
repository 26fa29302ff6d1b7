//! Verified core of the CESARops search-and-rescue and wreck-hunting
//! pipeline: the mission plan and its stages, satellite-scene bookkeeping,
//! density clustering and multi-sensor locks, the worker's tool routing and
//! arguments, the GPU node's state, the responder roster and search segments.
//! Floating-point measurement, network and file access live with the caller.

pub mod node;
pub mod text;
pub mod capabilities;
pub mod concept;
pub mod lake_levels;
pub mod env_conditions;
pub mod roster;
pub mod plugins;
pub mod engine_error;
pub mod detection;
pub mod sar;
pub mod geotiff;
pub mod triple_lock;
pub mod scan_plan;
pub mod calendar;
pub mod downloads;
pub mod dbscan;
pub mod stac;
pub mod mission;
pub mod tools;
pub mod model_registry;
pub mod components;
pub mod cmr;
pub mod edge;
pub mod tracking;
pub mod segments;
pub mod scene_select;
pub mod collate;
pub mod temporal;
pub mod tool_args;
pub mod fusion;
pub mod buoy;
pub mod reporting;
