//! Verified rules of the AI short-drama and interactive-game workbench.

pub mod asset_cleanup;
pub mod cancellation;
pub mod composites;
pub mod covers;
pub mod creation;
pub mod decomposition;
pub mod deletion;
pub mod edge_edits;
pub mod error;
pub mod forms;
pub mod frame_references;
pub mod game_graph;
pub mod game_materials;
pub mod game_placeholder;
pub mod game_screenplay;
pub mod game_state;
pub mod game_video;
pub mod graph;
pub mod image_batches;
pub mod json;
pub mod node_edits;
pub mod placeholder;
pub mod project_queue;
pub mod project_settings;
pub mod projections;
pub mod providers;
pub mod refinement;
pub mod screenplay;
pub mod serial_batch;
pub mod sessions;
pub mod service;
pub mod settings_import;
pub mod settings_models;
pub mod settings_store;
pub mod shot_references;
pub mod skills;
pub mod storage;
pub mod text;
pub mod video_export;
pub mod video_history;
pub mod voice_tasks;
pub mod voices;
