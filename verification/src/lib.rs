//! ai-switch: starting, stopping and switching local llama.cpp model servers,
//! one at a time, behind one fixed proxy port.

pub mod config;
pub mod health_monitor;
pub mod io_error;
pub mod json;
pub mod log_viewer;
pub mod logs;
pub mod model_card;
pub mod paths;
pub mod port_table;
pub mod preferences;
pub mod process_manager;
pub mod proxy;
pub mod reconciler;
pub mod scan;
pub mod single_instance;
pub mod slots;
pub mod spawn;
pub mod termination;
pub mod text;
pub mod window;
