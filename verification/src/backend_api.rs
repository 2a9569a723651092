//! The command cores: what each front-end command computes, on plain
//! values. The caller supplies the shared state pieces and performs
//! whatever disk or transport work surrounds the computation.

pub mod editor_info;
pub mod file_data;
pub mod file_system;
pub mod responses;
