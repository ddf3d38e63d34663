pub mod mesh_batch;
pub mod mesh_manager;
pub mod obj;
pub mod text;
pub mod vertex;
