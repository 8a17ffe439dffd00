pub mod adv_go_pool;
pub mod channel_laws;
pub mod rust_prim_threads;
pub mod rust_prim_tools;
