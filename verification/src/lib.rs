//! Device redirection for a browser client: a virtual drive that the embedding page seeds from
//! chosen files, and playback of server audio.

pub mod audio;
pub mod backend;
pub mod backend_laws;
pub mod backend_model;
pub mod call_laws;
pub mod drive;
pub mod drive_laws;
pub mod efs;
pub mod filetime;
pub mod path;
pub mod path_laws;
pub mod path_map;
pub mod rdpdr;
pub mod request_laws;
pub mod response;
pub mod text;
pub mod tree_laws;
pub mod wire_laws;
