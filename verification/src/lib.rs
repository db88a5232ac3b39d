pub mod accounts;
pub mod audio;
pub mod backend;
pub mod build_stamp;
pub mod bytes;
pub mod json;
pub mod model;
pub mod text;
pub mod text_map;
