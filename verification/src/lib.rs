pub mod assemble;
pub mod laws;
pub mod model;
pub mod registry;
pub mod respond;
pub mod text;
pub mod upstream;
