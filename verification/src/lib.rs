pub mod cpu;
mod entropy;
pub mod laws;
pub mod machine;
pub mod opcode;
mod painting;
