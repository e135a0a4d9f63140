pub mod helpers;
pub mod instructions;
pub mod patterns;
pub mod jumps;
pub mod reg_manipulation;
pub mod mem_manipulation;
pub mod set_imms;
pub mod teleport;
pub mod bomb;
pub mod assembler;
