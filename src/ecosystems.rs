pub mod cargo;
pub mod composer;
pub mod dart;
pub mod go;
pub mod gradle;
pub mod haskell;
pub mod jsr;
pub mod maven;
pub mod node;
pub mod python;
pub mod renv;
pub mod ruby;
