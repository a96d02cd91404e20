//! Parameters, test bands and checkpoint records of an ASTRA reconstruction
//! optimizer: everything the tool decides and computes between reading a
//! checkpoint, running the reconstruction and writing the parameters back.
pub mod bands;
pub mod checkpoint;
pub mod description;
pub mod json;
pub mod method;
pub mod params;
pub mod recon;
pub mod stack;
pub mod text;
