pub mod aes_ccm;
pub mod block;
pub mod curve;
pub mod digest;
