//! Planning logic of a Bedrock dedicated-server updater: version handling,
//! download-link discovery, archive naming and the HeavyNode API requests.

pub mod foreign;
pub mod heavynode;
pub mod paths;
pub mod text;
pub mod webprocessing;
pub mod zipfile;
