//! The earlier manifest model, in which timeline entries keep the texts
//! that the manifest writes.

pub mod mpd;
