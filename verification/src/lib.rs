//! Decoder for a compiled 3D model binary format: a table-of-contents header,
//! bone hierarchy, material tables, body-part/model/mesh index tables, and
//! compressed skeletal animation streams, all resolved through bounds- and
//! alignment-checked views over one immutable byte buffer.

pub mod anim;
pub mod anim_data;
pub mod bytes;
pub mod codec;
pub mod entities;
pub mod error;
pub mod frame_anim;
pub mod mdl;
pub mod model;
pub mod rle;
