//! A typed, string-keyed metadata container whose values can be stored and
//! retrieved either as already-serialized text or as native in-memory values,
//! with conversions computed lazily and cached in write-once slots.
//!
//! The lazy accessors take `&mut self`: a first read that has to fill a
//! slot is a write, so sharing a cell or a container across threads
//! requires the caller to serialize access (a mutex around the whole
//! value). The compute-at-most-once guarantee is carried by the write-once
//! slot contracts under that exclusive access.

pub mod data;
pub mod freeform;
pub mod laws;
pub mod native;
pub mod scheme;
pub mod sord;
pub mod typed_sord;

pub use sord::{Sord, SordErrVal, SordError, SordView};
pub use typed_sord::{TypedSord, TypedSordView};

pub use data::{FreeformData, FreeformDefault, TypedKey};
pub use freeform::{Freeform, FreeformErr, FreeformErrVal};
pub use laws::{
    lemma_last_write_wins, lemma_merge_no_new_keys, lemma_native_value_determinism,
    lemma_nested_container_read, lemma_representation_equivalence, lemma_round_trip,
    lemma_write_once_determinism,
};
pub use native::{Native, NativeVal};
pub use scheme::{Json, Ron, SerdeScheme, Toml};
