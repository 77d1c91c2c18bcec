//! A minimal display-server endpoint: GPU buffer descriptors imported by the
//! protocol session travel through a handoff channel to the texture assembly.
mod descriptor;
mod feedback;
mod handoff;
mod import;
mod session;
mod texture;

pub use descriptor::{BufferDescriptor, Format, ImportError, ImportRequest, Plane, MAX_PLANES};
pub use feedback::{contains_format, dedup, lemma_dedup_contains, Feedback};
pub use handoff::{lemma_fifo_delivery, lemma_receive_splits, queued, receive_n, send_all, DmabufImported};
pub use import::{check_import, import_buffer, import_verdict, surface_feedback};
pub use session::{
    as_popup, as_toplevel, attached, clients_increasing, clients_without, committed, has_surface, ids_increasing,
    index_of, lemma_disconnect_isolates, lemma_surviving_surface, lemma_without_keeps_order, surfaces_without, Configure, Session, SessionError, Surface, SurfaceRole,
};
pub use texture::{
    after_realization, assemble, assemble_checked, blank_desc, lemma_replaced_times, lemma_replacement_idempotent, realized_times, texture_of, CurrentTexture, TextureBuilder,
    TextureDesc,
};
