//! What the shell is told at start-up.

use vstd::prelude::*;

use crate::models::BootstrapState;
use crate::state::status_label;
use crate::state::EmbeddingStatus;
use crate::text::chars_of;
use crate::text::string_of;

verus! {

/// The start-up state: the database is open, the stage as stored (`clippy`
/// where none is), and the embedding model's status.
pub fn bootstrap_state(stage: Option<String>, status: EmbeddingStatus) -> (r: BootstrapState)
    ensures
        r.database_ready,
        r.stage@ == match stage {
            Some(s) => s@,
            None => "clippy"@,
        },
        r.embedding_status@ == status_label(status),
{
    let stage = match stage {
        Some(s) => s,
        None => string_of(&chars_of("clippy")),
    };
    BootstrapState {
        database_ready: true,
        embedding_status: string_of(&chars_of(status.label())),
        stage,
    }
}

} // verus!
