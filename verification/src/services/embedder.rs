//! What the background embedder feeds the model.

use vstd::prelude::*;

use crate::services::model_registry::prepare_text;
use crate::services::model_registry::spec_prepare_text;
use crate::text::chars_of;
use crate::text::spec_take_chars;
use crate::text::string_of;
use crate::text::take_chars;

verus! {

/// The model and index version used before any has been registered.
pub const CURRENT_MODEL: &'static str = "bge-small-en-v1.5";

pub const CURRENT_VERSION: &'static str = "1";

/// Characters of a clip that are embedded; the rest is cut off.
pub const MAX_EMBED_CHARS: usize = 8000;

/// Clips embedded per batch.
pub const BATCH_SIZE: usize = 10;

/// The text embedded for a clip: its first 8000 characters, prepared for
/// the model as a document.
pub open spec fn spec_embedding_input(model_id: Seq<char>, content: Seq<char>) -> Seq<char> {
    spec_prepare_text(model_id, spec_take_chars(content, MAX_EMBED_CHARS as int), false)
}

pub fn embedding_input(model_id: &str, content: &str) -> (r: String)
    ensures
        r@ == spec_embedding_input(model_id@, content@),
{
    let cut = string_of(&take_chars(&chars_of(content), MAX_EMBED_CHARS));
    prepare_text(model_id, cut.as_str(), false)
}

} // verus!
