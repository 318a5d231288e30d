//! The embedding models Mnemo can use, where their files live, and how a
//! text is prepared for each.

use vstd::prelude::*;

use crate::text::chars_of;
use crate::text::concat;
use crate::text::eq_str;
use crate::text::string_of;

verus! {

/// An embedding model the settings offer.
#[derive(Debug, Clone, Copy)]
pub struct ModelInfo {
    pub id: &'static str,
    pub display_name: &'static str,
    pub dimensions: usize,
    pub size_mb: usize,
    pub description: &'static str,
    pub recommended_for: &'static str,
}

/// Where a model's files are published.
#[derive(Debug, Clone, Copy)]
pub struct ModelArtifacts {
    pub repository: &'static str,
    pub model_file: &'static str,
}

/// The supported models, the default first.
pub open spec fn spec_supported_models() -> Seq<ModelInfo> {
    seq![
        ModelInfo {
            id: "bge-small-en-v1.5",
            display_name: "BGE Small (Fast)",
            dimensions: 384,
            size_mb: 130,
            description: "Default retrieval model with the best speed-quality balance.",
            recommended_for: "general",
        },
        ModelInfo {
            id: "bge-base-en-v1.5",
            display_name: "BGE Base (Quality)",
            dimensions: 768,
            size_mb: 420,
            description: "Higher recall with larger vectors and slower embedding.",
            recommended_for: "quality",
        },
        ModelInfo {
            id: "nomic-embed-text-v1.5",
            display_name: "Nomic v1.5 (Long context)",
            dimensions: 768,
            size_mb: 270,
            description: "Long-context model for larger copied documents.",
            recommended_for: "long_form",
        },
    ]
}

fn bge_small() -> (r: ModelInfo)
    ensures
        r == spec_supported_models()[0],
{
    ModelInfo {
        id: "bge-small-en-v1.5",
        display_name: "BGE Small (Fast)",
        dimensions: 384,
        size_mb: 130,
        description: "Default retrieval model with the best speed-quality balance.",
        recommended_for: "general",
    }
}

fn bge_base() -> (r: ModelInfo)
    ensures
        r == spec_supported_models()[1],
{
    ModelInfo {
        id: "bge-base-en-v1.5",
        display_name: "BGE Base (Quality)",
        dimensions: 768,
        size_mb: 420,
        description: "Higher recall with larger vectors and slower embedding.",
        recommended_for: "quality",
    }
}

fn nomic() -> (r: ModelInfo)
    ensures
        r == spec_supported_models()[2],
{
    ModelInfo {
        id: "nomic-embed-text-v1.5",
        display_name: "Nomic v1.5 (Long context)",
        dimensions: 768,
        size_mb: 270,
        description: "Long-context model for larger copied documents.",
        recommended_for: "long_form",
    }
}

pub fn supported_models() -> (r: Vec<ModelInfo>)
    ensures
        r@ == spec_supported_models(),
{
    let mut v: Vec<ModelInfo> = Vec::new();
    v.push(bge_small());
    v.push(bge_base());
    v.push(nomic());
    assert(v@ =~= spec_supported_models());
    v
}

/// The first supported model with this id.
pub open spec fn spec_info(id: Seq<char>) -> Option<ModelInfo> {
    let m = spec_supported_models();
    if m[0].id@ == id {
        Some(m[0])
    } else if m[1].id@ == id {
        Some(m[1])
    } else if m[2].id@ == id {
        Some(m[2])
    } else {
        None
    }
}

pub fn info(id: &str) -> (r: Option<ModelInfo>)
    ensures
        r == spec_info(id@),
{
    let k = chars_of(id);
    if eq_str(&k, "bge-small-en-v1.5") {
        Some(bge_small())
    } else if eq_str(&k, "bge-base-en-v1.5") {
        Some(bge_base())
    } else if eq_str(&k, "nomic-embed-text-v1.5") {
        Some(nomic())
    } else {
        None
    }
}

/// The repository and ONNX file of each supported model.
pub open spec fn spec_artifacts(id: Seq<char>) -> Option<ModelArtifacts> {
    if id == "bge-small-en-v1.5"@ {
        Some(ModelArtifacts { repository: "Xenova/bge-small-en-v1.5", model_file: "onnx/model.onnx" })
    } else if id == "bge-base-en-v1.5"@ {
        Some(ModelArtifacts { repository: "Xenova/bge-base-en-v1.5", model_file: "onnx/model.onnx" })
    } else if id == "nomic-embed-text-v1.5"@ {
        Some(
            ModelArtifacts {
                repository: "nomic-ai/nomic-embed-text-v1.5",
                model_file: "onnx/model.onnx",
            },
        )
    } else {
        None
    }
}

pub fn artifacts(id: &str) -> (r: Option<ModelArtifacts>)
    ensures
        r == spec_artifacts(id@),
{
    let k = chars_of(id);
    if eq_str(&k, "bge-small-en-v1.5") {
        Some(ModelArtifacts { repository: "Xenova/bge-small-en-v1.5", model_file: "onnx/model.onnx" })
    } else if eq_str(&k, "bge-base-en-v1.5") {
        Some(ModelArtifacts { repository: "Xenova/bge-base-en-v1.5", model_file: "onnx/model.onnx" })
    } else if eq_str(&k, "nomic-embed-text-v1.5") {
        Some(
            ModelArtifacts {
                repository: "nomic-ai/nomic-embed-text-v1.5",
                model_file: "onnx/model.onnx",
            },
        )
    } else {
        None
    }
}

/// The text as the model embeds it: the Nomic model wants a task prefix,
/// `search_query: ` for queries and `search_document: ` for clips; the
/// others take the text as it is.
pub open spec fn spec_prepare_text(model_id: Seq<char>, text: Seq<char>, query: bool) -> Seq<char> {
    if model_id == "nomic-embed-text-v1.5"@ {
        (if query {
            "search_query: "@
        } else {
            "search_document: "@
        }) + text
    } else {
        text
    }
}

pub fn prepare_text(model_id: &str, text: &str, query: bool) -> (r: String)
    ensures
        r@ == spec_prepare_text(model_id@, text@, query),
{
    if eq_str(&chars_of(model_id), "nomic-embed-text-v1.5") {
        let prefix = if query {
            "search_query: "
        } else {
            "search_document: "
        };
        string_of(&concat(&chars_of(prefix), &chars_of(text)))
    } else {
        string_of(&chars_of(text))
    }
}

} // verus!
