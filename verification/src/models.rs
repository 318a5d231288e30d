//! Records that the commands and services pass around.

use vstd::prelude::*;

verus! {

/// A stored clip.
#[derive(Debug, Clone)]
pub struct Clip {
    pub id: String,
    pub content: String,
    pub content_type: String,
    pub image_path: Option<String>,
    pub source_url: Option<String>,
    pub page_title: Option<String>,
    pub app_name: Option<String>,
    pub window_title: Option<String>,
    pub language: Option<String>,
    pub session_id: Option<String>,
    pub is_pinned: bool,
    pub copied_at: i64,
    pub ai_context: Option<String>,
    pub created_at: String,
}

/// What the shell is told when a clip has been saved.
#[derive(Debug, Clone)]
pub struct ClipAddedPayload {
    pub clip_id: String,
    pub content_preview: String,
    pub content_type: String,
    pub app_name: Option<String>,
    pub copied_at: i64,
}

/// A content filter rule.
#[derive(Debug, Clone)]
pub struct FilterRule {
    pub rule_type: String,
    pub pattern: String,
    pub action: String,
}

/// What the shell needs to know at start-up.
#[derive(Debug, Clone)]
pub struct BootstrapState {
    pub database_ready: bool,
    pub embedding_status: String,
    pub stage: String,
}

} // verus!
