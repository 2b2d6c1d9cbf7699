//! The records exchanged with the backend.
use vstd::prelude::*;
use crate::classify::ApiConfigError;

verus! {

/// A provider/model pair that the backend offers.
#[derive(Debug, Clone)]
pub struct Model {
    pub provider: String,
    pub name: String,
    pub id: String,
    pub model: String,
    pub description: String,
    pub modality: String,
    pub is_available: bool,
}

#[derive(Debug)]
pub struct ModelsResponse {
    pub models: Vec<Model>,
}

#[derive(Debug)]
pub struct SystemPromptResponse {
    pub prompt_name: String,
    pub system_prompt: String,
}

/// The outcome of a transcription, as handed to the UI.
#[derive(Debug)]
pub struct AudioResponse {
    pub success: bool,
    pub transcription: Option<String>,
    pub error: Option<String>,
}

#[derive(Debug)]
pub struct ChatResponse {
    pub success: bool,
    pub message: Option<String>,
    pub error: Option<String>,
}

/// One extra multipart field for the transcription request.
#[derive(Debug, Clone)]
pub struct UserAudioHeader {
    pub key: String,
    pub value: String,
}

/// Where and how audio is transcribed, with an optional fallback tier.
#[derive(Debug, Clone)]
pub struct UserAudioConfig {
    pub url: String,
    pub fallback_url: Option<String>,
    pub model: String,
    pub fallback_model: Option<String>,
    pub user_token: String,
    pub fallback_user_token: Option<String>,
    pub headers: Option<Vec<UserAudioHeader>>,
}

/// The per-call routing configuration that the backend returns.
#[derive(Debug)]
pub struct ApiResponseConfig {
    pub url: String,
    pub user_token: String,
    pub model: String,
    /// Extra members for the chat body, as JSON object text.
    pub body: String,
    pub customer_id: Option<i64>,
    pub customer_email: Option<String>,
    pub customer_name: Option<String>,
    pub license_key: String,
    pub instance_id: String,
    pub user_audio: Option<UserAudioConfig>,
    pub errors: Option<Vec<ApiConfigError>>,
}

/// The configured error rules; none when the configuration has none.
pub open spec fn rules_of(c: ApiResponseConfig) -> Seq<ApiConfigError> {
    match c.errors {
        Some(v) => v@,
        None => seq![],
    }
}

impl ApiResponseConfig {
    pub fn error_rules(&self) -> (r: &[ApiConfigError])
        ensures
            r@ == rules_of(*self),
    {
        match &self.errors {
            Some(v) => v.as_slice(),
            None => {
                let e: &[ApiConfigError] = &[];
                assert(e@ =~= Seq::<ApiConfigError>::empty());
                e
            },
        }
    }
}

} // verus!
