//! What Kiro answers when it is asked for its models.
use vstd::prelude::*;

verus! {

/// The list of models.
#[derive(Debug)]
pub struct ModelsResponse {
    pub models: Vec<KiroModel>,
}

/// One model.
#[derive(Debug)]
pub struct KiroModel {
    pub model_id: String,
}

} // verus!
