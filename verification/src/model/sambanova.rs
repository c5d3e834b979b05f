//! The SambaNova provider and its models.
use vstd::prelude::*;

use crate::model::base::Model;
use crate::model::base::Provider;

verus! {

/// The SambaNova provider and its models.
#[derive(Debug)]
pub struct SambaNova;

impl Provider for SambaNova {
    type ModelType = SambaNovaModel;

    fn provider_name() -> &'static str {
        "sambanova"
    }
}

/// The models the provider offers.
#[derive(Debug, Clone, Copy, PartialEq, Eq, Structural)]
pub enum SambaNovaModel {
    DeepSeekV3_0324,
    DeepSeekR1,
}

impl Model for SambaNovaModel {
    fn model_id(&self) -> &'static str {
        match self {
            SambaNovaModel::DeepSeekV3_0324 => "DeepSeek-V3-0324",
            SambaNovaModel::DeepSeekR1 => "DeepSeek-R1",
        }
    }
}

} // verus!
