//! The traits a provider and its models implement.
use vstd::prelude::*;

verus! {

/// A model a service can run.
pub trait Model {
    /// The identifier the service knows this model by.
    fn model_id(&self) -> &'static str;
}

/// A service that runs a family of models.
pub trait Provider {
    /// The models this provider offers.
    type ModelType: Model;

    /// The provider's name, as its key and endpoint configuration use it.
    fn provider_name() -> &'static str;
}

} // verus!
