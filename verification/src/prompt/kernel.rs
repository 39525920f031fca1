//! Adapter that exposes a template registry to the kernel runtime.

use crate::prompt::registry::{RegistryView, TemplateRegistry};
use vstd::prelude::*;

verus! {

/// Holds a registry for the kernel runtime to observe.
pub struct PromptKernelAdapter {
    registry: TemplateRegistry,
}

impl PromptKernelAdapter {
    /// The registry's templates.
    pub closed spec fn registry_view(&self) -> RegistryView {
        self.registry.view_registry()
    }

    pub fn new(registry: TemplateRegistry) -> (a: Self)
        ensures
            a.registry_view() == registry.view_registry(),
    {
        PromptKernelAdapter { registry }
    }

    pub fn registry(&self) -> (r: &TemplateRegistry)
        ensures
            r.view_registry() == self.registry_view(),
    {
        &self.registry
    }
}

} // verus!
