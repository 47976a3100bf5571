//! Failures that are not part of a domain contract.
use vstd::prelude::*;
use crate::text::Text;

verus! {

/// A failure that the Kernel reported for a dependency call.
#[verifier::external_type_specification]
#[verifier::external_body]
pub struct ExKernelFailure(lenso_kernel::RuntimeFailure);

/// A failure of the running system, as opposed to a domain answer.
#[derive(Debug, PartialEq, Eq)]
pub enum RuntimeFault {
    /// The configuration or the resolved plan cannot be used.
    InvalidResolvedPlan { detail: String },
    /// A value could not be put on the wire.
    Internal { detail: String },
    /// The Plugin, or a dependency that it queried, failed.
    PluginFailure { detail: String },
    /// The Kernel failed a dependency call; the failure is passed on.
    Kernel(lenso_kernel::RuntimeFailure),
}

/// What a [`RuntimeFault`] says.
#[verifier::ext_equal]
pub enum RuntimeFaultModel {
    InvalidResolvedPlan { detail: Text },
    Internal { detail: Text },
    PluginFailure { detail: Text },
    Kernel(lenso_kernel::RuntimeFailure),
}

impl View for RuntimeFault {
    type V = RuntimeFaultModel;

    open spec fn view(&self) -> RuntimeFaultModel {
        match *self {
            RuntimeFault::InvalidResolvedPlan { detail } =>
                RuntimeFaultModel::InvalidResolvedPlan { detail: detail@ },
            RuntimeFault::Internal { detail } => RuntimeFaultModel::Internal {
                detail: detail@,
            },
            RuntimeFault::PluginFailure { detail } => RuntimeFaultModel::PluginFailure {
                detail: detail@,
            },
            RuntimeFault::Kernel(failure) => RuntimeFaultModel::Kernel(failure),
        }
    }
}

/// An operation's failure: a domain answer, or a failure of the running system.
#[derive(Debug, PartialEq, Eq)]
pub enum PluginError<E> {
    Domain(E),
    Runtime(RuntimeFault),
}

/// What a [`PluginError`] says.
#[verifier::ext_equal]
pub enum PluginErrorModel<E> {
    Domain(E),
    Runtime(RuntimeFaultModel),
}

impl<E> View for PluginError<E> {
    type V = PluginErrorModel<E>;

    open spec fn view(&self) -> PluginErrorModel<E> {
        match *self {
            PluginError::Domain(error) => PluginErrorModel::Domain(error),
            PluginError::Runtime(fault) => PluginErrorModel::Runtime(fault@),
        }
    }
}

} // verus!
