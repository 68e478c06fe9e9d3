//! Functions, their revisions and aliases.

use vstd::prelude::*;

use crate::text;
use crate::time::Timestamp;

verus! {

/// A function of a tenant.
#[derive(Debug, PartialEq, Eq)]
pub struct Function {
    pub id: String,
    pub tenant_id: String,
    /// Unique among the tenant's functions that are not deleted.
    pub name: String,
    pub description: String,
    pub created_at: Timestamp,
    pub deleted_at: Option<Timestamp>,
}

impl Clone for Function {
    fn clone(&self) -> (r: Self)
        ensures
            r == *self,
    {
        Function {
            id: self.id.clone(),
            tenant_id: self.tenant_id.clone(),
            name: self.name.clone(),
            description: self.description.clone(),
            created_at: self.created_at,
            deleted_at: self.deleted_at,
        }
    }
}

impl Function {
    /// The same content, field by field.
    pub open spec fn same(self, other: Function) -> bool {
        &&& self.id@ == other.id@
        &&& self.tenant_id@ == other.tenant_id@
        &&& self.name@ == other.name@
        &&& self.description@ == other.description@
        &&& self.created_at == other.created_at
        &&& self.deleted_at == other.deleted_at
    }

    /// Whether two rows have the same content.
    pub fn is_same(&self, other: &Function) -> (r: bool)
        ensures
            r == self.same(*other),
    {
        text::same_text(self.id.as_str(), other.id.as_str())
            && text::same_text(self.tenant_id.as_str(), other.tenant_id.as_str())
            && text::same_text(self.name.as_str(), other.name.as_str())
            && text::same_text(self.description.as_str(), other.description.as_str())
            && self.created_at == other.created_at
            && crate::domain::same_time(self.deleted_at, other.deleted_at)
    }
}

impl Function {
    /// Whether the function was deleted.
    pub open spec fn deleted(self) -> bool {
        self.deleted_at is Some
    }

    /// Whether the function was deleted.
    pub fn is_deleted(&self) -> (r: bool)
        ensures
            r == self.deleted(),
    {
        self.deleted_at.is_some()
    }
}

/// Where a revision stands on its way to serving.
#[derive(Debug, PartialEq, Eq)]
pub enum RevisionStatus {
    Pending,
    Preparing,
    Validating,
    Ready,
    Failed { reason: String },
}

impl Clone for RevisionStatus {
    fn clone(&self) -> (r: Self)
        ensures
            r == *self,
    {
        match self {
            RevisionStatus::Pending => RevisionStatus::Pending,
            RevisionStatus::Preparing => RevisionStatus::Preparing,
            RevisionStatus::Validating => RevisionStatus::Validating,
            RevisionStatus::Ready => RevisionStatus::Ready,
            RevisionStatus::Failed { reason } => RevisionStatus::Failed { reason: reason.clone() },
        }
    }
}

impl RevisionStatus {
    /// The same content.
    pub open spec fn same(self, other: RevisionStatus) -> bool {
        match (self, other) {
            (RevisionStatus::Failed { reason: a }, RevisionStatus::Failed { reason: b }) => a@
                == b@,
            (RevisionStatus::Failed { .. }, _) => false,
            (_, RevisionStatus::Failed { .. }) => false,
            _ => self == other,
        }
    }

    /// Whether two statuses have the same content.
    pub fn is_same(&self, other: &RevisionStatus) -> (r: bool)
        ensures
            r == self.same(*other),
    {
        match (self, other) {
            (RevisionStatus::Pending, RevisionStatus::Pending) => true,
            (RevisionStatus::Preparing, RevisionStatus::Preparing) => true,
            (RevisionStatus::Validating, RevisionStatus::Validating) => true,
            (RevisionStatus::Ready, RevisionStatus::Ready) => true,
            (RevisionStatus::Failed { reason: a }, RevisionStatus::Failed { reason: b }) => {
                text::same_text(a.as_str(), b.as_str())
            },
            _ => false,
        }
    }

    /// A status that no revision leaves again.
    pub open spec fn terminal(self) -> bool {
        self is Ready || self is Failed
    }

    /// Whether no revision leaves this status again.
    pub fn is_terminal(&self) -> (r: bool)
        ensures
            r == self.terminal(),
    {
        matches!(self, RevisionStatus::Ready | RevisionStatus::Failed { .. })
    }

    /// Name of the status.
    pub open spec fn spec_name(self) -> Seq<char> {
        match self {
            RevisionStatus::Pending => "pending"@,
            RevisionStatus::Preparing => "preparing"@,
            RevisionStatus::Validating => "validating"@,
            RevisionStatus::Ready => "ready"@,
            RevisionStatus::Failed { .. } => "failed"@,
        }
    }

    /// Name of the status.
    pub fn name(&self) -> (r: &'static str)
        ensures
            r@ == self.spec_name(),
    {
        match self {
            RevisionStatus::Pending => "pending",
            RevisionStatus::Preparing => "preparing",
            RevisionStatus::Validating => "validating",
            RevisionStatus::Ready => "ready",
            RevisionStatus::Failed { .. } => "failed",
        }
    }
}

/// One immutable revision of a function.
#[derive(Debug, PartialEq, Eq)]
pub struct FunctionRevision {
    pub id: String,
    pub function_id: String,
    pub tenant_id: String,
    /// Counts up from 1 per function.
    pub number: u64,
    /// The specification, in its canonical text.
    pub spec: String,
    pub spec_digest: String,
    pub status: RevisionStatus,
    pub created_at: Timestamp,
}

impl Clone for FunctionRevision {
    fn clone(&self) -> (r: Self)
        ensures
            r == *self,
    {
        FunctionRevision {
            id: self.id.clone(),
            function_id: self.function_id.clone(),
            tenant_id: self.tenant_id.clone(),
            number: self.number,
            spec: self.spec.clone(),
            spec_digest: self.spec_digest.clone(),
            status: self.status.clone(),
            created_at: self.created_at,
        }
    }
}

impl FunctionRevision {
    /// The same content, field by field.
    pub open spec fn same(self, other: FunctionRevision) -> bool {
        &&& self.id@ == other.id@
        &&& self.function_id@ == other.function_id@
        &&& self.tenant_id@ == other.tenant_id@
        &&& self.number == other.number
        &&& self.spec@ == other.spec@
        &&& self.spec_digest@ == other.spec_digest@
        &&& self.status.same(other.status)
        &&& self.created_at == other.created_at
    }

    /// Whether two rows have the same content.
    pub fn is_same(&self, other: &FunctionRevision) -> (r: bool)
        ensures
            r == self.same(*other),
    {
        text::same_text(self.id.as_str(), other.id.as_str())
            && text::same_text(self.function_id.as_str(), other.function_id.as_str())
            && text::same_text(self.tenant_id.as_str(), other.tenant_id.as_str())
            && self.number == other.number
            && text::same_text(self.spec.as_str(), other.spec.as_str())
            && text::same_text(self.spec_digest.as_str(), other.spec_digest.as_str())
            && self.status.is_same(&other.status)
            && self.created_at == other.created_at
    }
}

/// A name that points at a revision of a function.
#[derive(Debug, PartialEq, Eq)]
pub struct FunctionAlias {
    pub function_id: String,
    pub tenant_id: String,
    pub name: String,
    pub revision_id: String,
    pub previous_revision_id: Option<String>,
    /// Advances with every change.
    pub generation: u64,
    pub created_at: Timestamp,
    pub updated_at: Timestamp,
}

impl Clone for FunctionAlias {
    fn clone(&self) -> (r: Self)
        ensures
            r == *self,
    {
        FunctionAlias {
            function_id: self.function_id.clone(),
            tenant_id: self.tenant_id.clone(),
            name: self.name.clone(),
            revision_id: self.revision_id.clone(),
            previous_revision_id: text::clone_opt(&self.previous_revision_id),
            generation: self.generation,
            created_at: self.created_at,
            updated_at: self.updated_at,
        }
    }
}

impl FunctionAlias {
    /// The same content, field by field.
    pub open spec fn same(self, other: FunctionAlias) -> bool {
        &&& self.function_id@ == other.function_id@
        &&& self.tenant_id@ == other.tenant_id@
        &&& self.name@ == other.name@
        &&& self.revision_id@ == other.revision_id@
        &&& text::opt_view(self.previous_revision_id) == text::opt_view(other.previous_revision_id)
        &&& self.generation == other.generation
        &&& self.created_at == other.created_at
        &&& self.updated_at == other.updated_at
    }

    /// Whether two rows have the same content.
    pub fn is_same(&self, other: &FunctionAlias) -> (r: bool)
        ensures
            r == self.same(*other),
    {
        text::same_text(self.function_id.as_str(), other.function_id.as_str())
            && text::same_text(self.tenant_id.as_str(), other.tenant_id.as_str())
            && text::same_text(self.name.as_str(), other.name.as_str())
            && text::same_text(self.revision_id.as_str(), other.revision_id.as_str())
            && text::same_opt(&self.previous_revision_id, &other.previous_revision_id)
            && self.generation == other.generation
            && self.created_at == other.created_at
            && self.updated_at == other.updated_at
    }
}

} // verus!
