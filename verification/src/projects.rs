//! Project use-case handles. Each one carries the repository it will work
//! through, injected at construction; the data access itself is persistence
//! work outside this core, so only the handles and their construction stand
//! here.

use std::sync::Arc;
use vstd::prelude::*;

verus! {

/// Creates a project for a user through the injected repository.
#[derive(Clone)]
pub struct CreateProject<R> {
    project_repo: Arc<R>,
}

impl<R> CreateProject<R> {
    /// The injected repository handle.
    pub closed spec fn repo(&self) -> Arc<R> {
        self.project_repo
    }

    pub fn new(project_repo: Arc<R>) -> (r: Self)
        ensures
            r.repo() == project_repo,
    {
        CreateProject { project_repo }
    }
}

/// Soft-deletes a project of a user through the injected repository.
#[derive(Clone)]
pub struct DeleteProject<R> {
    project_repo: Arc<R>,
}

impl<R> DeleteProject<R> {
    /// The injected repository handle.
    pub closed spec fn repo(&self) -> Arc<R> {
        self.project_repo
    }

    pub fn new(project_repo: Arc<R>) -> (r: Self)
        ensures
            r.repo() == project_repo,
    {
        DeleteProject { project_repo }
    }
}

/// Lists the projects of one user through the injected repository.
#[derive(Clone)]
pub struct GetAllProjectByUserId<R> {
    project_repo: Arc<R>,
}

impl<R> GetAllProjectByUserId<R> {
    /// The injected repository handle.
    pub closed spec fn repo(&self) -> Arc<R> {
        self.project_repo
    }

    pub fn new(project_repo: Arc<R>) -> (r: Self)
        ensures
            r.repo() == project_repo,
    {
        GetAllProjectByUserId { project_repo }
    }
}

} // verus!
