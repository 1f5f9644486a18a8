//! Discovers the Cargo workspace that owns a capture request.
//!
//! [`discover_workspace`] takes the canonical workspace root from the Cargo selected by the
//! environment. The resulting [`Workspace`] retains that executable, root, and the absolute
//! invocation directory. Each capture reads metadata again so ordinary manifest edits update the
//! build record. Callers must discover a new [`Workspace`] after relocating the workspace on disk.

use super::error::{Error, ErrorData, Failure};
use super::request::{BuildRequest, RequestData};
use crate::chars;
use crate::ir::toolchain;
use crate::ir::toolchain::selected_cargo;
use crate::paths;
use crate::paths::is_absolute;
use vstd::prelude::*;
use vstd::string::StringExecFns;

verus! {

/// A metadata query without dependencies.
#[derive(Debug, PartialEq, Eq)]
pub struct MetadataQuery {
    /// The Cargo program.
    pub cargo: String,
    /// The directory in which Cargo runs.
    pub directory: String,
    /// The selected features, if there are any.
    pub features: Vec<String>,
    /// Every feature is selected.
    pub all_features: bool,
    /// The default features are not selected.
    pub no_default_features: bool,
}

/// The mathematical counterpart of [`MetadataQuery`].
pub struct QueryData {
    /// The Cargo program.
    pub cargo: Seq<char>,
    /// The directory in which Cargo runs.
    pub directory: Seq<char>,
    /// The selected features, if there are any.
    pub features: Seq<Seq<char>>,
    /// Every feature is selected.
    pub all_features: bool,
    /// The default features are not selected.
    pub no_default_features: bool,
}

impl View for MetadataQuery {
    type V = QueryData;

    open spec fn view(&self) -> QueryData {
        QueryData {
            cargo: self.cargo@,
            directory: self.directory@,
            features: chars::views(self.features@),
            all_features: self.all_features,
            no_default_features: self.no_default_features,
        }
    }
}

/// The query that discovers a workspace.
pub open spec fn discovery(start: Seq<char>, cargo: Option<Seq<char>>) -> Result<
    QueryData,
    ErrorData,
> {
    if !paths::absolute(start) {
        Err(Failure::InvocationDirectoryNotAbsolute { path: start })
    } else {
        Ok(
            QueryData {
                cargo: toolchain::cargo_program(cargo),
                directory: start,
                features: Seq::empty(),
                all_features: false,
                no_default_features: false,
            },
        )
    }
}

/// Plans the query that discovers the workspace containing the absolute `start` path.
pub fn plan_discovery(start: &str, cargo: &Option<String>) -> (result: Result<
    MetadataQuery,
    Error,
>)
    ensures
        match (result, discovery(start@, chars::option_view(*cargo))) {
            (Ok(query), Ok(expected)) => query@ == expected,
            (Err(error), Err(expected)) => error@ == expected,
            _ => false,
        },
{
    if !is_absolute(start) {
        return Err(
            Failure::InvocationDirectoryNotAbsolute { path: String::from_str(start) },
        );
    }
    Ok(
        MetadataQuery {
            cargo: selected_cargo(cargo),
            directory: String::from_str(start),
            features: chars::no_texts(),
            all_features: false,
            no_default_features: false,
        },
    )
}

/// Cargo's authoritative view of the workspace used for subsequent builds.
///
/// The invocation directory, workspace root, and member paths must keep their locations for the
/// lifetime of this value.
#[derive(Debug)]
pub struct Workspace {
    root: String,
    cargo: String,
    invocation_directory: String,
}

/// The mathematical counterpart of [`Workspace`].
pub struct WorkspaceData {
    /// The canonical workspace root.
    pub root: Seq<char>,
    /// The Cargo program.
    pub cargo: Seq<char>,
    /// The absolute invocation directory.
    pub invocation_directory: Seq<char>,
}

impl View for Workspace {
    type V = WorkspaceData;

    closed spec fn view(&self) -> WorkspaceData {
        WorkspaceData {
            root: self.root@,
            cargo: self.cargo@,
            invocation_directory: self.invocation_directory@,
        }
    }
}

impl Workspace {
    /// Returns the canonical workspace root reported by Cargo.
    pub fn root(&self) -> (result: &str)
        ensures
            result@ == self@.root,
    {
        self.root.as_str()
    }

    /// Returns the Cargo program.
    pub fn cargo(&self) -> (result: &str)
        ensures
            result@ == self@.cargo,
    {
        self.cargo.as_str()
    }

    /// Returns the absolute invocation directory.
    pub fn invocation_directory(&self) -> (result: &str)
        ensures
            result@ == self@.invocation_directory,
    {
        self.invocation_directory.as_str()
    }

    /// Plans the metadata query for a request.
    pub fn read_metadata(&self, request: &BuildRequest) -> (result: MetadataQuery)
        ensures
            result@ == request_query(self@, request@),
    {
        let mut features = chars::no_texts();
        let list = request.features();
        let ghost all = request@.features;
        let mut index: usize = 0;
        assert(chars::views(features@) =~= all.take(0));
        while index < list.len()
            invariant
                index <= list@.len(),
                all == chars::views(list@),
                chars::views(features@) == all.take(index as int),
            decreases list.len() - index,
        {
            chars::add_text(&mut features, list[index].as_str());
            assert(all[index as int] == list@[index as int]@);
            assert(chars::views(features@) =~= all.take(index + 1));
            index += 1;
        }
        assert(chars::views(features@) =~= all);
        MetadataQuery {
            cargo: self.cargo.clone(),
            directory: self.invocation_directory.clone(),
            features,
            all_features: request.all_features(),
            no_default_features: request.no_default_features(),
        }
    }
}

/// The metadata query for a request.
pub open spec fn request_query(workspace: WorkspaceData, request: RequestData) -> QueryData {
    QueryData {
        cargo: workspace.cargo,
        directory: workspace.invocation_directory,
        features: request.features,
        all_features: request.all_features,
        no_default_features: request.no_default_features,
    }
}

/// Takes the answer of Cargo to a discovery query: the workspace root, or why there is none.
pub fn discover_workspace(query: MetadataQuery, answer: Result<String, String>) -> (result: Result<
    Workspace,
    Error,
>)
    ensures
        match (result, answer) {
            (Ok(workspace), Ok(root)) => workspace@ == (WorkspaceData {
                root: root@,
                cargo: query@.cargo,
                invocation_directory: query@.directory,
            }),
            (Err(error), Err(problem)) => error@ == no_metadata(problem@),
            _ => false,
        },
{
    match answer {
        Ok(root) => Ok(
            Workspace { root, cargo: query.cargo, invocation_directory: query.directory },
        ),
        Err(problem) => Err(Failure::Metadata { problem }),
    }
}

/// The error for missing metadata.
pub open spec fn no_metadata(problem: Seq<char>) -> ErrorData {
    Failure::Metadata { problem }
}

} // verus!
