//! The directory that one instance works in.

use crate::number::{decimal, push_decimal};
use crate::path::{child_path, join_path};
use crate::text::{push_str, string_of};
use vstd::prelude::*;

verus! {

/// Why a workspace could not be had.
#[derive(Debug, PartialEq)]
pub enum WorkspaceError {
    /// The directory could not be created; the text says why.
    CreateFailed(String),
    /// The base directory cannot hold workspaces; the text names it.
    InvalidBaseDir(String),
}

/// What a [`WorkspaceError`] says.
pub open spec fn workspace_error_text(e: WorkspaceError) -> Seq<char> {
    match e {
        WorkspaceError::CreateFailed(why) => "Failed to create workspace directory: "@ + why@,
        WorkspaceError::InvalidBaseDir(dir) => "Invalid base directory: "@ + dir@,
    }
}

impl WorkspaceError {
    /// The error as a message.
    pub fn to_string(&self) -> (r: String)
        ensures
            r@ == workspace_error_text(*self),
    {
        let mut out: Vec<char> = Vec::new();
        match self {
            WorkspaceError::CreateFailed(why) => {
                push_str(&mut out, "Failed to create workspace directory: ");
                push_str(&mut out, why.as_str());
            },
            WorkspaceError::InvalidBaseDir(dir) => {
                push_str(&mut out, "Invalid base directory: ");
                push_str(&mut out, dir.as_str());
            },
        }
        string_of(&out)
    }
}

/// The name of the workspace of the instance `instance_id`, made at the time
/// `timestamp`, in seconds.
pub open spec fn workspace_name(timestamp: nat, instance_id: nat) -> Seq<char> {
    "claudissent-"@ + decimal(timestamp) + "-instance-"@ + decimal(instance_id)
}

/// The directory of one instance.
pub struct Workspace {
    path: String,
}

impl View for Workspace {
    type V = Seq<char>;

    /// The path of the directory.
    closed spec fn view(&self) -> Seq<char> {
        self.path@
    }
}

impl Workspace {
    /// The workspace of the instance `instance_id` under `base_dir`, named
    /// after the time `timestamp`. The directory itself is for the caller to
    /// make.
    pub fn locate(base_dir: &str, timestamp: u64, instance_id: usize) -> (r: Self)
        ensures
            r@ == child_path(base_dir@, workspace_name(timestamp as nat, instance_id as nat)),
    {
        let mut name: Vec<char> = Vec::new();
        push_str(&mut name, "claudissent-");
        push_decimal(&mut name, timestamp);
        push_str(&mut name, "-instance-");
        push_decimal(&mut name, instance_id as u64);
        let name = string_of(&name);
        Workspace { path: join_path(base_dir, name.as_str()) }
    }

    /// The path of the directory.
    pub fn path(&self) -> (r: &str)
        ensures
            r@ == self@,
    {
        self.path.as_str()
    }
}

} // verus!
