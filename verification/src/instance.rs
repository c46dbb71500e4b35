//! Writing an instance to disk: what to do with its Minecraft package folder.

use vstd::prelude::*;

use crate::path::{path_has_prefix, path_starts_with};
use std::path::PathBuf;

verus! {

#[verifier::external_type_specification]
#[verifier::external_body]
pub struct ExIoError(std::io::Error);

/// Why an instance could not be written.
#[derive(Debug)]
pub enum InstanceWriteError {
    /// The configuration file could not be written; the message says why.
    InstanceConfigurationWritingError(String),
    PathNotSpecified(),
    /// The Minecraft package path is taken by a file.
    MinecraftPackageIsAFile(),
    /// The Minecraft package folder is already there.
    MinecraftPackageAlreadyExist(),
    IoError(std::io::Error),
}

/// What to do with the Minecraft package folder of an instance being written.
#[derive(PartialEq, Eq, Debug, Clone, Copy, Structural)]
pub enum PackageFolderAction {
    /// Copy the package folder of the place the instance was saved at before.
    CopyFromPersisted,
    /// Make a new, empty package folder.
    Create,
    /// Touch nothing.
    LeaveAsIs,
}

/// Whether an instance saved before at `persisted_at` was saved somewhere
/// that does not lie inside `package_folder` (so that its package folder can
/// be copied from there). An instance never saved was saved nowhere else.
pub fn persisted_elsewhere(persisted_at: &Option<PathBuf>, package_folder: &PathBuf) -> (r: bool)
    ensures
        r == match persisted_at {
            Some(p) => !path_has_prefix(*p, *package_folder),
            None => false,
        },
{
    match persisted_at {
        Some(p) => !path_starts_with(p, package_folder),
        None => false,
    }
}

/// The package folder decision.
///
/// `persisted_elsewhere`: the instance was saved before, at a path that does
/// not lie inside the new package folder. `exists` and `is_dir`: what the
/// file system reports of the new package folder's path.
pub fn package_folder_action(persisted_elsewhere: bool, exists: bool, is_dir: bool) -> (r: Result<
    PackageFolderAction,
    InstanceWriteError,
>)
    ensures
        !exists && !is_dir ==> (r matches Ok(a) && a == (if persisted_elsewhere {
            PackageFolderAction::CopyFromPersisted
        } else {
            PackageFolderAction::Create
        })),
        exists && !is_dir ==> r matches Err(InstanceWriteError::MinecraftPackageIsAFile()),
        exists && is_dir ==> r matches Err(InstanceWriteError::MinecraftPackageAlreadyExist()),
        !exists && is_dir ==> (r matches Ok(a) && a == PackageFolderAction::LeaveAsIs),
{
    if !exists && !is_dir {
        if persisted_elsewhere {
            Ok(PackageFolderAction::CopyFromPersisted)
        } else {
            Ok(PackageFolderAction::Create)
        }
    } else if exists && !is_dir {
        Err(InstanceWriteError::MinecraftPackageIsAFile())
    } else if exists && is_dir {
        Err(InstanceWriteError::MinecraftPackageAlreadyExist())
    } else {
        Ok(PackageFolderAction::LeaveAsIs)
    }
}

} // verus!
