//! Calls of `create_file` and `delete_file`, from their arguments to what is done.

use vstd::prelude::*;

use crate::error::{Error, ErrorView};
use crate::path::{path_text, without_verbatim_prefix, FilePath, Part};
use crate::state::{under_any, AgentState};
use crate::tools::file::{about_path, write_refused, CreateFileArgs, DeleteFileArgs};
use crate::tools::file::{check_create, check_delete, created, deleted, ensure_can_write};

verus! {

/// A file that may be written, before it is known whether it exists.
pub struct FileCreation {
    path: FilePath,
    text: String,
    content: String,
    overwrite: bool,
    create_parent_dirs: bool,
}

/// The model of a [`FileCreation`].
pub struct CreationView {
    pub path: Seq<Part>,
    pub text: Seq<char>,
    pub content: Seq<char>,
    pub overwrite: bool,
    pub create_parent_dirs: bool,
}

/// A file to write, and what to tell of it once it is written.
#[derive(Debug, PartialEq, Eq)]
pub struct FileWrite {
    pub path: FilePath,
    pub content: String,
    pub create_parent_dirs: bool,
    pub report: String,
}

/// The model of a [`FileWrite`].
pub struct WriteView {
    pub path: Seq<Part>,
    pub content: Seq<char>,
    pub create_parent_dirs: bool,
    pub report: Seq<char>,
}

/// A file that may be written, before it is known whether it can be deleted.
pub struct FileDeletion {
    path: FilePath,
    text: String,
}

/// The model of a [`FileDeletion`].
pub struct DeletionView {
    pub path: Seq<Part>,
    pub text: Seq<char>,
}

/// A file to delete, and what to tell of it once it is gone.
#[derive(Debug, PartialEq, Eq)]
pub struct FileRemoval {
    pub path: FilePath,
    pub report: String,
}

/// The model of a [`FileRemoval`].
pub struct RemovalView {
    pub path: Seq<Part>,
    pub report: Seq<char>,
}

impl View for FileCreation {
    type V = CreationView;

    closed spec fn view(&self) -> CreationView {
        CreationView {
            path: self.path@,
            text: self.text@,
            content: self.content@,
            overwrite: self.overwrite,
            create_parent_dirs: self.create_parent_dirs,
        }
    }
}

impl View for FileWrite {
    type V = WriteView;

    open spec fn view(&self) -> WriteView {
        WriteView {
            path: self.path@,
            content: self.content@,
            create_parent_dirs: self.create_parent_dirs,
            report: self.report@,
        }
    }
}

impl View for FileDeletion {
    type V = DeletionView;

    closed spec fn view(&self) -> DeletionView {
        DeletionView { path: self.path@, text: self.text@ }
    }
}

impl View for FileRemoval {
    type V = RemovalView;

    open spec fn view(&self) -> RemovalView {
        RemovalView { path: self.path@, report: self.report@ }
    }
}

/// What `create_file` begins with, for a normalized path and its text.
pub open spec fn creation_start(
    args: CreateFileArgs,
    write: Seq<Seq<Part>>,
    path: Seq<Part>,
    text: Seq<char>,
) -> Result<CreationView, ErrorView> {
    if under_any(path, write) {
        Ok(
            CreationView {
                path,
                text,
                content: args.content@,
                overwrite: args.overwrite,
                create_parent_dirs: args.create_parent_dirs,
            },
        )
    } else {
        Err(write_refused(args.path@))
    }
}

/// What `create_file` writes, once it is known whether the file exists.
pub open spec fn creation_write(v: CreationView, exists_there: bool) -> Result<
    WriteView,
    ErrorView,
> {
    if exists_there && !v.overwrite {
        Err(
            about_path(
                "cannot create file that already exists without overwrite=true: "@,
                v.text,
                ""@,
            ),
        )
    } else {
        Ok(
            WriteView {
                path: v.path,
                content: v.content,
                create_parent_dirs: v.create_parent_dirs,
                report: "created "@ + without_verbatim_prefix(v.text),
            },
        )
    }
}

/// What `delete_file` begins with, for a normalized path and its text.
pub open spec fn deletion_start(
    args: DeleteFileArgs,
    write: Seq<Seq<Part>>,
    path: Seq<Part>,
    text: Seq<char>,
) -> Result<DeletionView, ErrorView> {
    if under_any(path, write) {
        Ok(DeletionView { path, text })
    } else {
        Err(write_refused(args.path@))
    }
}

/// What `delete_file` deletes, once it is known what is there.
pub open spec fn deletion_removal(v: DeletionView, exists_there: bool, is_directory: bool) -> Result<
    RemovalView,
    ErrorView,
> {
    if !exists_there {
        Err(about_path("cannot delete missing file: "@, v.text, ""@))
    } else if is_directory {
        Err(about_path("delete_file only deletes files, not directories: "@, v.text, ""@))
    } else {
        Ok(RemovalView { path: v.path, report: "deleted "@ + without_verbatim_prefix(v.text) })
    }
}

impl CreateFileArgs {
    /// Begin to create the file, whose normalized path is `normalized`, on a system with the
    /// separator: one that may not be written is refused.
    pub fn begin(self, state: &AgentState, normalized: FilePath, separator: char) -> (r: Result<
        FileCreation,
        Error,
    >)
        ensures
            match creation_start(
                self,
                state@.write,
                normalized@,
                path_text(normalized@, separator),
            ) {
                Ok(creation) => r matches Ok(c) && c@ == creation,
                Err(error) => r matches Err(e) && e@ == error,
            },
    {
        let text = normalized.text(separator);
        match ensure_can_write(state, self.path.as_str(), normalized) {
            Ok(path) => Ok(
                FileCreation {
                    path,
                    text,
                    content: self.content,
                    overwrite: self.overwrite,
                    create_parent_dirs: self.create_parent_dirs,
                },
            ),
            Err(error) => Err(error),
        }
    }
}

impl FileCreation {
    /// The file.
    pub fn path(&self) -> (path: &FilePath)
        ensures
            path@ == self@.path,
    {
        &self.path
    }

    /// What to write, once it is known whether the file exists.
    pub fn on_found(self, exists_there: bool) -> (r: Result<FileWrite, Error>)
        ensures
            match creation_write(self@, exists_there) {
                Ok(write) => r matches Ok(w) && w@ == write,
                Err(error) => r matches Err(e) && e@ == error,
            },
    {
        match check_create(self.text.as_str(), exists_there, self.overwrite) {
            Ok(()) => Ok(
                FileWrite {
                    path: self.path,
                    content: self.content,
                    create_parent_dirs: self.create_parent_dirs,
                    report: created(self.text.as_str()),
                },
            ),
            Err(error) => Err(error),
        }
    }
}

impl DeleteFileArgs {
    /// Begin to delete the file, whose normalized path is `normalized`, on a system with the
    /// separator: one that may not be written is refused.
    pub fn begin(self, state: &AgentState, normalized: FilePath, separator: char) -> (r: Result<
        FileDeletion,
        Error,
    >)
        ensures
            match deletion_start(
                self,
                state@.write,
                normalized@,
                path_text(normalized@, separator),
            ) {
                Ok(deletion) => r matches Ok(d) && d@ == deletion,
                Err(error) => r matches Err(e) && e@ == error,
            },
    {
        let text = normalized.text(separator);
        match ensure_can_write(state, self.path.as_str(), normalized) {
            Ok(path) => Ok(FileDeletion { path, text }),
            Err(error) => Err(error),
        }
    }
}

impl FileDeletion {
    /// The file.
    pub fn path(&self) -> (path: &FilePath)
        ensures
            path@ == self@.path,
    {
        &self.path
    }

    /// What to delete, once it is known whether the file exists, and whether it is a directory.
    pub fn on_found(self, exists_there: bool, is_directory: bool) -> (r: Result<FileRemoval, Error>)
        ensures
            match deletion_removal(self@, exists_there, is_directory) {
                Ok(removal) => r matches Ok(d) && d@ == removal,
                Err(error) => r matches Err(e) && e@ == error,
            },
    {
        match check_delete(self.text.as_str(), exists_there, is_directory) {
            Ok(()) => Ok(
                FileRemoval { path: self.path, report: deleted(self.text.as_str()) },
            ),
            Err(error) => Err(error),
        }
    }
}

// ---------------------------------------------------------------------------------------------
// Laws
// ---------------------------------------------------------------------------------------------

/// A file is created only under a write root: where `create_file` gets to write, it writes the
/// whole content to a file there, and a path elsewhere is refused whatever is on disk.
pub proof fn files_are_created_under_the_write_roots(
    args: CreateFileArgs,
    write: Seq<Seq<Part>>,
    path: Seq<Part>,
    text: Seq<char>,
    exists_there: bool,
)
    ensures
        match creation_start(args, write, path, text) {
            Ok(creation) => {
                &&& under_any(path, write)
                &&& creation.path == path
                &&& creation_write(creation, exists_there) is Ok <==> !exists_there || args.overwrite
                &&& creation_write(creation, exists_there) matches Ok(written) ==> written.path
                    == path && written.content == args.content@
            },
            Err(error) => !under_any(path, write) && error == write_refused(args.path@),
        },
{
}

/// A file is deleted only under a write root, where there is one that is no directory.
pub proof fn files_are_deleted_under_the_write_roots(
    args: DeleteFileArgs,
    write: Seq<Seq<Part>>,
    path: Seq<Part>,
    text: Seq<char>,
    exists_there: bool,
    is_directory: bool,
)
    ensures
        match deletion_start(args, write, path, text) {
            Ok(deletion) => {
                &&& under_any(path, write)
                &&& deletion.path == path
                &&& deletion_removal(deletion, exists_there, is_directory) is Ok <==> exists_there
                    && !is_directory
                &&& deletion_removal(deletion, exists_there, is_directory) matches Ok(removed)
                    ==> removed.path == path
            },
            Err(error) => !under_any(path, write) && error == write_refused(args.path@),
        },
{
}

} // verus!
