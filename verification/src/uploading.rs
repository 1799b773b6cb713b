//! Keeping an accepted upload: first its file is written, then what is known of it
//! is stored. If the second step fails, the file is removed again.

use crate::status::StatusCode;
use vstd::prelude::*;

verus! {

/// How far an upload has come.
#[derive(Debug, Clone, Copy, PartialEq, Eq, Structural)]
pub enum UploadState {
    /// The file is to be written.
    Writing,
    /// The file is written; what is known of it is to be stored.
    Storing,
    /// That failed; the file is to be removed.
    Removing,
    /// Everything is kept.
    Stored,
    /// Nothing is kept.
    Failed,
}

/// What is to be done next.
#[derive(Debug, Clone, Copy, PartialEq, Eq, Structural)]
pub enum UploadAction {
    WriteFile,
    StoreMeta,
    RemoveFile,
    /// Nothing more: the request can be answered.
    Answer,
}

impl UploadState {
    /// What is to be done next.
    pub open spec fn calls_for(self) -> UploadAction {
        match self {
            UploadState::Writing => UploadAction::WriteFile,
            UploadState::Storing => UploadAction::StoreMeta,
            UploadState::Removing => UploadAction::RemoveFile,
            UploadState::Stored => UploadAction::Answer,
            UploadState::Failed => UploadAction::Answer,
        }
    }

    /// How far the upload has come once that was done, or was tried in vain. A file
    /// that cannot be removed is left behind.
    pub open spec fn then_with(self, done: bool) -> UploadState {
        match self {
            UploadState::Writing => if done {
                UploadState::Storing
            } else {
                UploadState::Failed
            },
            UploadState::Storing => if done {
                UploadState::Stored
            } else {
                UploadState::Removing
            },
            UploadState::Removing => UploadState::Failed,
            UploadState::Stored => UploadState::Stored,
            UploadState::Failed => UploadState::Failed,
        }
    }

    /// The answer to the request, if there is one yet.
    pub open spec fn reply(self) -> Option<Result<(), StatusCode>> {
        match self {
            UploadState::Stored => Some(Ok(())),
            UploadState::Failed => Some(Err(StatusCode::InternalServerError)),
            _ => None,
        }
    }

    /// An upload of which nothing is kept yet.
    pub fn start() -> (r: Self)
        ensures
            r == UploadState::Writing,
    {
        UploadState::Writing
    }

    /// What is to be done next.
    pub fn action(self) -> (r: UploadAction)
        ensures
            r == self.calls_for(),
    {
        match self {
            UploadState::Writing => UploadAction::WriteFile,
            UploadState::Storing => UploadAction::StoreMeta,
            UploadState::Removing => UploadAction::RemoveFile,
            UploadState::Stored => UploadAction::Answer,
            UploadState::Failed => UploadAction::Answer,
        }
    }

    /// Go on once the next action was done, or was tried in vain.
    pub fn on_outcome(self, done: bool) -> (r: Self)
        ensures
            r == self.then_with(done),
    {
        match self {
            UploadState::Writing => if done {
                UploadState::Storing
            } else {
                UploadState::Failed
            },
            UploadState::Storing => if done {
                UploadState::Stored
            } else {
                UploadState::Removing
            },
            UploadState::Removing => UploadState::Failed,
            UploadState::Stored => UploadState::Stored,
            UploadState::Failed => UploadState::Failed,
        }
    }

    /// The answer to the request, if there is one yet.
    pub fn answer(self) -> (r: Option<Result<(), StatusCode>>)
        ensures
            r == self.reply(),
    {
        match self {
            UploadState::Stored => Some(Ok(())),
            UploadState::Failed => Some(Err(StatusCode::InternalServerError)),
            _ => None,
        }
    }
}

} // verus!
