//! Errors of planning and of the native stage helpers.

use vstd::prelude::*;
use crate::mat::error::{MatError, MatErrorView, mat_error_text};
use crate::text::{decimal, u64_text};

verus! {

/// Everything that can stop planning or a native stage.
#[allow(inconsistent_fields)]
#[derive(Clone, Debug)]
pub enum CoreError {
    MissingDataset(String),
    DatasetNotDirectory(String),
    ReadDataset { path: String, message: String },
    InvalidStageRange { start_step: u8, end_step: u8 },
    NativeStage { stage: u8, message: String },
    FileIo { path: String, message: String },
    Mat(MatError),
}

#[allow(inconsistent_fields)]
pub enum CoreErrorView {
    MissingDataset(Seq<char>),
    DatasetNotDirectory(Seq<char>),
    ReadDataset { path: Seq<char>, message: Seq<char> },
    InvalidStageRange { start_step: u8, end_step: u8 },
    NativeStage { stage: u8, message: Seq<char> },
    FileIo { path: Seq<char>, message: Seq<char> },
    Mat(MatErrorView),
}

impl View for CoreError {
    type V = CoreErrorView;

    open spec fn view(&self) -> CoreErrorView {
        match self {
            CoreError::MissingDataset(p) => CoreErrorView::MissingDataset(p@),
            CoreError::DatasetNotDirectory(p) => CoreErrorView::DatasetNotDirectory(p@),
            CoreError::ReadDataset { path, message } => CoreErrorView::ReadDataset { path: path@, message: message@ },
            CoreError::InvalidStageRange { start_step, end_step } => CoreErrorView::InvalidStageRange {
                start_step: *start_step,
                end_step: *end_step,
            },
            CoreError::NativeStage { stage, message } => CoreErrorView::NativeStage { stage: *stage, message: message@ },
            CoreError::FileIo { path, message } => CoreErrorView::FileIo { path: path@, message: message@ },
            CoreError::Mat(e) => CoreErrorView::Mat(e@),
        }
    }
}

/// The message text of an error.
pub open spec fn core_error_text(e: CoreErrorView) -> Seq<char> {
    match e {
        CoreErrorView::MissingDataset(p) => "dataset does not exist: "@ + p,
        CoreErrorView::DatasetNotDirectory(p) => "dataset path is not a directory: "@ + p,
        CoreErrorView::ReadDataset { path, message } => "unable to read dataset directory "@ + path + ": "@ + message,
        CoreErrorView::InvalidStageRange { start_step, end_step } => "invalid stage range "@ + decimal(start_step as nat)
            + ".."@ + decimal(end_step as nat) + "; expected 1..8"@,
        CoreErrorView::NativeStage { stage, message } => "stage "@ + decimal(stage as nat)
            + " native implementation error: "@ + message,
        CoreErrorView::FileIo { path, message } => "unable to access "@ + path + ": "@ + message,
        CoreErrorView::Mat(m) => mat_error_text(m),
    }
}

impl CoreError {
    /// The message text of this error.
    pub fn message(&self) -> (r: String)
        ensures
            r@ == core_error_text(self@),
    {
        match self {
            CoreError::MissingDataset(p) => {
                let mut s = String::from_str("dataset does not exist: ");
                s.append(p.as_str());
                s
            },
            CoreError::DatasetNotDirectory(p) => {
                let mut s = String::from_str("dataset path is not a directory: ");
                s.append(p.as_str());
                s
            },
            CoreError::ReadDataset { path, message } => {
                let mut s = String::from_str("unable to read dataset directory ");
                s.append(path.as_str());
                s.append(": ");
                s.append(message.as_str());
                s
            },
            CoreError::InvalidStageRange { start_step, end_step } => {
                let mut s = String::from_str("invalid stage range ");
                s.append(u64_text(*start_step as u64).as_str());
                s.append("..");
                s.append(u64_text(*end_step as u64).as_str());
                s.append("; expected 1..8");
                s
            },
            CoreError::NativeStage { stage, message } => {
                let mut s = String::from_str("stage ");
                s.append(u64_text(*stage as u64).as_str());
                s.append(" native implementation error: ");
                s.append(message.as_str());
                s
            },
            CoreError::FileIo { path, message } => {
                let mut s = String::from_str("unable to access ");
                s.append(path.as_str());
                s.append(": ");
                s.append(message.as_str());
                s
            },
            CoreError::Mat(e) => e.message(),
        }
    }

    /// Wraps a MAT error.
    pub fn from_mat(e: MatError) -> (r: CoreError)
        ensures
            r@ == CoreErrorView::Mat(e@),
    {
        CoreError::Mat(e)
    }
}

} // verus!
