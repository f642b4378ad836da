//! The error type shared by every part of the library.
use vstd::prelude::*;
use vstd::string::StringExecFns;

verus! {

/// What can go wrong while scanning a project or building a package.
#[derive(Debug, Clone, PartialEq, Eq)]
pub enum AppError {
    /// The caller's input is not acceptable: an empty target label, an empty
    /// selection, a project folder without its entry file.
    ValidationError(String),
    /// The build could not be completed: a copy or archive step failed, no
    /// selected module exists, or the entry file still refers to a module
    /// that was not packaged.
    BuildError(String),
    /// The modules of a project could not be listed.
    ScanError(String),
    /// A file-system operation failed; the text is the system's message.
    IoError(String),
    /// The settings store reported an error.
    DatabaseError(String),
    /// No strategy is registered for the requested technology.
    UnsupportedTechStack(String),
    /// The user dismissed a dialog.
    Cancelled,
    /// The system file manager could not be started.
    OpenFolderError(String),
}

impl AppError {
    /// The human-readable message of this error.
    pub open spec fn message_of(self) -> Seq<char> {
        match self {
            AppError::ValidationError(m) => "验证失败："@ + m@,
            AppError::BuildError(m) => "构建失败："@ + m@,
            AppError::ScanError(m) => "模块扫描失败："@ + m@,
            AppError::IoError(m) => "IO 错误："@ + m@,
            AppError::DatabaseError(m) => m@,
            AppError::UnsupportedTechStack(m) => "不支持的技术栈类型："@ + m@,
            AppError::Cancelled => "cancelled"@,
            AppError::OpenFolderError(m) => "打开文件夹失败："@ + m@,
        }
    }

    /// The human-readable message of this error: the kind's fixed heading
    /// followed by the detail it carries.
    pub fn message(&self) -> (r: String)
        ensures
            r@ == self.message_of(),
    {
        match self {
            AppError::ValidationError(m) => String::from_str("验证失败：").concat(m.as_str()),
            AppError::BuildError(m) => String::from_str("构建失败：").concat(m.as_str()),
            AppError::ScanError(m) => String::from_str("模块扫描失败：").concat(m.as_str()),
            AppError::IoError(m) => String::from_str("IO 错误：").concat(m.as_str()),
            AppError::DatabaseError(m) => m.clone(),
            AppError::UnsupportedTechStack(m) => String::from_str(
                "不支持的技术栈类型：",
            ).concat(m.as_str()),
            AppError::Cancelled => String::from_str("cancelled"),
            AppError::OpenFolderError(m) => String::from_str("打开文件夹失败：").concat(
                m.as_str(),
            ),
        }
    }
}

/// The result of an operation of this library.
pub type AppResult<T> = Result<T, AppError>;

} // verus!
