//! The error taxonomy of the backend, and the tagged response type the
//! command surface hands to the front-end.
//!
//! Each error renders to a message that starts with its kind, so the
//! front-end can branch on the prefix without parsing the rest.

use crate::numtext::{spec_decimal, u32_to_string};
use vstd::prelude::*;
use vstd::string::StringExecFns;

verus! {

#[derive(Debug)]
pub enum PathError {
    ToStringError,
    PathNotFoundError,
}

#[derive(Debug)]
pub enum FileError {
    SavingFileError(String),
    GetFileError(u32),
    ReadFileError(String),
    LanguageNotSupportError(String),
    CreateFileError(String),
    InvalidUtf8StringError(u32),
}

#[derive(Debug)]
pub enum NotFoundError {
    TreeNotFoundError(u32),
    ParserNotFoundError(String),
    QueryNotFoundError(String),
    FileNotFoundError(u32),
}

#[derive(Debug)]
pub enum SerdeError {
    SerializeError(String),
    DerializeError(String),
}

#[derive(Debug)]
pub struct MutexLockError(pub String);

#[derive(Debug)]
pub enum Error {
    FileError(FileError),
    NotFoundError(NotFoundError),
    PathError(PathError),
    IOError(String),
    MutexLockError(MutexLockError),
    SerdeError(SerdeError),
    ParseFailed(u32),
}

/// A command's outcome as the front-end sees it: a payload, or an
/// error message string.
#[derive(Debug)]
pub enum Response<T> {
    Success(T),
    Error(String),
}

/// An error already split into its kind and its message.
#[derive(Debug)]
pub struct ResponseError {
    pub kind: String,
    pub message: String,
}

pub open spec fn spec_path_error_message(e: PathError) -> Seq<char> {
    match e {
        PathError::ToStringError => "Could not convert OsString to String"@,
        PathError::PathNotFoundError => "Path not found"@,
    }
}

pub open spec fn spec_file_error_message(e: FileError) -> Seq<char> {
    match e {
        FileError::SavingFileError(s) => "Could not save the file "@ + s@,
        FileError::GetFileError(id) => "Could not get file id : "@ + spec_decimal(id as int),
        FileError::ReadFileError(s) => "Could not read file from path : "@ + s@,
        FileError::LanguageNotSupportError(s) => "Language not supported for extension ("@ + s@
            + ")"@,
        FileError::CreateFileError(s) => "Could not create file with error: "@ + s@,
        FileError::InvalidUtf8StringError(id) => "The file contains non UTF-8 characters id : "@
            + spec_decimal(id as int),
    }
}

pub open spec fn spec_not_found_error_message(e: NotFoundError) -> Seq<char> {
    match e {
        NotFoundError::TreeNotFoundError(id) => "Tree not found for id : "@ + spec_decimal(
            id as int,
        ),
        NotFoundError::ParserNotFoundError(s) => "Parse not found for language : "@ + s@,
        NotFoundError::QueryNotFoundError(s) => "Query not found for language : "@ + s@,
        NotFoundError::FileNotFoundError(id) => "Could not be found. file id : "@ + spec_decimal(
            id as int,
        ),
    }
}

pub open spec fn spec_serde_error_message(e: SerdeError) -> Seq<char> {
    match e {
        SerdeError::SerializeError(s) => "Could not serialize error : "@ + s@,
        SerdeError::DerializeError(s) => "Could not deserialize error : "@ + s@,
    }
}

pub open spec fn spec_error_message(e: Error) -> Seq<char> {
    match e {
        Error::FileError(inner) => "FileError : "@ + spec_file_error_message(inner),
        Error::NotFoundError(inner) => "NotFoundError : "@ + spec_not_found_error_message(inner),
        Error::PathError(inner) => "PathError : "@ + spec_path_error_message(inner),
        Error::IOError(s) => "IOError : "@ + s@,
        Error::MutexLockError(inner) => "MutexLockError : "@ + inner.0@,
        Error::SerdeError(inner) => "SerdeError : "@ + spec_serde_error_message(inner),
        Error::ParseFailed(id) => "ParseFailed : no tree for id : "@ + spec_decimal(id as int),
    }
}

impl PathError {
    pub fn to_string(&self) -> (r: String)
        ensures
            r@ == spec_path_error_message(*self),
    {
        match self {
            PathError::ToStringError => "Could not convert OsString to String".to_owned(),
            PathError::PathNotFoundError => "Path not found".to_owned(),
        }
    }
}

impl FileError {
    pub fn to_string(&self) -> (r: String)
        ensures
            r@ == spec_file_error_message(*self),
    {
        let mut s = String::new();
        match self {
            FileError::SavingFileError(name) => {
                s.append("Could not save the file ");
                s.append(name.as_str());
            },
            FileError::GetFileError(id) => {
                s.append("Could not get file id : ");
                crate::numtext::append_decimal(*id, &mut s);
            },
            FileError::ReadFileError(path) => {
                s.append("Could not read file from path : ");
                s.append(path.as_str());
            },
            FileError::LanguageNotSupportError(ext) => {
                s.append("Language not supported for extension (");
                s.append(ext.as_str());
                s.append(")");
            },
            FileError::CreateFileError(msg) => {
                s.append("Could not create file with error: ");
                s.append(msg.as_str());
            },
            FileError::InvalidUtf8StringError(id) => {
                s.append("The file contains non UTF-8 characters id : ");
                crate::numtext::append_decimal(*id, &mut s);
            },
        }
        proof {
            assert(s@ =~= spec_file_error_message(*self));
        }
        s
    }
}

impl NotFoundError {
    pub fn to_string(&self) -> (r: String)
        ensures
            r@ == spec_not_found_error_message(*self),
    {
        let mut s = String::new();
        match self {
            NotFoundError::TreeNotFoundError(id) => {
                s.append("Tree not found for id : ");
                crate::numtext::append_decimal(*id, &mut s);
            },
            NotFoundError::ParserNotFoundError(lang) => {
                s.append("Parse not found for language : ");
                s.append(lang.as_str());
            },
            NotFoundError::QueryNotFoundError(lang) => {
                s.append("Query not found for language : ");
                s.append(lang.as_str());
            },
            NotFoundError::FileNotFoundError(id) => {
                s.append("Could not be found. file id : ");
                crate::numtext::append_decimal(*id, &mut s);
            },
        }
        proof {
            assert(s@ =~= spec_not_found_error_message(*self));
        }
        s
    }
}

impl SerdeError {
    pub fn to_string(&self) -> (r: String)
        ensures
            r@ == spec_serde_error_message(*self),
    {
        let mut s = String::new();
        match self {
            SerdeError::SerializeError(msg) => {
                s.append("Could not serialize error : ");
                s.append(msg.as_str());
            },
            SerdeError::DerializeError(msg) => {
                s.append("Could not deserialize error : ");
                s.append(msg.as_str());
            },
        }
        proof {
            assert(s@ =~= spec_serde_error_message(*self));
        }
        s
    }
}

impl Error {
    pub fn to_string(&self) -> (r: String)
        ensures
            r@ == spec_error_message(*self),
    {
        let mut s = String::new();
        match self {
            Error::FileError(inner) => {
                s.append("FileError : ");
                s.append(inner.to_string().as_str());
            },
            Error::NotFoundError(inner) => {
                s.append("NotFoundError : ");
                s.append(inner.to_string().as_str());
            },
            Error::PathError(inner) => {
                s.append("PathError : ");
                s.append(inner.to_string().as_str());
            },
            Error::IOError(msg) => {
                s.append("IOError : ");
                s.append(msg.as_str());
            },
            Error::MutexLockError(inner) => {
                s.append("MutexLockError : ");
                s.append(inner.0.as_str());
            },
            Error::SerdeError(inner) => {
                s.append("SerdeError : ");
                s.append(inner.to_string().as_str());
            },
            Error::ParseFailed(id) => {
                s.append("ParseFailed : no tree for id : ");
                crate::numtext::append_decimal(*id, &mut s);
            },
        }
        proof {
            assert(s@ =~= spec_error_message(*self));
        }
        s
    }
}

impl<T> Response<T> {
    /// Wraps a command result: a payload stays a payload, an error
    /// becomes its rendered message.
    pub fn from_result(value: Result<T, Error>) -> (r: Response<T>)
        ensures
            value matches Ok(v) ==> r == Response::<T>::Success(v),
            value matches Err(e) ==> (r matches Response::Error(m) && m@ == spec_error_message(e)),
    {
        match value {
            Ok(message) => Response::Success(message),
            Err(err) => Response::Error(err.to_string()),
        }
    }
}

} // verus!
