use branchy_text_editor::error::{
    Error, FileError, MutexLockError, NotFoundError, PathError, Response, SerdeError,
};
use branchy_text_editor::numtext::u32_to_string;

#[test]
fn error_messages_carry_their_kind_prefix() {
    assert_eq!(
        Error::FileError(FileError::SavingFileError("main.rs".to_string())).to_string(),
        "FileError : Could not save the file main.rs"
    );
    assert_eq!(
        Error::FileError(FileError::GetFileError(1234)).to_string(),
        "FileError : Could not get file id : 1234"
    );
    assert_eq!(
        Error::FileError(FileError::ReadFileError("/tmp/x".to_string())).to_string(),
        "FileError : Could not read file from path : /tmp/x"
    );
    assert_eq!(
        Error::FileError(FileError::CreateFileError("denied".to_string())).to_string(),
        "FileError : Could not create file with error: denied"
    );
    assert_eq!(
        Error::FileError(FileError::InvalidUtf8StringError(0)).to_string(),
        "FileError : The file contains non UTF-8 characters id : 0"
    );
    assert_eq!(
        Error::NotFoundError(NotFoundError::TreeNotFoundError(7)).to_string(),
        "NotFoundError : Tree not found for id : 7"
    );
    assert_eq!(
        Error::NotFoundError(NotFoundError::ParserNotFoundError("ruby".to_string())).to_string(),
        "NotFoundError : Parse not found for language : ruby"
    );
    assert_eq!(
        Error::NotFoundError(NotFoundError::QueryNotFoundError("css".to_string())).to_string(),
        "NotFoundError : Query not found for language : css"
    );
    assert_eq!(
        Error::NotFoundError(NotFoundError::FileNotFoundError(4294967295)).to_string(),
        "NotFoundError : Could not be found. file id : 4294967295"
    );
    assert_eq!(
        Error::PathError(PathError::ToStringError).to_string(),
        "PathError : Could not convert OsString to String"
    );
    assert_eq!(
        Error::PathError(PathError::PathNotFoundError).to_string(),
        "PathError : Path not found"
    );
    assert_eq!(
        Error::IOError("disk gone".to_string()).to_string(),
        "IOError : disk gone"
    );
    assert_eq!(
        Error::MutexLockError(MutexLockError("busy".to_string())).to_string(),
        "MutexLockError : busy"
    );
    assert_eq!(
        Error::SerdeError(SerdeError::SerializeError("bad".to_string())).to_string(),
        "SerdeError : Could not serialize error : bad"
    );
    assert_eq!(
        Error::SerdeError(SerdeError::DerializeError("bad".to_string())).to_string(),
        "SerdeError : Could not deserialize error : bad"
    );
    assert_eq!(
        Error::ParseFailed(3).to_string(),
        "ParseFailed : no tree for id : 3"
    );
}

#[test]
fn response_wraps_results() {
    match Response::from_result(Ok::<u32, Error>(5)) {
        Response::Success(v) => assert_eq!(v, 5),
        Response::Error(_) => panic!("expected success"),
    }
    match Response::from_result(Err::<u32, Error>(Error::ParseFailed(9))) {
        Response::Error(m) => assert_eq!(m, "ParseFailed : no tree for id : 9"),
        Response::Success(_) => panic!("expected an error"),
    }
}

#[test]
fn decimal_rendering() {
    assert_eq!(u32_to_string(0), "0");
    assert_eq!(u32_to_string(9), "9");
    assert_eq!(u32_to_string(10), "10");
    assert_eq!(u32_to_string(305441), "305441");
    assert_eq!(u32_to_string(u32::MAX), "4294967295");
}
