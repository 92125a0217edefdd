use node_kernel::services::{
    get_entry_type, FileSystemEntryType, FileSystemError, FileSystemMode, HttpClientError,
    HttpServerError, VfsError,
};
use node_kernel::types::{Address, Capability, ProcessId};

fn s(text: &str) -> String {
    text.to_string()
}

#[test]
fn vfs_error_kind() {
    assert_eq!(VfsError::BadDescriptor.kind(), "BadDescriptor");
}

#[test]
fn file_system_error_kinds() {
    let mode = FileSystemMode::Read;
    assert_eq!(
        FileSystemError::BadUri { uri: s("u"), bad_part_name: s("p"), bad_part: None }.kind(),
        "BadUri"
    );
    assert_eq!(FileSystemError::BadJson { json: s("j"), error: s("e") }.kind(), "BadJson");
    assert_eq!(FileSystemError::BadBytes { action: s("a") }.kind(), "BadBytes");
    assert_eq!(
        FileSystemError::IllegalAccess {
            process_name: s("p"),
            attempted_dir: s("a"),
            sandbox_dir: s("s")
        }
        .kind(),
        "IllegalAccess"
    );
    assert_eq!(FileSystemError::AlreadyOpen { path: s("p"), mode }.kind(), "AlreadyOpen");
    assert_eq!(FileSystemError::NotCurrentlyOpen { path: s("p"), mode }.kind(), "NotCurrentlyOpen");
    assert_eq!(FileSystemError::BadPathJoin { base_path: s("b"), addend: s("a") }.kind(), "BadPathJoin");
    assert_eq!(FileSystemError::CouldNotMakeDir { path: s("p"), error: s("e") }.kind(), "CouldNotMakeDir");
    assert_eq!(FileSystemError::ReadFailed { path: s("p"), error: s("e") }.kind(), "ReadFailed");
    assert_eq!(FileSystemError::WriteFailed { path: s("p"), error: s("e") }.kind(), "WriteFailed");
    assert_eq!(FileSystemError::OpenFailed { path: s("p"), mode, error: s("e") }.kind(), "OpenFailed");
    assert_eq!(
        FileSystemError::FsError { what: s("w"), path: s("p"), error: s("e") }.kind(),
        "FsError"
    );
    assert_eq!(FileSystemError::LFSError { error: s("e") }.kind(), "LFSErrror");
}

#[test]
fn http_client_error_kinds() {
    assert_eq!(HttpClientError::BadRsvp.kind(), "BadRsvp");
    assert_eq!(HttpClientError::NoJson.kind(), "NoJson");
    assert_eq!(HttpClientError::BadJson { json: s("j"), error: s("e") }.kind(), "BadJson");
    assert_eq!(HttpClientError::BadMethod { method: s("m") }.kind(), "BadMethod");
    assert_eq!(HttpClientError::RequestFailed { error: s("e") }.kind(), "RequestFailed");
}

#[test]
fn http_server_error_kinds() {
    assert_eq!(HttpServerError::NoJson.kind(), "NoJson");
    assert_eq!(HttpServerError::NoBytes.kind(), "NoBytes");
    assert_eq!(HttpServerError::BadJson { json: s("j"), error: s("e") }.kind(), "BadJson");
    assert_eq!(HttpServerError::ResponseError.kind(), "ResponseError");
}

#[test]
fn entry_type_prefers_symlink_then_file() {
    assert_eq!(get_entry_type(true, true, true), FileSystemEntryType::Symlink);
    assert_eq!(get_entry_type(false, false, true), FileSystemEntryType::Symlink);
    assert_eq!(get_entry_type(true, true, false), FileSystemEntryType::File);
    assert_eq!(get_entry_type(false, true, false), FileSystemEntryType::File);
    assert_eq!(get_entry_type(true, false, false), FileSystemEntryType::Dir);
    assert_eq!(get_entry_type(false, false, false), FileSystemEntryType::Dir);
}

#[test]
fn process_id_comparisons() {
    let named = ProcessId::Name(s("vfs"));
    let numbered = ProcessId::Id(4);
    assert!(named.same(&ProcessId::Name(s("vfs"))));
    assert!(!named.same(&ProcessId::Name(s("kv"))));
    assert!(!named.same(&numbered));
    assert!(numbered.same(&ProcessId::Id(4)));
    assert!(!numbered.same(&ProcessId::Id(5)));
    assert!(named.is_name(&s("vfs")));
    assert!(!named.is_name(&s("kv")));
    assert!(!named.is_id(4));
    assert!(numbered.is_id(4));
    assert!(!numbered.is_id(5));
    assert!(!numbered.is_name(&s("4")));
}

#[test]
fn address_and_capability_comparisons() {
    let a = Address { node: s("x"), process: ProcessId::Name(s("vfs")) };
    let b = Address { node: s("y"), process: ProcessId::Name(s("vfs")) };
    assert!(a.same(&a.clone()));
    assert!(!a.same(&b));
    let c = Capability { issuer: a.clone(), params: s("r") };
    assert!(c.same(&c.clone()));
    assert!(!c.same(&Capability { issuer: a.clone(), params: s("w") }));
    assert!(!c.same(&Capability { issuer: b, params: s("r") }));
}
