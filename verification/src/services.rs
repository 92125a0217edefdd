//! The messages that the kernel exchanges with the services around it:
//! filesystem, virtual filesystem, HTTP client and server, the encryptor.
//!
//! The kernel carries these as the bodies of ordinary requests and
//! responses and does not look inside. They are declared here so that both
//! sides agree on their shape, and so that each error has a stable name.

use vstd::prelude::*;
use std::collections::HashMap;
use crate::types::{Address, SignedCapability};

verus! {

/// What a process asks of the log-structured filesystem.
#[derive(Debug, PartialEq, Eq)]
pub enum FsAction {
    Write,
    Replace(u128),
    WriteOffset((u128, u64)),
    Append(Option<u128>),
    Read(u128),
    ReadChunk(ReadChunkRequest),
    Delete(u128),
    Length(u128),
    SetLength((u128, u64)),
    GetState,
    SetState,
}

/// A part of a file: `length` bytes from `start`.
#[derive(Debug, PartialEq, Eq)]
pub struct ReadChunkRequest {
    pub file: u128,
    pub start: u64,
    pub length: u64,
}

/// What the log-structured filesystem answers.
#[derive(Debug, PartialEq, Eq)]
pub enum FsResponse {
    Write(u128),
    Read(u128),
    ReadChunk(u128),
    Append(u128),
    Delete(u128),
    Length(u64),
    GetState,
    SetState,
}

/// What can go wrong in the virtual filesystem.
#[derive(Debug, PartialEq, Eq)]
pub enum VfsError {
    BadDescriptor,
}

impl VfsError {
    /// The name of the error.
    pub fn kind(&self) -> (res: &'static str)
        ensures
            res@ == "BadDescriptor"@,
    {
        match *self {
            VfsError::BadDescriptor => "BadDescriptor",
        }
    }
}

/// How a file is open.
#[derive(Debug, Clone, Copy, PartialEq, Eq, Hash, Structural)]
pub enum FileSystemMode {
    Read,
    Append,
    AppendOverwrite,
}

/// What can go wrong in the filesystem.
#[derive(Debug, PartialEq, Eq)]
pub enum FileSystemError {
    BadUri { uri: String, bad_part_name: String, bad_part: Option<String> },
    BadJson { json: String, error: String },
    BadBytes { action: String },
    IllegalAccess { process_name: String, attempted_dir: String, sandbox_dir: String },
    AlreadyOpen { path: String, mode: FileSystemMode },
    NotCurrentlyOpen { path: String, mode: FileSystemMode },
    BadPathJoin { base_path: String, addend: String },
    CouldNotMakeDir { path: String, error: String },
    ReadFailed { path: String, error: String },
    WriteFailed { path: String, error: String },
    OpenFailed { path: String, mode: FileSystemMode, error: String },
    FsError { what: String, path: String, error: String },
    LFSError { error: String },
}

impl FileSystemError {
    /// The name of the error, as it goes into an error response.
    pub fn kind(&self) -> (res: &'static str)
        ensures
            res@ == match self {
                FileSystemError::BadUri { .. } => "BadUri"@,
                FileSystemError::BadJson { .. } => "BadJson"@,
                FileSystemError::BadBytes { .. } => "BadBytes"@,
                FileSystemError::IllegalAccess { .. } => "IllegalAccess"@,
                FileSystemError::AlreadyOpen { .. } => "AlreadyOpen"@,
                FileSystemError::NotCurrentlyOpen { .. } => "NotCurrentlyOpen"@,
                FileSystemError::BadPathJoin { .. } => "BadPathJoin"@,
                FileSystemError::CouldNotMakeDir { .. } => "CouldNotMakeDir"@,
                FileSystemError::ReadFailed { .. } => "ReadFailed"@,
                FileSystemError::WriteFailed { .. } => "WriteFailed"@,
                FileSystemError::OpenFailed { .. } => "OpenFailed"@,
                FileSystemError::FsError { .. } => "FsError"@,
                FileSystemError::LFSError { .. } => "LFSErrror"@,
            },
    {
        match self {
            FileSystemError::BadUri { .. } => "BadUri",
            FileSystemError::BadJson { .. } => "BadJson",
            FileSystemError::BadBytes { .. } => "BadBytes",
            FileSystemError::IllegalAccess { .. } => "IllegalAccess",
            FileSystemError::AlreadyOpen { .. } => "AlreadyOpen",
            FileSystemError::NotCurrentlyOpen { .. } => "NotCurrentlyOpen",
            FileSystemError::BadPathJoin { .. } => "BadPathJoin",
            FileSystemError::CouldNotMakeDir { .. } => "CouldNotMakeDir",
            FileSystemError::ReadFailed { .. } => "ReadFailed",
            FileSystemError::WriteFailed { .. } => "WriteFailed",
            FileSystemError::OpenFailed { .. } => "OpenFailed",
            FileSystemError::FsError { .. } => "FsError",
            FileSystemError::LFSError { .. } => "LFSErrror",
        }
    }
}

/// A request to the filesystem: what to do, and to which file.
#[derive(Debug, PartialEq, Eq)]
pub struct FileSystemRequest {
    pub uri_string: String,
    pub action: FileSystemAction,
}

/// What to do with a file.
#[derive(Debug, PartialEq, Eq)]
pub enum FileSystemAction {
    Read,
    Write,
    GetMetadata,
    ReadDir,
    Open(FileSystemMode),
    Close(FileSystemMode),
    Append,
    ReadChunkFromOpen(u64),
    SeekWithinOpen(FileSystemSeekFrom),
}

/// Where to seek in an open file.
#[derive(Debug, PartialEq, Eq)]
pub enum FileSystemSeekFrom {
    Start(u64),
    End(i64),
    Current(i64),
}

/// What the filesystem answers.
#[derive(Debug, PartialEq, Eq)]
pub enum FileSystemResponse {
    Read(FileSystemUriHash),
    Write(String),
    GetMetadata(FileSystemMetadata),
    ReadDir(Vec<FileSystemMetadata>),
    Open { uri_string: String, mode: FileSystemMode },
    Close { uri_string: String, mode: FileSystemMode },
    Append(String),
    ReadChunkFromOpen(FileSystemUriHash),
    SeekWithinOpen(String),
}

/// A file and the hash of its contents.
#[derive(Debug, PartialEq, Eq)]
pub struct FileSystemUriHash {
    pub uri_string: String,
    pub hash: u64,
}

/// What the filesystem knows about an entry.
#[derive(Debug, PartialEq, Eq)]
pub struct FileSystemMetadata {
    pub uri_string: String,
    pub hash: Option<u64>,
    pub entry_type: FileSystemEntryType,
    pub len: u64,
}

/// What an entry of the filesystem is.
#[derive(Debug, Clone, Copy, PartialEq, Eq, Structural)]
pub enum FileSystemEntryType {
    Symlink,
    File,
    Dir,
}

/// What an entry is, given what the underlying filesystem reports of it: a
/// symbolic link first of all, else a file, else a directory.
pub fn get_entry_type(is_dir: bool, is_file: bool, is_symlink: bool) -> (res: FileSystemEntryType)
    ensures
        res == if is_symlink {
            FileSystemEntryType::Symlink
        } else if is_file {
            FileSystemEntryType::File
        } else {
            FileSystemEntryType::Dir
        },
{
    if is_symlink {
        FileSystemEntryType::Symlink
    } else if is_file {
        FileSystemEntryType::File
    } else {
        FileSystemEntryType::Dir
    }
}

/// What a process asks of the virtual filesystem.
#[derive(Debug, PartialEq, Eq)]
pub enum VfsRequest {
    New { identifier: String },
    Add { identifier: String, full_path: String, entry_type: AddEntryType },
    Rename { identifier: String, full_path: String, new_full_path: String },
    Delete { identifier: String, full_path: String },
    WriteOffset { identifier: String, full_path: String, offset: u64 },
    GetPath { identifier: String, hash: u128 },
    GetEntry { identifier: String, full_path: String },
    GetFileChunk { identifier: String, full_path: String, offset: u64, length: u64 },
    GetEntryLength { identifier: String, full_path: String },
}

/// What is added to the virtual filesystem.
#[derive(Debug, PartialEq, Eq)]
pub enum AddEntryType {
    Dir,
    NewFile,
    ExistingFile { hash: u128 },
}

/// What kind of entry is asked for.
#[derive(Debug, Clone, Copy, PartialEq, Eq, Structural)]
pub enum GetEntryType {
    Dir,
    File,
}

/// What the virtual filesystem answers.
#[derive(Debug, PartialEq, Eq)]
#[allow(inconsistent_fields)]
pub enum VfsResponse {
    New { identifier: String, new_caps: Vec<SignedCapability> },
    Add { identifier: String, full_path: String },
    Rename { identifier: String, new_full_path: String },
    Delete { identifier: String, full_path: String },
    GetPath { identifier: String, hash: u128, full_path: Option<String> },
    GetEntry { identifier: String, full_path: String, children: Vec<String> },
    GetFileChunk { identifier: String, full_path: String, offset: u64, length: u64 },
    WriteOffset { identifier: String, full_path: String, offset: u64 },
    GetEntryLength { identifier: String, full_path: String, length: u64 },
}

/// A request to the HTTP client.
#[derive(Debug, PartialEq, Eq)]
pub struct HttpClientRequest {
    pub uri: String,
    pub method: String,
    pub headers: HashMap<String, String>,
    pub body: String,
}

/// What the HTTP client answers.
#[derive(Debug, PartialEq, Eq)]
pub struct HttpClientResponse {
    pub status: u16,
    pub headers: HashMap<String, String>,
}

/// What can go wrong in the HTTP client.
#[derive(Debug, PartialEq, Eq)]
pub enum HttpClientError {
    BadRsvp,
    NoJson,
    BadJson { json: String, error: String },
    BadMethod { method: String },
    RequestFailed { error: String },
}

impl HttpClientError {
    /// The name of the error, as it goes into an error response.
    pub fn kind(&self) -> (res: &'static str)
        ensures
            res@ == match self {
                HttpClientError::BadRsvp => "BadRsvp"@,
                HttpClientError::NoJson => "NoJson"@,
                HttpClientError::BadJson { .. } => "BadJson"@,
                HttpClientError::BadMethod { .. } => "BadMethod"@,
                HttpClientError::RequestFailed { .. } => "RequestFailed"@,
            },
    {
        match self {
            HttpClientError::BadRsvp => "BadRsvp",
            HttpClientError::NoJson => "NoJson",
            HttpClientError::BadJson { .. } => "BadJson",
            HttpClientError::BadMethod { .. } => "BadMethod",
            HttpClientError::RequestFailed { .. } => "RequestFailed",
        }
    }
}

/// A response of the HTTP server.
#[derive(Debug, PartialEq, Eq)]
pub struct HttpResponse {
    pub status: u16,
    pub headers: HashMap<String, String>,
    pub body: Option<Vec<u8>>,
}

/// What can go wrong in the HTTP server.
#[derive(Debug, PartialEq, Eq)]
pub enum HttpServerError {
    NoJson,
    ResponseError,
    NoBytes,
    BadJson { json: String, error: String },
}

impl HttpServerError {
    /// The name of the error, as it goes into an error response.
    pub fn kind(&self) -> (res: &'static str)
        ensures
            res@ == match self {
                HttpServerError::NoJson => "NoJson"@,
                HttpServerError::NoBytes => "NoBytes"@,
                HttpServerError::BadJson { .. } => "BadJson"@,
                HttpServerError::ResponseError => "ResponseError"@,
            },
    {
        match self {
            HttpServerError::NoJson => "NoJson",
            HttpServerError::NoBytes => "NoBytes",
            HttpServerError::BadJson { .. } => "BadJson",
            HttpServerError::ResponseError => "ResponseError",
        }
    }
}

/// The claims of a session token.
#[derive(Debug, PartialEq, Eq)]
pub struct JwtClaims {
    pub username: String,
    pub expiration: u64,
}

/// The web socket channel that a push is for.
#[derive(Debug, PartialEq, Eq)]
pub struct WebSocketServerTarget {
    pub node: String,
    pub id: Option<String>,
}

/// A push over a web socket.
#[derive(Debug, PartialEq, Eq)]
pub struct WebSocketPush {
    pub target: WebSocketServerTarget,
    pub is_text: Option<bool>,
}

/// An action of the HTTP server.
#[derive(Debug, PartialEq, Eq)]
pub struct ServerAction {
    pub action: String,
}

/// A web socket channel that registers, through a proxy.
#[derive(Debug, PartialEq, Eq)]
pub struct WsRegister {
    pub ws_auth_token: String,
    pub auth_token: String,
    pub channel_id: String,
}

/// A web socket channel that a proxy has lost.
#[derive(Debug, PartialEq, Eq)]
pub struct WsProxyDisconnect {
    pub channel_id: String,
}

/// An encrypted message over a web socket: the ciphertext in hexadecimal
/// with the tag appended, and the nonce in hexadecimal.
#[derive(Debug, PartialEq, Eq)]
pub struct EncryptedWsMessage {
    pub ws_auth_token: String,
    pub auth_token: String,
    pub channel_id: String,
    pub target: Address,
    pub encrypted: String,
    pub nonce: String,
}

/// Asks the encryptor for the key of a channel.
#[derive(Debug, PartialEq, Eq)]
pub struct GetKeyAction {
    pub channel_id: String,
    pub public_key_hex: String,
}

/// Asks the encryptor to decrypt on a channel.
#[derive(Debug, PartialEq, Eq)]
pub struct DecryptAction {
    pub channel_id: String,
}

/// Asks the encryptor to encrypt on a channel.
#[derive(Debug, PartialEq, Eq)]
pub struct EncryptAction {
    pub channel_id: String,
}

} // verus!
