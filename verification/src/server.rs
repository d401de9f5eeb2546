//! The server's decision logic: request authentication and the
//! storage rules behind the fetch and upload operations.  The web
//! routing that carries these requests is plumbing around this module.

use vstd::prelude::*;
use crate::config::ServerConfig;
use crate::digest::fits_digest_input;
use crate::info::FileRecordView;
use crate::store::{store_has, store_lookup, Store};

verus! {

/// Proof of a correctly authenticated request.
#[derive(Debug)]
pub struct ValidPassword;

/// Why a request failed authentication.
#[derive(Clone, Copy, Debug, PartialEq, Eq, Structural)]
pub enum PasswordValidationError {
    IncorrectPassword,
    PasswordHeaderMissing,
}

impl ValidPassword {
    /// Check the password a request carried against the configured
    /// one.  A missing credential and a wrong credential are rejected
    /// alike, whatever the operation.
    pub fn from_header(provided: Option<&String>, expected: &String) -> (r: Result<
        ValidPassword,
        PasswordValidationError,
    >)
        ensures
            r is Ok <==> (provided is Some && provided->Some_0@ == expected@),
            r is Err ==> r->Err_0 == (if provided is Some {
                PasswordValidationError::IncorrectPassword
            } else {
                PasswordValidationError::PasswordHeaderMissing
            }),
    {
        match provided {
            Some(password) => {
                if *password == *expected {
                    Ok(ValidPassword)
                } else {
                    Err(PasswordValidationError::IncorrectPassword)
                }
            },
            None => Err(PasswordValidationError::PasswordHeaderMissing),
        }
    }
}

/// The response statuses the storage rules can decide on.
#[derive(Clone, Copy, Debug, PartialEq, Eq, Structural)]
pub enum RouteStatus {
    Created,
    NoContent,
    NotFound,
}

/// A file handed in by an upload request.
pub struct FileUpload {
    file: Vec<u8>,
}

impl View for FileUpload {
    type V = Seq<u8>;

    closed spec fn view(&self) -> Seq<u8> {
        self.file@
    }
}

impl FileUpload {
    pub fn new(file: Vec<u8>) -> (u: FileUpload)
        ensures
            u@ == file@,
    {
        FileUpload { file }
    }

    /// Move the uploaded bytes out.
    pub fn take_file(self) -> (r: Vec<u8>)
        ensures
            r@ == self@,
    {
        self.file
    }
}

/// The served content for a fetch: the stored bytes, unless the path
/// is absent or configured as ignored, which both read as not found.
pub fn serve_file(store: &Store, config: &ServerConfig, path: &String) -> (r: Result<
    Vec<u8>,
    RouteStatus,
>)
    ensures
        r is Ok <==> store_has(store@, path@) && !config@.ignored_paths.contains(path@),
        r is Ok ==> r->Ok_0@ == store_lookup(store@, path@).content,
        r is Err ==> r->Err_0 == RouteStatus::NotFound,
{
    if config.is_ignored(path) {
        return Err(RouteStatus::NotFound);
    }
    match store.content(path) {
        Some(bytes) => Ok(bytes),
        None => Err(RouteStatus::NotFound),
    }
}

/// Accept an upload: an ignored path is dropped without storing
/// anything; any other path is created or fully overwritten, stamped
/// with the time of this write.
pub fn store_upload(
    store: &mut Store,
    config: &ServerConfig,
    path: &String,
    upload: FileUpload,
    now: u64,
) -> (status: RouteStatus)
    requires
        old(store).wf(),
        fits_digest_input(upload@.len()),
    ensures
        final(store).wf(),
        config@.ignored_paths.contains(path@) ==> status == RouteStatus::NoContent
            && final(store)@ == old(store)@,
        !config@.ignored_paths.contains(path@) ==> status == RouteStatus::Created && store_has(
            final(store)@,
            path@,
        ) && store_lookup(final(store)@, path@) == (FileRecordView {
            seconds: now,
            content: upload@,
        }),
        forall|q: Seq<char>|
            q != path@ ==> #[trigger] store_has(final(store)@, q) == store_has(old(store)@, q),
        forall|q: Seq<char>|
            q != path@ && store_has(old(store)@, q) ==> #[trigger] store_lookup(final(store)@, q)
                == store_lookup(old(store)@, q),
{
    if config.is_ignored(path) {
        return RouteStatus::NoContent;
    }
    let content = upload.take_file();
    store.put(path, &content, now);
    RouteStatus::Created
}

} // verus!
