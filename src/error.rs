use vstd::prelude::*;

verus! {

/// What can go wrong in the library and in the program around it.
#[derive(Clone, Copy, Debug, PartialEq, Eq, Structural)]
pub enum DkkError {
    /// The snapshot did not authenticate under the given pin and key.
    NotAuthorized,
    /// The settings could not be loaded.
    Config,
    /// A file could not be read or written.
    IO,
    /// The decrypted snapshot is not valid UTF-8.
    Utf8,
    /// The snapshot text does not describe a wallet.
    ParseError,
    /// A pin or key is longer than the parameter derived from it.
    CredentialTooLong,
    /// The snapshot is too large to be sealed.
    TooLarge,
}

/// Results of the library.
pub type DkkResult<T> = Result<T, DkkError>;

} // verus!
