//! The failures that the wallet reports.

use vstd::prelude::*;
use vstd::string::StringExecFns;

verus! {

/// What a storage backend reports.
#[derive(Debug, Clone, PartialEq, Eq)]
pub enum WalletStorageError {
    /// No row stands under the requested type and name.
    ItemNotFound,
    /// A row already stands under the type and name to add.
    ItemAlreadyExists,
    /// The backend could not read or write; the text is the backend's own.
    IOError(String),
}

/// What the wallet reports to its caller.
#[derive(Debug, Clone, PartialEq, Eq)]
pub enum WalletError {
    /// Malformed credentials, JSON or options.
    InputError(String),
    /// No record under the requested type and name.
    NotFound(String),
    /// The record or the wallet exists already.
    AlreadyExists(String),
    /// The handle names no open wallet.
    InvalidHandle(String),
    /// No storage type is registered under the requested name.
    UnknownType(String),
    /// A storage type is registered under the name already.
    TypeAlreadyRegistered(String),
    /// A ciphertext was rejected, was too short, held no UTF-8 where text
    /// was due, or wrapped a record key of the wrong size.
    EncryptionError(String),
    /// A failure of the backend, passed on as it came.
    StorageError(String),
    /// The wallet is open in this service already.
    AlreadyOpened(String),
}

/// A storage failure, with its text as a sequence of characters.
pub enum StorageFailure {
    ItemNotFound,
    ItemAlreadyExists,
    IOError(Seq<char>),
}

/// A wallet failure, with its text as a sequence of characters.
pub enum Failure {
    InputError(Seq<char>),
    NotFound(Seq<char>),
    AlreadyExists(Seq<char>),
    InvalidHandle(Seq<char>),
    UnknownType(Seq<char>),
    TypeAlreadyRegistered(Seq<char>),
    EncryptionError(Seq<char>),
    StorageError(Seq<char>),
    AlreadyOpened(Seq<char>),
}

impl View for WalletStorageError {
    type V = StorageFailure;

    open spec fn view(&self) -> StorageFailure {
        match self {
            WalletStorageError::ItemNotFound => StorageFailure::ItemNotFound,
            WalletStorageError::ItemAlreadyExists => StorageFailure::ItemAlreadyExists,
            WalletStorageError::IOError(text) => StorageFailure::IOError(text@),
        }
    }
}

impl View for WalletError {
    type V = Failure;

    open spec fn view(&self) -> Failure {
        match self {
            WalletError::InputError(text) => Failure::InputError(text@),
            WalletError::NotFound(text) => Failure::NotFound(text@),
            WalletError::AlreadyExists(text) => Failure::AlreadyExists(text@),
            WalletError::InvalidHandle(text) => Failure::InvalidHandle(text@),
            WalletError::UnknownType(text) => Failure::UnknownType(text@),
            WalletError::TypeAlreadyRegistered(text) => Failure::TypeAlreadyRegistered(text@),
            WalletError::EncryptionError(text) => Failure::EncryptionError(text@),
            WalletError::StorageError(text) => Failure::StorageError(text@),
            WalletError::AlreadyOpened(text) => Failure::AlreadyOpened(text@),
        }
    }
}

/// The wallet's failure for a failure of the backend: a missing row is
/// `NotFound`, a duplicate row is `AlreadyExists`, and the text of any other
/// failure is passed on as it came.
pub open spec fn storage_failure(failure: StorageFailure) -> Failure {
    match failure {
        StorageFailure::ItemNotFound => Failure::NotFound("Item not found"@),
        StorageFailure::ItemAlreadyExists => Failure::AlreadyExists("Item already exists"@),
        StorageFailure::IOError(text) => Failure::StorageError(text),
    }
}

/// An owned copy of a text.
pub fn text(s: &str) -> (r: String)
    ensures
        r@ == s@,
{
    s.to_owned()
}

impl WalletError {
    /// The wallet's error for a failure of the backend.
    pub fn from_storage(err: WalletStorageError) -> (r: WalletError)
        ensures
            r@ == storage_failure(err@),
    {
        match err {
            WalletStorageError::ItemNotFound => WalletError::NotFound(text("Item not found")),
            WalletStorageError::ItemAlreadyExists => WalletError::AlreadyExists(
                text("Item already exists"),
            ),
            WalletStorageError::IOError(message) => WalletError::StorageError(message),
        }
    }
}

/// The text of a decimal digit.
pub open spec fn digit_text(digit: int) -> Seq<char> {
    if digit == 0 {
        "0"@
    } else if digit == 1 {
        "1"@
    } else if digit == 2 {
        "2"@
    } else if digit == 3 {
        "3"@
    } else if digit == 4 {
        "4"@
    } else if digit == 5 {
        "5"@
    } else if digit == 6 {
        "6"@
    } else if digit == 7 {
        "7"@
    } else if digit == 8 {
        "8"@
    } else {
        "9"@
    }
}

/// The decimal digits of a natural number, without leading zeros.
pub open spec fn decimal_digits(n: nat) -> Seq<char>
    decreases n,
{
    if n < 10 {
        digit_text(n as int)
    } else {
        decimal_digits(n / 10) + digit_text((n % 10) as int)
    }
}

/// An integer in decimal, with `-` before a negative one.
pub open spec fn decimal_text(n: int) -> Seq<char> {
    if n < 0 {
        "-"@ + decimal_digits((-n) as nat)
    } else {
        decimal_digits(n as nat)
    }
}

/// The text of a decimal digit.
fn digit(d: u64) -> (s: &'static str)
    requires
        d < 10,
    ensures
        s@ == digit_text(d as int),
{
    if d == 0 {
        "0"
    } else if d == 1 {
        "1"
    } else if d == 2 {
        "2"
    } else if d == 3 {
        "3"
    } else if d == 4 {
        "4"
    } else if d == 5 {
        "5"
    } else if d == 6 {
        "6"
    } else if d == 7 {
        "7"
    } else if d == 8 {
        "8"
    } else {
        "9"
    }
}

/// Appends the decimal digits of `n` to `out`.
fn push_decimal(out: &mut String, n: u64)
    ensures
        final(out)@ == old(out)@ + decimal_digits(n as nat),
    decreases n,
{
    if n >= 10 {
        push_decimal(out, n / 10);
    }
    out.append(digit(n % 10));
    assert(out@ =~= old(out)@ + decimal_digits(n as nat));
}

/// An integer in decimal.
pub fn decimal(n: i32) -> (written: String)
    ensures
        written@ == decimal_text(n as int),
{
    let mut written = String::new();
    if n < 0 {
        written.append("-");
        push_decimal(&mut written, (-(n as i64)) as u64);
    } else {
        push_decimal(&mut written, n as u64);
    }
    assert(written@ =~= decimal_text(n as int));
    written
}

impl WalletError {
    /// The error on a handle under which no wallet is open; its text is the
    /// handle in decimal.
    pub fn invalid_handle(handle: i32) -> (r: WalletError)
        ensures
            r@ == Failure::InvalidHandle(decimal_text(handle as int)),
    {
        WalletError::InvalidHandle(decimal(handle))
    }
}

} // verus!
