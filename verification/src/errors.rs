use vstd::prelude::*;

verus! {

/// The failure kinds the service distinguishes.
///
/// `StoreError` is any failure of the backing store itself; `NotFound` means a
/// requested list id has no record; the last two report a violated word rule:
/// adding a word that is already present, or removing one that is absent.
#[derive(Clone, Copy, Debug, PartialEq, Eq, Structural)]
pub enum AppError {
    StoreError,
    NotFound,
    WordAlreadyExists,
    WordNotFound,
}

impl AppError {
    /// The HTTP status code each error kind is reported with.
    pub fn status_code(&self) -> (code: u16)
        ensures
            code == (match *self {
                AppError::StoreError => 500u16,
                AppError::NotFound => 404u16,
                AppError::WordAlreadyExists => 400u16,
                AppError::WordNotFound => 400u16,
            }),
    {
        match *self {
            AppError::StoreError => 500,
            AppError::NotFound => 404,
            AppError::WordAlreadyExists => 400,
            AppError::WordNotFound => 400,
        }
    }

    /// The response body each error kind is reported with.
    pub fn message(&self) -> (text: String)
        ensures
            text@ == (match *self {
                AppError::StoreError => "Database error"@,
                AppError::NotFound => "Not found"@,
                AppError::WordAlreadyExists => "Word already exists"@,
                AppError::WordNotFound => "Word not found in list"@,
            }),
    {
        match *self {
            AppError::StoreError => "Database error".to_owned(),
            AppError::NotFound => "Not found".to_owned(),
            AppError::WordAlreadyExists => "Word already exists".to_owned(),
            AppError::WordNotFound => "Word not found in list".to_owned(),
        }
    }
}

} // verus!
