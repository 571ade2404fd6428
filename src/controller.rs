//! Responses of the request handlers, built from the outcome of a store
//! operation or of a cache read.
use vstd::prelude::*;
use vstd::string::*;
use vstd::utf8::encode_utf8;

use crate::db::table::{ComEntry, StoreError};
use crate::fetch::FetchError;
use crate::response::{ContentType, Data, Status};

verus! {

/// The text of a store error.
pub open spec fn store_error_text(e: StoreError) -> Seq<char> {
    match e {
        StoreError::ConstraintViolation => "constraint violation"@,
        StoreError::NotFound => "not found"@,
        StoreError::Io(m) => m@,
    }
}

/// The text of a fetch error.
pub open spec fn fetch_error_text(e: FetchError) -> Seq<char> {
    match e {
        FetchError::Network(m) => m@,
        FetchError::Parse(m) => m@,
    }
}

impl StoreError {
    /// The error as text.
    pub fn message(&self) -> (r: String)
        ensures
            r@ == store_error_text(*self),
    {
        match self {
            StoreError::ConstraintViolation => String::from_str("constraint violation"),
            StoreError::NotFound => String::from_str("not found"),
            StoreError::Io(m) => m.clone(),
        }
    }
}

impl FetchError {
    /// The error as text.
    pub fn message(&self) -> (r: String)
        ensures
            r@ == fetch_error_text(*self),
    {
        match self {
            FetchError::Network(m) => m.clone(),
            FetchError::Parse(m) => m.clone(),
        }
    }
}

/// The UTF-8 bytes of `s`.
pub fn text_bytes(s: &String) -> (r: Vec<u8>)
    ensures
        r@ == encode_utf8(s@),
{
    s.as_str().as_bytes_vec()
}

/// A failed store operation: status 500 with the error's text.
pub fn store_failure(e: &StoreError) -> (r: Data)
    ensures
        r.body() == encode_utf8(store_error_text(*e)),
        r.kind() == ContentType::Plain,
        r.current_status() == Status::InternalServerError,
{
    let m = e.message();
    Data::new_with_status(text_bytes(&m), ContentType::Plain, Status::InternalServerError)
}

/// The response to a write (insert, delete, update): empty on success.
pub fn com_write(r: Result<(), StoreError>) -> (d: Data)
    ensures
        match r {
            Ok(()) => d.body() == Seq::<u8>::empty() && d.kind() == ContentType::Plain
                && d.current_status() == Status::Success,
            Err(e) => d.body() == encode_utf8(store_error_text(e)) && d.kind() == ContentType::Plain
                && d.current_status() == Status::InternalServerError,
        },
{
    match r {
        Ok(()) => Data::default(),
        Err(e) => store_failure(&e),
    }
}

/// The response to a read of one entry: its data as JSON.
pub fn com_select(r: Result<ComEntry, StoreError>) -> (d: Data)
    ensures
        match r {
            Ok(v) => d.body() == encode_utf8(v.data@) && d.kind() == ContentType::JSON
                && d.current_status() == Status::Success,
            Err(e) => d.body() == encode_utf8(store_error_text(e)) && d.kind() == ContentType::Plain
                && d.current_status() == Status::InternalServerError,
        },
{
    match r {
        Ok(v) => Data::new_with_status(text_bytes(&v.data), ContentType::JSON, Status::Success),
        Err(e) => store_failure(&e),
    }
}

/// The response to a read of a cached source: the value as JSON, or the
/// error's text with status `failure`.
pub fn latest(r: Result<String, FetchError>, failure: Status) -> (d: Data)
    ensures
        match r {
            Ok(v) => d.body() == encode_utf8(v@) && d.kind() == ContentType::JSON
                && d.current_status() == Status::Success,
            Err(e) => d.body() == encode_utf8(fetch_error_text(e)) && d.kind() == ContentType::Plain
                && d.current_status() == failure,
        },
{
    match r {
        Ok(v) => Data::new(text_bytes(&v), ContentType::JSON),
        Err(e) => {
            let m = e.message();
            Data::new_with_status(text_bytes(&m), ContentType::Plain, failure)
        },
    }
}

} // verus!
