//! Responses, and the refresh schedule of the cached sources.
use vstd::prelude::*;

pub mod cryptocurrency;
pub mod market;

use crate::config::Timer;
use crate::scheduler::{Scheduler, ScheduleEntry};

verus! {

/// The media type of a response body.
#[derive(Clone, Copy, PartialEq, Eq, Structural, Debug)]
pub enum ContentType {
    Plain,
    JSON,
}

/// The HTTP status of a response.
#[derive(Clone, Copy, PartialEq, Eq, Structural, Debug)]
pub enum Status {
    Success,
    Unauthorized,
    NotFound,
    InternalServerError,
}

impl Status {
    /// The numeric HTTP status code.
    pub fn code(&self) -> (r: u16)
        ensures
            r == match *self {
                Status::Success => 200u16,
                Status::Unauthorized => 401u16,
                Status::NotFound => 404u16,
                Status::InternalServerError => 500u16,
            },
    {
        match self {
            Status::Success => 200,
            Status::Unauthorized => 401,
            Status::NotFound => 404,
            Status::InternalServerError => 500,
        }
    }
}

/// A response: body bytes, their media type and a status.
pub struct Data {
    data: Vec<u8>,
    content_type: ContentType,
    pub status: Status,
}

impl Data {
    pub closed spec fn body(&self) -> Seq<u8> {
        self.data@
    }

    pub closed spec fn kind(&self) -> ContentType {
        self.content_type
    }

    pub closed spec fn current_status(&self) -> Status {
        self.status
    }

    /// A successful response.
    pub fn new(data: Vec<u8>, t: ContentType) -> (r: Data)
        ensures
            r.body() == data@,
            r.kind() == t,
            r.current_status() == Status::Success,
    {
        Data { data, content_type: t, status: Status::Success }
    }

    /// A response with the given status.
    pub fn new_with_status(data: Vec<u8>, t: ContentType, status: Status) -> (r: Data)
        ensures
            r.body() == data@,
            r.kind() == t,
            r.current_status() == status,
    {
        Data { data, content_type: t, status }
    }

    /// The body bytes.
    pub fn data(&self) -> (r: &Vec<u8>)
        ensures
            r@ == self.body(),
    {
        &self.data
    }

    /// The media type of the body.
    pub fn content_type(&self) -> (r: ContentType)
        ensures
            r == self.kind(),
    {
        self.content_type
    }
}

impl Default for Data {
    /// An empty plain-text success.
    fn default() -> (r: Data)
        ensures
            r.body() == Seq::<u8>::empty(),
            r.kind() == ContentType::Plain,
            r.current_status() == Status::Success,
    {
        Data { data: Vec::new(), content_type: ContentType::Plain, status: Status::Success }
    }
}

/// The schedule of every cached source under `timer`.
pub open spec fn schedule_of(timer: Timer) -> Seq<ScheduleEntry> {
    cryptocurrency::schedule_of(timer).push(market::entry_of(timer))
}

/// The refresh scheduler of every cached source, at tick 0.
pub fn init(timer: &Timer) -> (r: Scheduler)
    ensures
        r.wf(),
        r.count() == 0,
        r.entries() == schedule_of(*timer),
        forall|i: int| 0 <= i < r.busy().len() ==> !(#[trigger] r.busy()[i]),
{
    let mut entries = cryptocurrency::init(timer);
    entries.push(market::init(timer));
    Scheduler::new(entries)
}

} // verus!
