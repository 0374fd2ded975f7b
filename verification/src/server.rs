//! The decisions of the static server: which file a request path names and
//! which response a read of that file calls for.

use crate::keywords::same_text;
use vstd::prelude::*;

verus! {

/// The two things that the server serves.
#[derive(Clone, Copy, Debug, PartialEq, Eq)]
pub enum Route {
    /// The latest rendered chart.
    Chart,
    /// The fixed document, served on every other path.
    Index,
}

/// How the read of a served file ended.
pub enum FileRead {
    /// The file was read in full.
    Found(Vec<u8>),
    /// There is no such file.
    Missing,
    /// The file is there and could not be read.
    Failed,
}

/// A response: its status code and its body.
pub struct Reply {
    pub status: u16,
    pub body: Vec<u8>,
}

/// The path on which the chart is served.
pub open spec fn chart_path() -> Seq<char> {
    "/png"@
}

/// The status code that a read calls for.
pub open spec fn status_of(read: FileRead) -> u16 {
    match read {
        FileRead::Found(_) => 200,
        FileRead::Missing => 404,
        FileRead::Failed => 500,
    }
}

/// The chart on its one path, the index on all other routes.
pub fn route(path: &str) -> (target: Route)
    ensures
        target == if path@ == chart_path() {
            Route::Chart
        } else {
            Route::Index
        },
{
    if same_text(path, "/png") {
        Route::Chart
    } else {
        Route::Index
    }
}

impl Route {
    /// The file that holds what the route serves. The chart is always read
    /// from the path to which a finished drawing is renamed.
    pub fn file(&self) -> (path: &'static str)
        ensures
            path@ == match *self {
                Route::Chart => "/tmp/chart.png"@,
                Route::Index => "public/index.html"@,
            },
    {
        match self {
            Route::Chart => "/tmp/chart.png",
            Route::Index => "public/index.html",
        }
    }
}

/// The response to a read: the file's bytes when it was read, and an empty
/// body with status 404 for a missing file or 500 for a failed read.
pub fn reply_for(read: FileRead) -> (reply: Reply)
    ensures
        reply.status == status_of(read),
        reply.body@ == match read {
            FileRead::Found(bytes) => bytes@,
            _ => Seq::<u8>::empty(),
        },
{
    match read {
        FileRead::Found(bytes) => Reply { status: 200, body: bytes },
        FileRead::Missing => Reply { status: 404, body: Vec::new() },
        FileRead::Failed => Reply { status: 500, body: Vec::new() },
    }
}

} // verus!
