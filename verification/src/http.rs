//! What the server answers to a request: the page it serves and the response
//! it builds around the page's contents.

use vstd::prelude::*;
use vstd::string::*;

verus! {

/// The pages that the server knows.
#[derive(Clone, Copy, PartialEq, Eq, Debug, Structural)]
pub enum Page {
    /// The start page, served for a request of the root.
    Home,
    /// The page served for everything else.
    NotFound,
}

/// The bytes with which a request for the root begins.
pub open spec fn root_request() -> Seq<u8> {
    "GET / HTTP/1.1\r\n".spec_bytes()
}

/// `data` begins with `prefix`.
pub open spec fn begins_with(data: Seq<u8>, prefix: Seq<u8>) -> bool {
    prefix.len() <= data.len() && data.subrange(0, prefix.len() as int) == prefix
}

/// Whether `data` begins with `prefix`.
pub fn starts_with(data: &[u8], prefix: &[u8]) -> (b: bool)
    ensures
        b == begins_with(data@, prefix@),
{
    if prefix.len() > data.len() {
        return false;
    }
    let mut i: usize = 0;
    while i < prefix.len()
        invariant
            i <= prefix@.len() <= data@.len(),
            forall|k: int| 0 <= k < i ==> data@[k] == prefix@[k],
        decreases prefix@.len() - i,
    {
        if data[i] != prefix[i] {
            assert(data@.subrange(0, prefix@.len() as int)[i as int] != prefix@[i as int]);
            return false;
        }
        i += 1;
    }
    assert(data@.subrange(0, prefix@.len() as int) =~= prefix@);
    true
}

/// The page for a request: the start page for a request of the root, the
/// other page for any other request.
pub fn select_page(request: &[u8]) -> (page: Page)
    ensures
        page == if begins_with(request@, root_request()) {
            Page::Home
        } else {
            Page::NotFound
        },
{
    if starts_with(request, "GET / HTTP/1.1\r\n".as_bytes()) {
        Page::Home
    } else {
        Page::NotFound
    }
}

impl Page {
    /// The status line of the response that serves this page.
    pub open spec fn spec_status_line(self) -> Seq<char> {
        match self {
            Page::Home => "HTTP/1.1 200 OK\r\n\r\n"@,
            Page::NotFound => "HTTP/1.1 404 NOT FOUND\r\n\r\n"@,
        }
    }

    /// The name of the file that holds this page.
    pub open spec fn spec_file_name(self) -> Seq<char> {
        match self {
            Page::Home => "first.html"@,
            Page::NotFound => "404.html"@,
        }
    }

    /// The status line of the response that serves this page.
    pub fn status_line(self) -> (line: &'static str)
        ensures
            line@ == self.spec_status_line(),
    {
        match self {
            Page::Home => "HTTP/1.1 200 OK\r\n\r\n",
            Page::NotFound => "HTTP/1.1 404 NOT FOUND\r\n\r\n",
        }
    }

    /// The name of the file that holds this page.
    pub fn file_name(self) -> (name: &'static str)
        ensures
            name@ == self.spec_file_name(),
    {
        match self {
            Page::Home => "first.html",
            Page::NotFound => "404.html",
        }
    }

    /// The response that serves this page: its status line, then the
    /// contents of its file.
    pub fn response(self, contents: &str) -> (text: String)
        ensures
            text@ == self.spec_status_line() + contents@,
    {
        String::from_str(self.status_line()).concat(contents)
    }
}

} // verus!
