//! The backends, and the requests that reach them.
use vstd::prelude::*;
use crate::text::{decimal, decimal_of};

verus! {

/// The backends that speak this API: two mirrors of one protocol.
#[derive(Debug, Clone, Copy, PartialEq, Eq, Structural)]
pub enum Sources {
    /// The main image board.
    E621,
    /// Its mirror restricted to safe content.
    E926,
}

/// How an object is identified on the server.
#[derive(Debug, Clone, PartialEq, Eq)]
pub enum Identification {
    Id(u64),
    Md5(String),
}

/// The value of the client-identifying header that every request carries.
pub open spec fn agent_spec() -> Seq<char> {
    "eapi-rs/1.0 (DarkRyu550)"@
}

/// The client-identifying header value; it is never empty.
pub fn user_agent() -> (r: String)
    ensures
        r@ == agent_spec(),
        r@.len() > 0,
{
    proof {
        reveal_strlit("eapi-rs/1.0 (DarkRyu550)");
    }
    "eapi-rs/1.0 (DarkRyu550)".to_owned()
}

/// A GET request for the caller to send: its target and the value of its
/// client-identifying header.
#[derive(Debug, Clone, PartialEq, Eq)]
pub struct Request {
    pub url: String,
    pub user_agent: String,
}

impl Request {
    /// A GET request for `url` carrying the client-identifying header.
    pub fn get(url: String) -> (r: Request)
        ensures
            r.url@ == url@,
            r.user_agent@ == agent_spec(),
    {
        Request { url, user_agent: user_agent() }
    }
}

/// The scheme and host of a backend.
pub open spec fn host_spec(s: Sources) -> Seq<char> {
    match s {
        Sources::E621 => "https://e621.net"@,
        Sources::E926 => "https://e926.net"@,
    }
}

/// The target of page `page` of the search for the encoded tags `tags`.
pub open spec fn search_url_spec(s: Sources, tags: Seq<char>, page: u64) -> Seq<char> {
    host_spec(s) + "/post/index.json?tags="@ + tags + "&page="@ + decimal_of(page as nat)
}

/// The target of the post with id `id`.
pub open spec fn post_url_spec(s: Sources, id: u64) -> Seq<char> {
    host_spec(s) + "/post/show.json?id="@ + decimal_of(id as nat)
}

/// The target of page `page` of the pool with id `id`.
pub open spec fn pool_url_spec(s: Sources, id: u64, page: u64) -> Seq<char> {
    host_spec(s) + "/pool/show.json?id="@ + decimal_of(id as nat) + "&page="@ + decimal_of(
        page as nat,
    )
}

/// The target of page `page` of the comments on the post with id `id`.
pub open spec fn comment_url_spec(s: Sources, id: u64, page: u64) -> Seq<char> {
    host_spec(s) + "/comment/index.json?post_id="@ + decimal_of(id as nat) + "&page="@
        + decimal_of(page as nat)
}

/// The target of the user with id `id`.
pub open spec fn user_url_spec(s: Sources, id: u64) -> Seq<char> {
    host_spec(s) + "/user/index.json?id="@ + decimal_of(id as nat)
}

impl Sources {
    /// The index of the first page: 1 on both mirrors.
    pub fn index_start(&self) -> (r: u64)
        ensures
            r == 1,
    {
        match self {
            Sources::E621 => 1,
            Sources::E926 => 1,
        }
    }

    fn host(&self) -> (r: String)
        ensures
            r@ == host_spec(*self),
    {
        match self {
            Sources::E621 => "https://e621.net".to_owned(),
            Sources::E926 => "https://e926.net".to_owned(),
        }
    }

    /// The request for page `page` of the search for the encoded tags `tags`.
    pub fn search_request(&self, tags: &str, page: u64) -> (r: Request)
        ensures
            r.url@ == search_url_spec(*self, tags@, page),
            r.user_agent@ == agent_spec(),
    {
        let mut url = self.host();
        url.append("/post/index.json?tags=");
        url.append(tags);
        url.append("&page=");
        url.append(decimal(page).as_str());
        Request::get(url)
    }

    /// The request for the post with id `id`.
    pub fn post_request(&self, id: u64) -> (r: Request)
        ensures
            r.url@ == post_url_spec(*self, id),
            r.user_agent@ == agent_spec(),
    {
        let mut url = self.host();
        url.append("/post/show.json?id=");
        url.append(decimal(id).as_str());
        Request::get(url)
    }

    /// The request for page `page` of the pool with id `id`.
    pub fn pool_request(&self, id: u64, page: u64) -> (r: Request)
        ensures
            r.url@ == pool_url_spec(*self, id, page),
            r.user_agent@ == agent_spec(),
    {
        let mut url = self.host();
        url.append("/pool/show.json?id=");
        url.append(decimal(id).as_str());
        url.append("&page=");
        url.append(decimal(page).as_str());
        Request::get(url)
    }

    /// The request for page `page` of the comments on the post with id `id`.
    pub fn comment_request(&self, id: u64, page: u64) -> (r: Request)
        ensures
            r.url@ == comment_url_spec(*self, id, page),
            r.user_agent@ == agent_spec(),
    {
        let mut url = self.host();
        url.append("/comment/index.json?post_id=");
        url.append(decimal(id).as_str());
        url.append("&page=");
        url.append(decimal(page).as_str());
        Request::get(url)
    }

    /// The request for the user with id `id`.
    pub fn user_request(&self, id: u64) -> (r: Request)
        ensures
            r.url@ == user_url_spec(*self, id),
            r.user_agent@ == agent_spec(),
    {
        let mut url = self.host();
        url.append("/user/index.json?id=");
        url.append(decimal(id).as_str());
        Request::get(url)
    }
}

} // verus!
