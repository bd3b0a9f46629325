//! Client library for a paginated image-board JSON API.
//!
//! The library decides which requests to send and what their decoded
//! responses amount to: search sequences, pool and comment pagination,
//! and the relations between posts, pools, users and comments. The caller
//! sends each `Request` and hands the decoded body back.
pub mod error;
pub mod objects;
pub mod paging;
pub mod resolve;
pub mod source;
pub mod text;

pub use error::Error;
pub use paging::{CommentFetch, Phase, PoolFetch, Query, Step};
pub use resolve::{Comment, Image, Level, Pool, Post, PostResponse, Rating, User};
pub use source::{user_agent, Identification, Request, Sources};
