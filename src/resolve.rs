//! Decoded objects bound to the backend that produced them, with their
//! relations to other objects.
use vstd::prelude::*;
use crate::error::Error;
use crate::objects;
use crate::source::{agent_spec, post_url_spec, user_url_spec, Request, Sources};
use crate::text::{parse_decimal, parse_decimal_spec, split_on, split_spec};

verus! {

/// The safety rating of a post, ordered Safe < Questionable < Explicit.
#[derive(Debug, Clone, Copy, PartialEq, Eq, Structural, PartialOrd, Ord, Hash)]
pub enum Rating {
    Safe,
    Questionable,
    Explicit,
}

/// The rating that a rating code stands for, if it is one of `s`, `q`, `e`.
pub open spec fn rating_spec(code: Seq<char>) -> Option<Rating> {
    if code == seq!['s'] {
        Some(Rating::Safe)
    } else if code == seq!['q'] {
        Some(Rating::Questionable)
    } else if code == seq!['e'] {
        Some(Rating::Explicit)
    } else {
        None
    }
}

/// The level of a user, ordered from Blocked up to Administrator.
#[derive(Debug, Clone, Copy, PartialEq, Eq, Structural, PartialOrd, Ord, Hash)]
pub enum Level {
    Blocked,
    Member,
    Privileged,
    Contributor,
    Janitor,
    Moderator,
    Administrator,
}

/// The level that a numeric level code stands for, if it is in the table.
pub open spec fn level_spec(code: u64) -> Option<Level> {
    if code == 10 {
        Some(Level::Blocked)
    } else if code == 20 {
        Some(Level::Member)
    } else if code == 30 {
        Some(Level::Privileged)
    } else if code == 33 {
        Some(Level::Contributor)
    } else if code == 35 {
        Some(Level::Janitor)
    } else if code == 40 {
        Some(Level::Moderator)
    } else if code == 50 {
        Some(Level::Administrator)
    } else {
        None
    }
}

impl Level {
    /// The numeric code of the level, as the server writes it.
    pub fn code(&self) -> (r: u64)
        ensures
            level_spec(r) == Some(*self),
    {
        match self {
            Level::Blocked => 10,
            Level::Member => 20,
            Level::Privileged => 30,
            Level::Contributor => 33,
            Level::Janitor => 35,
            Level::Moderator => 40,
            Level::Administrator => 50,
        }
    }
}

/// An image file of a post: where it is, its extension and its size.
#[derive(Debug, Clone, PartialEq, Eq)]
pub struct Image {
    /// Source URL.
    pub source_url: String,
    /// File extension.
    pub extention: String,
    pub width: u64,
    pub height: u64,
}

impl Image {
    /// The request that opens a read stream to the image.
    pub fn try_open(&self) -> (r: Request)
        ensures
            r.url@ == self.source_url@,
            r.user_agent@ == agent_spec(),
    {
        Request::get(self.source_url.clone())
    }
}

/// The body of a response to a request for one post: the mirrors send
/// either the record itself or a list that holds it.
#[derive(Debug, Clone)]
pub enum PostResponse {
    Single(objects::Post),
    List(Vec<objects::Post>),
}

/// The post record that a response to a post request carries, if any.
pub open spec fn response_post(resp: Result<PostResponse, Error>) -> Option<objects::Post> {
    match resp {
        Ok(PostResponse::Single(p)) => Some(p),
        Ok(PostResponse::List(v)) => if v@.len() > 0 {
            Some(v@[0])
        } else {
            None
        },
        Err(_) => None,
    }
}

/// The ids that a comma-separated list of pieces names: each piece that
/// parses as a decimal `u64`, in order; the others are left out.
pub open spec fn ids_spec(parts: Seq<Seq<char>>) -> Seq<u64>
    decreases parts.len(),
{
    if parts.len() == 0 {
        seq![]
    } else {
        let rest = ids_spec(parts.drop_last());
        match parse_decimal_spec(parts.last()) {
            Some(id) => rest.push(id),
            None => rest,
        }
    }
}

/// The post records that a list of responses resolves to, in order; the
/// responses that carry none are left out.
pub open spec fn resolved_spec(fetched: Seq<Result<PostResponse, Error>>) -> Seq<objects::Post>
    decreases fetched.len(),
{
    if fetched.len() == 0 {
        seq![]
    } else {
        let rest = resolved_spec(fetched.drop_last());
        match response_post(fetched.last()) {
            Some(p) => rest.push(p),
            None => rest,
        }
    }
}

/// A post bound to its backend.
#[derive(Debug)]
pub struct Post {
    source: Sources,
    object: objects::Post,
}

impl Post {
    /// The backend that produced this post.
    pub closed spec fn source(&self) -> Sources {
        self.source
    }

    /// The decoded record.
    pub closed spec fn record(&self) -> objects::Post {
        self.object
    }

    /// Binds a decoded record to the backend that produced it.
    pub fn from_raw(source: Sources, object: objects::Post) -> (r: Post)
        ensures
            r.source() == source,
            r.record() == object,
    {
        Post { source, object }
    }

    /// The decoded record, unbound.
    pub fn to_raw(self) -> (r: objects::Post)
        ensures
            r == self.record(),
    {
        self.object
    }
}

/// A pool bound to its backend.
#[derive(Debug)]
pub struct Pool {
    source: Sources,
    object: objects::Pool,
}

impl Pool {
    /// The backend that produced this pool.
    pub closed spec fn source(&self) -> Sources {
        self.source
    }

    /// The decoded record.
    pub closed spec fn record(&self) -> objects::Pool {
        self.object
    }

    /// Binds a decoded record to the backend that produced it.
    pub fn from_raw(source: Sources, object: objects::Pool) -> (r: Pool)
        ensures
            r.source() == source,
            r.record() == object,
    {
        Pool { source, object }
    }

    /// The decoded record, unbound.
    pub fn to_raw(self) -> (r: objects::Pool)
        ensures
            r == self.record(),
    {
        self.object
    }
}

/// A user bound to its backend.
#[derive(Debug)]
pub struct User {
    source: Sources,
    object: objects::User,
}

impl User {
    /// The backend that produced this user.
    pub closed spec fn source(&self) -> Sources {
        self.source
    }

    /// The decoded record.
    pub closed spec fn record(&self) -> objects::User {
        self.object
    }

    /// Binds a decoded record to the backend that produced it.
    pub fn from_raw(source: Sources, object: objects::User) -> (r: User)
        ensures
            r.source() == source,
            r.record() == object,
    {
        User { source, object }
    }

    /// The decoded record, unbound.
    pub fn to_raw(self) -> (r: objects::User)
        ensures
            r == self.record(),
    {
        self.object
    }
}

/// A comment bound to its backend.
#[derive(Debug)]
pub struct Comment {
    source: Sources,
    object: objects::Comment,
}

impl Comment {
    /// The backend that produced this comment.
    pub closed spec fn source(&self) -> Sources {
        self.source
    }

    /// The decoded record.
    pub closed spec fn record(&self) -> objects::Comment {
        self.object
    }

    /// Binds a decoded record to the backend that produced it.
    pub fn from_raw(source: Sources, object: objects::Comment) -> (r: Comment)
        ensures
            r.source() == source,
            r.record() == object,
    {
        Comment { source, object }
    }

    /// The decoded record, unbound.
    pub fn to_raw(self) -> (r: objects::Comment)
        ensures
            r == self.record(),
    {
        self.object
    }
}

impl Sources {
    /// The post that a response to a post request carries: the record
    /// itself, or the first of a list; an empty list is `NotFound`, and a
    /// failed fetch passes its error on.
    pub fn post_from(&self, resp: Result<PostResponse, Error>) -> (r: Result<Post, Error>)
        ensures
            match resp {
                Ok(PostResponse::Single(p)) => r matches Ok(q) && q.source() == *self && q.record()
                    == p,
                Ok(PostResponse::List(v)) => if v@.len() > 0 {
                    r matches Ok(q) && q.source() == *self && q.record() == v@[0]
                } else {
                    r == Err::<Post, Error>(Error::NotFound)
                },
                Err(e) => r == Err::<Post, Error>(e),
            },
    {
        match resp {
            Ok(PostResponse::Single(p)) => Ok(Post { source: *self, object: p }),
            Ok(PostResponse::List(mut v)) => {
                if v.len() > 0 {
                    let p = v.remove(0);
                    Ok(Post { source: *self, object: p })
                } else {
                    Err(Error::NotFound)
                }
            },
            Err(e) => Err(e),
        }
    }

    /// The user that a response to a user request carries: the first of
    /// the list; an empty list is `NotFound`, and a failed fetch passes its
    /// error on.
    pub fn user_from(&self, resp: Result<Vec<objects::User>, Error>) -> (r: Result<User, Error>)
        ensures
            match resp {
                Ok(v) => if v@.len() > 0 {
                    r matches Ok(u) && u.source() == *self && u.record() == v@[0]
                } else {
                    r == Err::<User, Error>(Error::NotFound)
                },
                Err(e) => r == Err::<User, Error>(e),
            },
    {
        match resp {
            Ok(mut v) => {
                if v.len() > 0 {
                    let u = v.remove(0);
                    Ok(User { source: *self, object: u })
                } else {
                    Err(Error::NotFound)
                }
            },
            Err(e) => Err(e),
        }
    }
}


impl Post {
    /// The post's id.
    pub fn id(&self) -> (r: u64)
        ensures
            r == self.record().id,
    {
        self.object.id
    }

    /// The post's file.
    pub fn file(&self) -> (r: Image)
        ensures
            r.source_url@ == self.record().file_url@,
            r.extention@ == self.record().file_ext@,
            r.width == self.record().width,
            r.height == self.record().height,
    {
        Image {
            source_url: self.object.file_url.clone(),
            extention: self.object.file_ext.clone(),
            width: self.object.width,
            height: self.object.height,
        }
    }

    /// The preview of the post's file, always a JPEG.
    pub fn preview(&self) -> (r: Image)
        ensures
            r.source_url@ == self.record().preview_url@,
            r.extention@ == "jpg"@,
            r.width == self.record().preview_width,
            r.height == self.record().preview_height,
    {
        Image {
            source_url: self.object.preview_url.clone(),
            extention: "jpg".to_owned(),
            width: self.object.preview_width,
            height: self.object.preview_height,
        }
    }

    /// The sample of the post's file, always a JPEG.
    pub fn sample(&self) -> (r: Image)
        ensures
            r.source_url@ == self.record().sample_url@,
            r.extention@ == "jpg"@,
            r.width == self.record().sample_width,
            r.height == self.record().sample_height,
    {
        Image {
            source_url: self.object.sample_url.clone(),
            extention: "jpg".to_owned(),
            width: self.object.sample_width,
            height: self.object.sample_height,
        }
    }

    /// The post's rating; a code other than `s`, `q` and `e` is
    /// `UnknownRating`, carrying the code.
    pub fn rating(&self) -> (r: Result<Rating, Error>)
        ensures
            match rating_spec(self.record().rating@) {
                Some(x) => r == Ok::<Rating, Error>(x),
                None => r matches Err(Error::UnknownRating(code)) && code@ == self.record().rating@,
            },
    {
        let code = self.object.rating.as_str();
        if code.unicode_len() == 1 {
            let c = code.get_char(0);
            assert(code@ =~= seq![c]);
            if c == 's' {
                return Ok(Rating::Safe);
            } else if c == 'q' {
                return Ok(Rating::Questionable);
            } else if c == 'e' {
                return Ok(Rating::Explicit);
            }
        }
        Err(Error::UnknownRating(self.object.rating.clone()))
    }

    /// The post's tags, cut at each space.
    pub fn tags(&self) -> (r: Vec<String>)
        ensures
            r@.map_values(|t: String| t@) == split_spec(self.record().tags@, ' '),
    {
        split_on(self.object.tags.as_str(), ' ')
    }

    /// The request for the parent post, if the post has one.
    pub fn parent_request(&self) -> (r: Option<Request>)
        ensures
            match self.record().parent_id {
                Some(id) => r matches Some(req) && req.url@ == post_url_spec(self.source(), id)
                    && req.user_agent@ == agent_spec(),
                None => r is None,
            },
    {
        match self.object.parent_id {
            Some(id) => Some(self.source.post_request(id)),
            None => None,
        }
    }

    /// The parent post, from the response to `parent_request`: `None` if
    /// the post has no parent; a failed fetch passes its error on, and an
    /// empty list is `NotFound`.
    pub fn parent(&self, fetched: Result<PostResponse, Error>) -> (r: Result<Option<Post>, Error>)
        ensures
            self.record().parent_id is None ==> r == Ok::<Option<Post>, Error>(None),
            self.record().parent_id is Some ==> match fetched {
                Ok(PostResponse::Single(p)) => r matches Ok(Some(q)) && q.record() == p
                    && q.source() == self.source(),
                Ok(PostResponse::List(v)) => if v@.len() > 0 {
                    r matches Ok(Some(q)) && q.record() == v@[0] && q.source() == self.source()
                } else {
                    r == Err::<Option<Post>, Error>(Error::NotFound)
                },
                Err(e) => r == Err::<Option<Post>, Error>(e),
            },
    {
        if self.object.parent_id.is_none() {
            return Ok(None);
        }
        match self.source.post_from(fetched) {
            Ok(p) => Ok(Some(p)),
            Err(e) => Err(e),
        }
    }

    /// The ids of the child posts, in order; pieces of the comma-separated
    /// list that do not parse as an id are left out.
    pub fn children_ids(&self) -> (r: Vec<u64>)
        ensures
            r@ == ids_spec(split_spec(self.record().children@, ',')),
    {
        let parts = split_on(self.object.children.as_str(), ',');
        let ghost views = parts@.map_values(|p: String| p@);
        let mut ids: Vec<u64> = Vec::new();
        let mut i: usize = 0;
        while i < parts.len()
            invariant
                i <= parts@.len(),
                views == parts@.map_values(|p: String| p@),
                ids@ == ids_spec(views.subrange(0, i as int)),
            decreases parts@.len() - i,
        {
            assert(views.subrange(0, i + 1).drop_last() =~= views.subrange(0, i as int));
            match parse_decimal(parts[i].as_str()) {
                Some(id) => ids.push(id),
                None => {},
            }
            i = i + 1;
        }
        assert(views.subrange(0, parts@.len() as int) =~= views);
        ids
    }

    /// The requests for the child posts, one per id of `children_ids`.
    pub fn children_requests(&self) -> (r: Vec<Request>)
        ensures
            r@.len() == ids_spec(split_spec(self.record().children@, ',')).len(),
            forall|i: int|
                0 <= i < r@.len() ==> (#[trigger] r@[i]).url@ == post_url_spec(
                    self.source(),
                    ids_spec(split_spec(self.record().children@, ','))[i],
                ) && r@[i].user_agent@ == agent_spec(),
    {
        let ids = self.children_ids();
        let mut reqs: Vec<Request> = Vec::new();
        let mut i: usize = 0;
        while i < ids.len()
            invariant
                i <= ids@.len(),
                reqs@.len() == i,
                forall|j: int|
                    0 <= j < i ==> (#[trigger] reqs@[j]).url@ == post_url_spec(self.source(), ids@[j])
                        && reqs@[j].user_agent@ == agent_spec(),
            decreases ids@.len() - i,
        {
            reqs.push(self.source.post_request(ids[i]));
            i = i + 1;
        }
        reqs
    }

    /// The child posts, from the responses to `children_requests`, in
    /// order; a response that failed or carries no post is skipped.
    pub fn children(&self, fetched: Vec<Result<PostResponse, Error>>) -> (r: Vec<Post>)
        ensures
            r@.len() == resolved_spec(fetched@).len(),
            forall|i: int|
                0 <= i < r@.len() ==> (#[trigger] r@[i]).record() == resolved_spec(fetched@)[i]
                    && r@[i].source() == self.source(),
    {
        let mut fetched = fetched;
        let n0 = fetched.len();
        let ghost all = fetched@;
        let mut out: Vec<Post> = Vec::new();
        let mut i: usize = 0;
        assert(all.subrange(0, 0) =~= Seq::<Result<PostResponse, Error>>::empty());
        while fetched.len() > 0
            invariant
                i + fetched@.len() == all.len(),
                all.len() == n0,
                fetched@ == all.subrange(i as int, all.len() as int),
                out@.len() == resolved_spec(all.subrange(0, i as int)).len(),
                forall|j: int|
                    0 <= j < out@.len() ==> (#[trigger] out@[j]).record() == resolved_spec(
                        all.subrange(0, i as int),
                    )[j] && out@[j].source() == self.source(),
            decreases fetched@.len(),
        {
            let f = fetched.remove(0);
            assert(f == all[i as int]);
            assert(all.subrange(0, i + 1).drop_last() =~= all.subrange(0, i as int));
            assert(all.subrange(0, i + 1).last() == f);
            match self.source.post_from(f) {
                Ok(p) => out.push(p),
                Err(_) => {},
            }
            i = i + 1;
            assert(fetched@ =~= all.subrange(i as int, all.len() as int));
        }
        assert(all.subrange(0, i as int) =~= all);
        out
    }

    /// The fetch of every comment on this post.
    pub fn comments(&self) -> (r: crate::paging::CommentFetch)
        ensures
            r.source() == self.source(),
            r.post_id() == self.record().id,
            r.page() == 1,
            r.comments().len() == 0,
            !r.done(),
    {
        self.source.comment_pool(self.object.id)
    }
}


impl Pool {
    /// Whether the pool holds exactly as many posts as it declares.
    pub fn is_complete(&self) -> (r: bool)
        ensures
            r == (self.record().post_count == self.record().posts@.len()),
    {
        self.object.post_count == self.object.posts.len() as u64
    }

    /// The pool's name.
    pub fn title(&self) -> (r: &str)
        ensures
            r@ == self.record().name@,
    {
        self.object.name.as_str()
    }

    /// The pool's description.
    pub fn description(&self) -> (r: &str)
        ensures
            r@ == self.record().description@,
    {
        self.object.description.as_str()
    }

    /// The pool's posts, in order, each bound to the pool's backend.
    pub fn posts(&self) -> (r: Vec<Post>)
        ensures
            r@.len() == self.record().posts@.len(),
            forall|i: int|
                0 <= i < r@.len() ==> (#[trigger] r@[i]).record().same_as(
                    &self.record().posts@[i],
                ) && r@[i].source() == self.source(),
    {
        let mut out: Vec<Post> = Vec::new();
        let mut i: usize = 0;
        while i < self.object.posts.len()
            invariant
                i <= self.record().posts@.len(),
                out@.len() == i,
                forall|j: int|
                    0 <= j < i ==> (#[trigger] out@[j]).record().same_as(&self.record().posts@[j])
                        && out@[j].source() == self.source(),
            decreases self.record().posts@.len() - i,
        {
            out.push(Post::from_raw(self.source, self.object.posts[i].clone()));
            i = i + 1;
        }
        out
    }

    /// The request for the user who created the pool.
    pub fn creator_request(&self) -> (r: Request)
        ensures
            r.url@ == user_url_spec(self.source(), self.record().user_id),
            r.user_agent@ == agent_spec(),
    {
        self.source.user_request(self.object.user_id)
    }

    /// The user who created the pool, from the response to
    /// `creator_request`; errors pass through.
    pub fn creator(&self, fetched: Result<Vec<objects::User>, Error>) -> (r: Result<User, Error>)
        ensures
            match fetched {
                Ok(v) => if v@.len() > 0 {
                    r matches Ok(u) && u.source() == self.source() && u.record() == v@[0]
                } else {
                    r == Err::<User, Error>(Error::NotFound)
                },
                Err(e) => r == Err::<User, Error>(e),
            },
    {
        self.source.user_from(fetched)
    }
}

impl User {
    /// The user's id.
    pub fn id(&self) -> (r: u64)
        ensures
            r == self.record().id,
    {
        self.object.id
    }

    /// The user's name.
    pub fn name(&self) -> (r: &str)
        ensures
            r@ == self.record().name@,
    {
        self.object.name.as_str()
    }

    /// When the user registered, as the server formats it.
    pub fn registered_at(&self) -> (r: &str)
        ensures
            r@ == self.record().created_at@,
    {
        self.object.created_at.as_str()
    }

    /// The user's level; a code outside the table is `UnknownLevel`,
    /// carrying the code.
    pub fn level(&self) -> (r: Result<Level, Error>)
        ensures
            match level_spec(self.record().level) {
                Some(l) => r == Ok::<Level, Error>(l),
                None => r == Err::<Level, Error>(Error::UnknownLevel(self.record().level)),
            },
    {
        match self.object.level {
            10 => Ok(Level::Blocked),
            20 => Ok(Level::Member),
            30 => Ok(Level::Privileged),
            33 => Ok(Level::Contributor),
            35 => Ok(Level::Janitor),
            40 => Ok(Level::Moderator),
            50 => Ok(Level::Administrator),
            other => Err(Error::UnknownLevel(other)),
        }
    }

    /// The user's activity counters.
    pub fn stats(&self) -> (r: &objects::UserStats)
        ensures
            *r == self.record().stats,
    {
        &self.object.stats
    }

    /// The request for the user's avatar post.
    pub fn avatar_request(&self) -> (r: Request)
        ensures
            r.url@ == post_url_spec(self.source(), self.record().avatar_id),
            r.user_agent@ == agent_spec(),
    {
        self.source.post_request(self.object.avatar_id)
    }

    /// The user's avatar post, from the response to `avatar_request`;
    /// errors pass through.
    pub fn avatar(&self, fetched: Result<PostResponse, Error>) -> (r: Result<Post, Error>)
        ensures
            match fetched {
                Ok(PostResponse::Single(p)) => r matches Ok(q) && q.source() == self.source()
                    && q.record() == p,
                Ok(PostResponse::List(v)) => if v@.len() > 0 {
                    r matches Ok(q) && q.source() == self.source() && q.record() == v@[0]
                } else {
                    r == Err::<Post, Error>(Error::NotFound)
                },
                Err(e) => r == Err::<Post, Error>(e),
            },
    {
        self.source.post_from(fetched)
    }
}

impl Comment {
    /// The comment's id.
    pub fn id(&self) -> (r: u64)
        ensures
            r == self.record().id,
    {
        self.object.id
    }

    /// The comment's text.
    pub fn body(&self) -> (r: &str)
        ensures
            r@ == self.record().body@,
    {
        self.object.body.as_str()
    }

    /// The name of the comment's author.
    pub fn creator_username(&self) -> (r: &str)
        ensures
            r@ == self.record().creator@,
    {
        self.object.creator.as_str()
    }

    /// When the comment was posted, as the server formats it.
    pub fn timestamp(&self) -> (r: &str)
        ensures
            r@ == self.record().created_at@,
    {
        self.object.created_at.as_str()
    }

    /// The request for the post the comment belongs to.
    pub fn parent_request(&self) -> (r: Request)
        ensures
            r.url@ == post_url_spec(self.source(), self.record().post_id),
            r.user_agent@ == agent_spec(),
    {
        self.source.post_request(self.object.post_id)
    }

    /// The post the comment belongs to, from the response to
    /// `parent_request`; errors pass through.
    pub fn parent(&self, fetched: Result<PostResponse, Error>) -> (r: Result<Post, Error>)
        ensures
            match fetched {
                Ok(PostResponse::Single(p)) => r matches Ok(q) && q.source() == self.source()
                    && q.record() == p,
                Ok(PostResponse::List(v)) => if v@.len() > 0 {
                    r matches Ok(q) && q.source() == self.source() && q.record() == v@[0]
                } else {
                    r == Err::<Post, Error>(Error::NotFound)
                },
                Err(e) => r == Err::<Post, Error>(e),
            },
    {
        self.source.post_from(fetched)
    }

    /// The request for the comment's author.
    pub fn creator_request(&self) -> (r: Request)
        ensures
            r.url@ == user_url_spec(self.source(), self.record().creator_id),
            r.user_agent@ == agent_spec(),
    {
        self.source.user_request(self.object.creator_id)
    }

    /// The comment's author, from the response to `creator_request`;
    /// errors pass through.
    pub fn creator(&self, fetched: Result<Vec<objects::User>, Error>) -> (r: Result<User, Error>)
        ensures
            match fetched {
                Ok(v) => if v@.len() > 0 {
                    r matches Ok(u) && u.source() == self.source() && u.record() == v@[0]
                } else {
                    r == Err::<User, Error>(Error::NotFound)
                },
                Err(e) => r == Err::<User, Error>(e),
            },
    {
        self.source.user_from(fetched)
    }
}

} // verus!
