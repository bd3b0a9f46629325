//! The records that the API returns, field for field.
use vstd::prelude::*;

verus! {

/// A JSON value carried through without being read.
#[verifier::external_type_specification]
#[verifier::external_body]
pub struct ExJsonValue(serde_json::Value);

/// Activity counters of a user.
#[derive(Debug, Clone, Copy, PartialEq, Eq)]
pub struct UserStats {
    pub post_count: u64,
    pub del_post_count: u64,
    pub edit_count: u64,
    pub favorite_count: u64,
    pub wiki_count: u64,
    pub forum_post_count: u64,
    pub note_count: u64,
    pub comment_count: u64,
    pub blip_count: u64,
    pub set_count: u64,
    pub pool_update_count: u64,
    pub pos_user_records: u64,
    pub neutral_user_records: u64,
    pub neg_user_records: u64,
}

/// A registered user.
#[derive(Debug)]
pub struct User {
    pub id: u64,
    pub name: String,
    pub level: u64,
    pub avatar_id: u64,
    pub stats: UserStats,
    /// Time of registration, already formatted as `YYYY-MM-DD HH:MM`.
    pub created_at: String,
    /// Artist tags linked to this user.
    pub artist_tags: Vec<String>,
    /// Tag subscriptions, kept as the JSON that the server sent.
    pub tag_subscriptions: serde_json::Value,
}

/// A comment on a post.
#[derive(Debug, Clone)]
pub struct Comment {
    pub id: u64,
    pub post_id: u64,
    /// Time of creation, already formatted as `YYYY-MM-DD HH:MM`.
    pub created_at: String,
    pub creator: String,
    pub creator_id: u64,
    pub body: String,
    pub score: i64,
}

/// One page of comments.
#[derive(Debug, Clone)]
pub struct CommentPool(pub Vec<Comment>);

/// A point in time, counted from the UNIX epoch.
#[derive(Debug)]
pub struct Timestamp {
    /// Names the JSON class; not read.
    pub json_class: String,
    /// Seconds since the UNIX epoch.
    pub s: u64,
    /// Nanoseconds since the last second.
    pub n: u64,
}

impl Clone for Timestamp {
    fn clone(&self) -> (r: Self)
        ensures
            r == *self,
    {
        Timestamp { json_class: self.json_class.clone(), s: self.s, n: self.n }
    }
}

/// A post as the server describes it.
#[derive(Debug)]
pub struct Post {
    pub id: u64,
    /// Tags, separated by single spaces.
    pub tags: String,
    pub description: String,
    pub author: String,
    pub source: String,
    pub md5: String,
    pub artist: Vec<String>,
    pub sources: Vec<String>,
    /// Safety rating code: `s`, `q` or `e`.
    pub rating: String,
    pub score: i64,
    pub fav_count: u64,
    pub file_size: u64,
    pub file_url: String,
    pub file_ext: String,
    pub width: u64,
    pub height: u64,
    pub preview_url: String,
    pub preview_width: u64,
    pub preview_height: u64,
    pub sample_url: String,
    pub sample_width: u64,
    pub sample_height: u64,
    pub has_comments: bool,
    pub has_notes: bool,
    pub has_children: bool,
    /// Ids of the child posts, separated by commas.
    pub children: String,
    pub parent_id: Option<u64>,
    pub created_at: Timestamp,
    pub creator_id: u64,
    pub change: u64,
    pub status: String,
}

fn clone_strings(v: &Vec<String>) -> (r: Vec<String>)
    ensures
        r@ == v@,
{
    let mut r: Vec<String> = Vec::new();
    let mut i: usize = 0;
    while i < v.len()
        invariant
            i <= v@.len(),
            r@ == v@.subrange(0, i as int),
        decreases v@.len() - i,
    {
        r.push(v[i].clone());
        assert(r@ =~= v@.subrange(0, i + 1));
        i = i + 1;
    }
    assert(v@.subrange(0, v@.len() as int) =~= v@);
    r
}

impl Post {
    /// Whether `self` and `o` hold the same values, field for field.
    pub open spec fn same_as(&self, o: &Post) -> bool {
        &&& self.id == o.id
        &&& self.tags == o.tags
        &&& self.description == o.description
        &&& self.author == o.author
        &&& self.source == o.source
        &&& self.md5 == o.md5
        &&& self.artist@ == o.artist@
        &&& self.sources@ == o.sources@
        &&& self.rating == o.rating
        &&& self.score == o.score
        &&& self.fav_count == o.fav_count
        &&& self.file_size == o.file_size
        &&& self.file_url == o.file_url
        &&& self.file_ext == o.file_ext
        &&& self.width == o.width
        &&& self.height == o.height
        &&& self.preview_url == o.preview_url
        &&& self.preview_width == o.preview_width
        &&& self.preview_height == o.preview_height
        &&& self.sample_url == o.sample_url
        &&& self.sample_width == o.sample_width
        &&& self.sample_height == o.sample_height
        &&& self.has_comments == o.has_comments
        &&& self.has_notes == o.has_notes
        &&& self.has_children == o.has_children
        &&& self.children == o.children
        &&& self.parent_id == o.parent_id
        &&& self.created_at == o.created_at
        &&& self.creator_id == o.creator_id
        &&& self.change == o.change
        &&& self.status == o.status
    }
}

impl Clone for Post {
    fn clone(&self) -> (r: Self)
        ensures
            r.same_as(self),
    {
        Post {
            id: self.id,
            tags: self.tags.clone(),
            description: self.description.clone(),
            author: self.author.clone(),
            source: self.source.clone(),
            md5: self.md5.clone(),
            artist: clone_strings(&self.artist),
            sources: clone_strings(&self.sources),
            rating: self.rating.clone(),
            score: self.score,
            fav_count: self.fav_count,
            file_size: self.file_size,
            file_url: self.file_url.clone(),
            file_ext: self.file_ext.clone(),
            width: self.width,
            height: self.height,
            preview_url: self.preview_url.clone(),
            preview_width: self.preview_width,
            preview_height: self.preview_height,
            sample_url: self.sample_url.clone(),
            sample_width: self.sample_width,
            sample_height: self.sample_height,
            has_comments: self.has_comments,
            has_notes: self.has_notes,
            has_children: self.has_children,
            children: self.children.clone(),
            parent_id: self.parent_id,
            created_at: self.created_at.clone(),
            creator_id: self.creator_id,
            change: self.change,
            status: self.status.clone(),
        }
    }
}

/// A pool: a named, ordered collection of posts with a declared count.
#[derive(Debug, Clone)]
pub struct Pool {
    pub id: u64,
    pub name: String,
    pub description: String,
    /// The number of posts that the pool declares.
    pub post_count: u64,
    pub posts: Vec<Post>,
    pub created_at: Timestamp,
    pub updated_at: Timestamp,
    pub is_active: bool,
    pub is_locked: bool,
    pub user_id: u64,
}

} // verus!
