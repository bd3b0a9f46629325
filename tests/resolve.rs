use eapi::objects;
use eapi::{Error, Image, Level, PostResponse, Rating, Sources};

fn stamp() -> objects::Timestamp {
    objects::Timestamp { json_class: "Time".to_string(), s: 0, n: 0 }
}

fn raw_post(id: u64, rating: &str) -> objects::Post {
    objects::Post {
        id,
        tags: "wolf anthro solo".to_string(),
        description: String::new(),
        author: "someone".to_string(),
        source: String::new(),
        md5: String::new(),
        artist: vec![],
        sources: vec![],
        rating: rating.to_string(),
        score: 0,
        fav_count: 0,
        file_size: 0,
        file_url: "https://static.example/a.png".to_string(),
        file_ext: "png".to_string(),
        width: 1920,
        height: 1080,
        preview_url: "https://static.example/p.jpg".to_string(),
        preview_width: 150,
        preview_height: 84,
        sample_url: "https://static.example/s.jpg".to_string(),
        sample_width: 800,
        sample_height: 450,
        has_comments: false,
        has_notes: false,
        has_children: false,
        children: String::new(),
        parent_id: None,
        created_at: stamp(),
        creator_id: 3,
        change: 0,
        status: "active".to_string(),
    }
}

fn stats() -> objects::UserStats {
    objects::UserStats {
        post_count: 1,
        del_post_count: 0,
        edit_count: 2,
        favorite_count: 3,
        wiki_count: 0,
        forum_post_count: 0,
        note_count: 0,
        comment_count: 4,
        blip_count: 0,
        set_count: 0,
        pool_update_count: 0,
        pos_user_records: 0,
        neutral_user_records: 0,
        neg_user_records: 0,
    }
}

fn raw_user(id: u64, level: u64) -> objects::User {
    objects::User {
        id,
        name: "someone".to_string(),
        level,
        avatar_id: 77,
        stats: stats(),
        created_at: "2015-05-05 05:05".to_string(),
        artist_tags: vec![],
        tag_subscriptions: serde_json::Value::Null,
    }
}

#[test]
fn rating_codes() {
    let r = |c: &str| eapi::Post::from_raw(Sources::E621, raw_post(1, c)).rating();
    assert_eq!(r("s"), Ok(Rating::Safe));
    assert_eq!(r("q"), Ok(Rating::Questionable));
    assert_eq!(r("e"), Ok(Rating::Explicit));
    assert_eq!(r("x"), Err(Error::UnknownRating("x".to_string())));
    assert_eq!(r(""), Err(Error::UnknownRating(String::new())));
    assert_eq!(r("ss"), Err(Error::UnknownRating("ss".to_string())));
    assert!(Rating::Safe < Rating::Questionable && Rating::Questionable < Rating::Explicit);
}

#[test]
fn level_codes() {
    let l = |n: u64| eapi::User::from_raw(Sources::E621, raw_user(1, n)).level();
    assert_eq!(l(10), Ok(Level::Blocked));
    assert_eq!(l(20), Ok(Level::Member));
    assert_eq!(l(30), Ok(Level::Privileged));
    assert_eq!(l(33), Ok(Level::Contributor));
    assert_eq!(l(35), Ok(Level::Janitor));
    assert_eq!(l(40), Ok(Level::Moderator));
    assert_eq!(l(50), Ok(Level::Administrator));
    assert_eq!(l(0), Err(Error::UnknownLevel(0)));
    assert_eq!(l(31), Err(Error::UnknownLevel(31)));
    assert!(Level::Blocked < Level::Member && Level::Moderator < Level::Administrator);
}

#[test]
fn tags_split_on_spaces() {
    let p = eapi::Post::from_raw(Sources::E621, raw_post(1, "s"));
    assert_eq!(p.tags(), vec!["wolf", "anthro", "solo"]);
    let mut raw = raw_post(2, "s");
    raw.tags = String::new();
    let p = eapi::Post::from_raw(Sources::E621, raw);
    assert_eq!(p.tags(), vec![""]);
}

#[test]
fn images_of_a_post() {
    let p = eapi::Post::from_raw(Sources::E621, raw_post(1, "s"));
    let file = p.file();
    assert_eq!(file.source_url, "https://static.example/a.png");
    assert_eq!(file.extention, "png");
    assert_eq!((file.width, file.height), (1920, 1080));
    let preview = p.preview();
    assert_eq!(preview.extention, "jpg");
    assert_eq!((preview.width, preview.height), (150, 84));
    let sample = p.sample();
    assert_eq!(sample.source_url, "https://static.example/s.jpg");
    assert_eq!((sample.width, sample.height), (800, 450));
}

#[test]
fn image_request_carries_agent() {
    let img = Image {
        source_url: "https://static.example/a.png".to_string(),
        extention: "png".to_string(),
        width: 1,
        height: 1,
    };
    let req = img.try_open();
    assert_eq!(req.url, "https://static.example/a.png");
    assert!(!req.user_agent.is_empty());
    assert_eq!(req.user_agent, eapi::user_agent());
}

#[test]
fn post_response_shapes() {
    let s = Sources::E621;
    assert_eq!(s.post_from(Ok(PostResponse::Single(raw_post(5, "s")))).unwrap().id(), 5);
    let list = vec![raw_post(6, "s"), raw_post(7, "s")];
    assert_eq!(s.post_from(Ok(PostResponse::List(list))).unwrap().id(), 6);
    assert_eq!(s.post_from(Ok(PostResponse::List(vec![]))).unwrap_err(), Error::NotFound);
    let e = Error::TransportError("down".to_string());
    assert_eq!(s.post_from(Err(e.clone())).unwrap_err(), e);
}

#[test]
fn user_lookup_first_or_not_found() {
    let s = Sources::E926;
    let u = s.user_from(Ok(vec![raw_user(3, 20), raw_user(4, 20)])).unwrap();
    assert_eq!(u.id(), 3);
    assert_eq!(u.name(), "someone");
    assert_eq!(u.registered_at(), "2015-05-05 05:05");
    assert_eq!(u.stats().comment_count, 4);
    assert_eq!(u.avatar_request().url, "https://e926.net/post/show.json?id=77");
    assert_eq!(s.user_from(Ok(vec![])).unwrap_err(), Error::NotFound);
    assert_eq!(u.to_raw().avatar_id, 77);
}

#[test]
fn parent_only_when_present() {
    let p = eapi::Post::from_raw(Sources::E621, raw_post(1, "s"));
    assert!(p.parent_request().is_none());
    assert!(matches!(p.parent(Ok(PostResponse::Single(raw_post(9, "s")))), Ok(None)));
    let mut raw = raw_post(2, "s");
    raw.parent_id = Some(9);
    let p = eapi::Post::from_raw(Sources::E621, raw);
    assert_eq!(p.parent_request().unwrap().url, "https://e621.net/post/show.json?id=9");
    let got = p.parent(Ok(PostResponse::Single(raw_post(9, "s")))).unwrap().unwrap();
    assert_eq!(got.id(), 9);
}

#[test]
fn parent_fetch_errors_reach_the_caller() {
    let mut raw = raw_post(2, "s");
    raw.parent_id = Some(9);
    let p = eapi::Post::from_raw(Sources::E621, raw);
    let e = Error::TransportError("reset".to_string());
    assert_eq!(p.parent(Err(e.clone())).unwrap_err(), e);
    assert_eq!(p.parent(Ok(PostResponse::List(vec![]))).unwrap_err(), Error::NotFound);
    assert_eq!(p.parent_request().unwrap().user_agent, eapi::user_agent());
}

#[test]
fn comment_relations() {
    let c = eapi::Comment::from_raw(
        Sources::E621,
        objects::Comment {
            id: 1,
            post_id: 42,
            created_at: "2017-01-02 03:04".to_string(),
            creator: "commenter".to_string(),
            creator_id: 5,
            body: "hi".to_string(),
            score: 2,
        },
    );
    assert_eq!(c.parent_request().url, "https://e621.net/post/show.json?id=42");
    assert_eq!(c.creator_request().url, "https://e621.net/user/index.json?id=5");
    assert_eq!(c.creator(Ok(vec![raw_user(5, 30)])).unwrap().id(), 5);
    assert_eq!(c.parent(Ok(PostResponse::Single(raw_post(42, "q")))).unwrap().id(), 42);
}

#[test]
fn pool_creator_request() {
    let pool = eapi::Pool::from_raw(
        Sources::E926,
        objects::Pool {
            id: 3,
            name: "n".to_string(),
            description: "d".to_string(),
            post_count: 2,
            posts: vec![raw_post(1, "s")],
            created_at: stamp(),
            updated_at: stamp(),
            is_active: true,
            is_locked: false,
            user_id: 8,
        },
    );
    assert!(!pool.is_complete());
    assert_eq!(pool.description(), "d");
    assert_eq!(pool.creator_request().url, "https://e926.net/user/index.json?id=8");
    assert_eq!(pool.creator(Ok(vec![])).unwrap_err(), Error::NotFound);
}

#[test]
fn level_codes_round_trip() {
    let all = [
        (Level::Blocked, 10),
        (Level::Member, 20),
        (Level::Privileged, 30),
        (Level::Contributor, 33),
        (Level::Janitor, 35),
        (Level::Moderator, 40),
        (Level::Administrator, 50),
    ];
    for (level, code) in all {
        assert_eq!(level.code(), code);
        let u = eapi::User::from_raw(Sources::E621, raw_user(1, code));
        assert_eq!(u.level(), Ok(level));
    }
}

#[test]
fn client_header_value() {
    assert_eq!(eapi::user_agent(), "eapi-rs/1.0 (DarkRyu550)");
    assert_eq!(Sources::E621.post_request(1).user_agent, "eapi-rs/1.0 (DarkRyu550)");
}
