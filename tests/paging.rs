use eapi::objects;
use eapi::{Error, Phase, PoolFetch, PostResponse, Query, Sources, Step};

fn stamp() -> objects::Timestamp {
    objects::Timestamp { json_class: "Time".to_string(), s: 1_500_000_000, n: 0 }
}

fn raw_post(id: u64) -> objects::Post {
    objects::Post {
        id,
        tags: "wolf anthro".to_string(),
        description: String::new(),
        author: "someone".to_string(),
        source: String::new(),
        md5: "d41d8cd98f00b204e9800998ecf8427e".to_string(),
        artist: vec!["someone".to_string()],
        sources: vec![],
        rating: "s".to_string(),
        score: 3,
        fav_count: 1,
        file_size: 1024,
        file_url: format!("https://static.example/{}.png", id),
        file_ext: "png".to_string(),
        width: 800,
        height: 600,
        preview_url: format!("https://static.example/preview/{}.jpg", id),
        preview_width: 150,
        preview_height: 112,
        sample_url: format!("https://static.example/sample/{}.jpg", id),
        sample_width: 400,
        sample_height: 300,
        has_comments: false,
        has_notes: false,
        has_children: false,
        children: String::new(),
        parent_id: None,
        created_at: stamp(),
        creator_id: 7,
        change: 0,
        status: "active".to_string(),
    }
}

fn raw_pool(post_count: u64, posts: Vec<objects::Post>) -> objects::Pool {
    objects::Pool {
        id: 587,
        name: "A_Pool".to_string(),
        description: "pages".to_string(),
        post_count,
        posts,
        created_at: stamp(),
        updated_at: stamp(),
        is_active: true,
        is_locked: false,
        user_id: 9,
    }
}

fn fetch_url<T>(step: &Step<T>) -> String {
    match step {
        Step::Fetch(req) => req.url.clone(),
        Step::Done(_) => panic!("expected a page request"),
    }
}

#[test]
fn search_yields_page_posts_then_ends() {
    let mut q: Query = Sources::E621.query("wolf anthro");
    let first = q.next();
    assert_eq!(
        fetch_url(&first),
        "https://e621.net/post/index.json?tags=wolf%20anthro&page=1"
    );
    let got = q.receive(Ok(vec![raw_post(1), raw_post(2)]));
    match got {
        Some(Ok(p)) => assert_eq!(p.id(), 1),
        _ => panic!("expected the first post"),
    }
    match q.next() {
        Step::Done(Some(Ok(p))) => assert_eq!(p.id(), 2),
        _ => panic!("expected the buffered post"),
    }
    let third = q.next();
    assert_eq!(
        fetch_url(&third),
        "https://e621.net/post/index.json?tags=wolf%20anthro&page=2"
    );
    assert!(q.receive(Ok(vec![])).is_none());
    assert_eq!(q.phase(), Phase::Exhausted);
    for _ in 0..3 {
        match q.next() {
            Step::Done(None) => {}
            _ => panic!("an exhausted search must stay ended"),
        }
    }
}

#[test]
fn search_error_is_surfaced_and_ends() {
    let mut q = Sources::E926.query("fox");
    assert_eq!(fetch_url(&q.next()), "https://e926.net/post/index.json?tags=fox&page=1");
    match q.receive(Err(Error::TransportError("reset".to_string()))) {
        Some(Err(Error::TransportError(m))) => assert_eq!(m, "reset"),
        _ => panic!("expected the transport error"),
    }
    assert_eq!(q.phase(), Phase::Failed);
    match q.next() {
        Step::Done(None) => {}
        _ => panic!("a failed search must stay ended"),
    }
}

#[test]
fn pool_complete_after_one_page() {
    let mut f: PoolFetch = Sources::E621.pool(587);
    assert_eq!(f.request().url, "https://e621.net/pool/show.json?id=587&page=1");
    let page = raw_pool(3, vec![raw_post(1), raw_post(2), raw_post(3)]);
    match f.receive(Ok(page)) {
        Step::Done(Ok(pool)) => {
            assert!(pool.is_complete());
            let ids: Vec<u64> = pool.posts().iter().map(|p| p.id()).collect();
            assert_eq!(ids, vec![1, 2, 3]);
        }
        _ => panic!("expected a complete pool without a second page"),
    }
    assert!(f.is_done());
}

#[test]
fn pool_complete_over_two_pages() {
    let mut f = Sources::E621.pool(587);
    let step = f.receive(Ok(raw_pool(5, vec![raw_post(1), raw_post(2), raw_post(3)])));
    assert_eq!(fetch_url(&step), "https://e621.net/pool/show.json?id=587&page=2");
    match f.receive(Ok(raw_pool(5, vec![raw_post(4), raw_post(5)]))) {
        Step::Done(Ok(pool)) => {
            assert!(pool.is_complete());
            assert_eq!(pool.title(), "A_Pool");
            let ids: Vec<u64> = pool.posts().iter().map(|p| p.id()).collect();
            assert_eq!(ids, vec![1, 2, 3, 4, 5]);
        }
        _ => panic!("expected a complete pool"),
    }
}

#[test]
fn pool_short_page_is_size_mismatch() {
    let mut f = Sources::E621.pool(587);
    let step = f.receive(Ok(raw_pool(5, vec![raw_post(1), raw_post(2), raw_post(3)])));
    assert_eq!(fetch_url(&step), "https://e621.net/pool/show.json?id=587&page=2");
    match f.receive(Ok(raw_pool(5, vec![]))) {
        Step::Done(Err(e)) => assert_eq!(e, Error::PoolSizeMismatch(5, 3)),
        _ => panic!("expected a size mismatch"),
    }
    assert!(f.is_done());
}

#[test]
fn pool_fetch_error_passes_through() {
    let mut f = Sources::E926.pool(12);
    assert_eq!(f.request().url, "https://e926.net/pool/show.json?id=12&page=1");
    match f.receive(Err(Error::DecodeError("bad json".to_string()))) {
        Step::Done(Err(e)) => assert_eq!(e, Error::DecodeError("bad json".to_string())),
        _ => panic!("expected the decode error"),
    }
}

#[test]
fn empty_pool_is_complete() {
    let mut f = Sources::E621.pool(1);
    match f.receive(Ok(raw_pool(0, vec![]))) {
        Step::Done(Ok(pool)) => {
            assert!(pool.is_complete());
            assert!(pool.posts().is_empty());
        }
        _ => panic!("expected an empty, complete pool"),
    }
}

fn raw_comment(id: u64) -> objects::Comment {
    objects::Comment {
        id,
        post_id: 42,
        created_at: "2017-01-02 03:04".to_string(),
        creator: "commenter".to_string(),
        creator_id: 5,
        body: format!("comment {}", id),
        score: 0,
    }
}

#[test]
fn comments_gather_until_empty_page() {
    let post = eapi::Post::from_raw(Sources::E621, raw_post(42));
    let mut f = post.comments();
    assert_eq!(f.request().url, "https://e621.net/comment/index.json?post_id=42&page=1");
    let step = f.receive(Ok(vec![raw_comment(1), raw_comment(2)]));
    assert_eq!(fetch_url(&step), "https://e621.net/comment/index.json?post_id=42&page=2");
    let step = f.receive(Ok(vec![raw_comment(3)]));
    assert_eq!(fetch_url(&step), "https://e621.net/comment/index.json?post_id=42&page=3");
    match f.receive(Ok(vec![])) {
        Step::Done(Ok(cs)) => {
            let ids: Vec<u64> = cs.iter().map(|c| c.id()).collect();
            assert_eq!(ids, vec![1, 2, 3]);
            assert_eq!(cs[2].body(), "comment 3");
            assert_eq!(cs[0].creator_username(), "commenter");
            assert_eq!(cs[0].timestamp(), "2017-01-02 03:04");
        }
        _ => panic!("expected the comments"),
    }
    assert!(f.is_done());
}

#[test]
fn children_skip_malformed_ids() {
    let mut raw = raw_post(1);
    raw.children = "10,abc,12".to_string();
    let post = eapi::Post::from_raw(Sources::E621, raw);
    assert_eq!(post.children_ids(), vec![10, 12]);
    let urls: Vec<String> = post.children_requests().into_iter().map(|r| r.url).collect();
    assert_eq!(
        urls,
        vec![
            "https://e621.net/post/show.json?id=10".to_string(),
            "https://e621.net/post/show.json?id=12".to_string()
        ]
    );
    let kids = post.children(vec![
        Ok(PostResponse::Single(raw_post(10))),
        Ok(PostResponse::List(vec![raw_post(12)])),
    ]);
    let ids: Vec<u64> = kids.iter().map(|p| p.id()).collect();
    assert_eq!(ids, vec![10, 12]);
}

#[test]
fn children_skip_failed_fetches() {
    let mut raw = raw_post(1);
    raw.children = "10,11,12".to_string();
    let post = eapi::Post::from_raw(Sources::E926, raw);
    let kids = post.children(vec![
        Ok(PostResponse::Single(raw_post(10))),
        Err(Error::TransportError("timeout".to_string())),
        Ok(PostResponse::List(vec![])),
    ]);
    let ids: Vec<u64> = kids.iter().map(|p| p.id()).collect();
    assert_eq!(ids, vec![10]);
}

#[test]
fn pages_summing_to_count_complete_the_pool() {
    let mut f = Sources::E621.pool(587);
    let pages = vec![
        raw_pool(5, vec![raw_post(1), raw_post(2)]),
        raw_pool(5, vec![raw_post(3)]),
        raw_pool(5, vec![raw_post(4), raw_post(5)]),
        raw_pool(5, vec![raw_post(6)]),
    ];
    match f.receive_all(pages) {
        Step::Done(Ok(pool)) => {
            assert!(pool.is_complete());
            let ids: Vec<u64> = pool.posts().iter().map(|p| p.id()).collect();
            assert_eq!(ids, vec![1, 2, 3, 4, 5]);
        }
        _ => panic!("expected the complete pool after the third page"),
    }
    assert!(f.is_done());
}

#[test]
fn empty_later_page_gives_size_mismatch() {
    let mut f = Sources::E926.pool(4);
    let pages = vec![
        raw_pool(4, vec![raw_post(1)]),
        raw_pool(4, vec![raw_post(2), raw_post(3)]),
        raw_pool(4, vec![]),
    ];
    match f.receive_all(pages) {
        Step::Done(Err(e)) => assert_eq!(e, Error::PoolSizeMismatch(4, 3)),
        _ => panic!("expected a size mismatch"),
    }
}

#[test]
fn pages_running_out_ask_for_the_next() {
    let mut f = Sources::E621.pool(9);
    let step = f.receive_all(vec![raw_pool(4, vec![raw_post(1)]), raw_pool(4, vec![raw_post(2)])]);
    assert_eq!(fetch_url(&step), "https://e621.net/pool/show.json?id=9&page=3");
    assert!(!f.is_done());
    match f.receive(Ok(raw_pool(4, vec![raw_post(3), raw_post(4)]))) {
        Step::Done(Ok(pool)) => assert!(pool.is_complete()),
        _ => panic!("expected the complete pool"),
    }
}

#[test]
fn page_past_the_count_ends_the_fetch() {
    let mut f = Sources::E621.pool(2);
    let pages = vec![
        raw_pool(3, vec![raw_post(1), raw_post(2)]),
        raw_pool(3, vec![raw_post(3), raw_post(4)]),
        raw_pool(3, vec![raw_post(5)]),
    ];
    match f.receive_all(pages) {
        Step::Done(Ok(pool)) => {
            assert!(!pool.is_complete());
            let ids: Vec<u64> = pool.posts().iter().map(|p| p.id()).collect();
            assert_eq!(ids, vec![1, 2, 3, 4]);
        }
        _ => panic!("expected the pool after the second page"),
    }
    assert!(f.is_done());
}
