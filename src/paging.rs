//! Paginated retrieval: each sequence decides which page to request next
//! and what the pages it is handed amount to. The caller sends each
//! request and hands the decoded page back.
use vstd::prelude::*;
use crate::error::Error;
use crate::objects;
use crate::resolve::{Comment, Pool, Post};
use crate::source::{comment_url_spec, pool_url_spec, search_url_spec, Request, Sources};
use crate::text::{encode_query, encoded_query};

verus! {

/// What a sequence asks of its caller: send a request and hand back the
/// decoded page, or take an outcome.
#[derive(Debug)]
pub enum Step<T> {
    Fetch(Request),
    Done(T),
}

/// Where a search sequence stands.
#[derive(Debug, Clone, Copy, PartialEq, Eq, Structural)]
pub enum Phase {
    /// Items may be buffered; the next call drains one or asks for a page.
    Ready,
    /// A page has been asked for and not yet handed back.
    Awaiting,
    /// An empty page ended the sequence.
    Exhausted,
    /// A page could not be fetched; the sequence has ended.
    Failed,
}

/// A lazy search over posts: pages are fetched one at a time, in order, and
/// their posts come out in page order, then in-page order.
#[derive(Debug)]
pub struct Query {
    source: Sources,
    tags: String,
    page: u64,
    buffer: Vec<objects::Post>,
    phase: Phase,
}

impl Query {
    pub closed spec fn source(&self) -> Sources {
        self.source
    }

    /// The encoded tags that every page request carries.
    pub closed spec fn tags(&self) -> Seq<char> {
        self.tags@
    }

    /// The last page asked for; 0 before the first.
    pub closed spec fn page(&self) -> u64 {
        self.page
    }

    /// Posts fetched and not yet handed out.
    pub closed spec fn buffer(&self) -> Seq<objects::Post> {
        self.buffer@
    }

    pub closed spec fn phase_spec(&self) -> Phase {
        self.phase
    }

    /// The sequence's invariant: posts are buffered only while it is
    /// ready; one that waits for a page or has ended holds none.
    pub open spec fn wf(&self) -> bool {
        self.phase_spec() != Phase::Ready ==> self.buffer().len() == 0
    }

    /// Where the sequence stands.
    pub fn phase(&self) -> (r: Phase)
        ensures
            r == self.phase_spec(),
    {
        self.phase
    }

    /// Hands out the next post, or asks for the next page when none is
    /// buffered. Once the sequence has ended it hands out nothing and stays
    /// as it is. Each page is asked for once: the page number only grows.
    pub fn next(&mut self) -> (r: Step<Option<Result<Post, Error>>>)
        requires
            old(self).wf(),
            old(self).phase_spec() != Phase::Awaiting,
        ensures
            final(self).wf(),
            final(self).source() == old(self).source(),
            final(self).tags() == old(self).tags(),
            old(self).phase_spec() == Phase::Exhausted || old(self).phase_spec() == Phase::Failed
                ==> ((r matches Step::Done(None)) && *final(self) == *old(self)),
            old(self).phase_spec() == Phase::Ready && old(self).buffer().len() > 0 ==> {
                &&& r matches Step::Done(Some(Ok(p)))
                &&& p.source() == old(self).source()
                &&& p.record() == old(self).buffer()[0]
                &&& final(self).buffer() == old(self).buffer().drop_first()
                &&& final(self).page() == old(self).page()
                &&& final(self).phase_spec() == Phase::Ready
            },
            old(self).phase_spec() == Phase::Ready && old(self).buffer().len() == 0 && old(
                self,
            ).page() < u64::MAX ==> {
                &&& r matches Step::Fetch(req)
                &&& req.url@ == search_url_spec(
                    old(self).source(),
                    old(self).tags(),
                    (old(self).page() + 1) as u64,
                )
                &&& req.user_agent@ == crate::source::agent_spec()
                &&& final(self).page() == old(self).page() + 1
                &&& final(self).buffer().len() == 0
                &&& final(self).phase_spec() == Phase::Awaiting
            },
            old(self).phase_spec() == Phase::Ready && old(self).buffer().len() == 0 && old(
                self,
            ).page() == u64::MAX ==> {
                &&& r matches Step::Done(None)
                &&& final(self).page() == old(self).page()
                &&& final(self).buffer().len() == 0
                &&& final(self).phase_spec() == Phase::Exhausted
            },
    {
        match self.phase {
            Phase::Exhausted | Phase::Failed => Step::Done(None),
            _ => {
                if self.buffer.len() > 0 {
                    let p = self.buffer.remove(0);
                    Step::Done(Some(Ok(Post::from_raw(self.source, p))))
                } else if self.page < u64::MAX {
                    self.page = self.page + 1;
                    self.phase = Phase::Awaiting;
                    Step::Fetch(self.source.search_request(self.tags.as_str(), self.page))
                } else {
                    self.phase = Phase::Exhausted;
                    Step::Done(None)
                }
            },
        }
    }

    /// Takes the page asked for by the last call of `next` and completes
    /// that call: a failed fetch ends the sequence with its error, an empty
    /// page ends it with nothing, and otherwise the page's first post comes
    /// out and the rest are buffered.
    pub fn receive(&mut self, fetched: Result<Vec<objects::Post>, Error>) -> (r: Option<
        Result<Post, Error>,
    >)
        requires
            old(self).wf(),
            old(self).phase_spec() == Phase::Awaiting,
        ensures
            final(self).wf(),
            final(self).source() == old(self).source(),
            final(self).tags() == old(self).tags(),
            final(self).page() == old(self).page(),
            match fetched {
                Err(e) => r == Some(Err::<Post, Error>(e)) && final(self).phase_spec()
                    == Phase::Failed && final(self).buffer().len() == 0,
                Ok(v) => if v@.len() == 0 {
                    r == None::<Result<Post, Error>> && final(self).phase_spec() == Phase::Exhausted
                        && final(self).buffer().len() == 0
                } else {
                    &&& r matches Some(Ok(p))
                    &&& p.source() == old(self).source()
                    &&& p.record() == v@[0]
                    &&& final(self).buffer() == v@.drop_first()
                    &&& final(self).phase_spec() == Phase::Ready
                },
            },
    {
        match fetched {
            Err(e) => {
                self.phase = Phase::Failed;
                Some(Err(e))
            },
            Ok(mut v) => {
                if v.len() == 0 {
                    self.phase = Phase::Exhausted;
                    self.buffer = v;
                    None
                } else {
                    let p = v.remove(0);
                    self.buffer = v;
                    self.phase = Phase::Ready;
                    Some(Ok(Post::from_raw(self.source, p)))
                }
            },
        }
    }
}

impl Sources {
    /// A search for the posts matching `query`, whose text is
    /// percent-encoded into each page request. No page is fetched yet.
    pub fn query(&self, query: &str) -> (r: Query)
        ensures
            r.wf(),
            r.source() == *self,
            r.tags() == encoded_query(query@),
            r.page() == 0,
            r.buffer().len() == 0,
            r.phase_spec() == Phase::Ready,
    {
        Query { source: *self, tags: encode_query(query), page: 0, buffer: Vec::new(), phase: Phase::Ready }
    }
}


/// How a pool fetch stands after some pages: still short of the declared
/// count with this many posts, complete with this many, or cut short by an
/// empty page with this many.
pub enum PoolProgress {
    Short(nat),
    Complete(nat),
    Cut(nat),
}

/// The total of `lens`.
pub open spec fn total(lens: Seq<nat>) -> nat
    decreases lens.len(),
{
    if lens.len() == 0 {
        0
    } else {
        total(lens.drop_last()) + lens.last()
    }
}

/// How a pool declaring `count` posts stands after pages holding `lens[0]`,
/// `lens[1]`, ... posts: it is complete once the posts reach the count, and
/// an empty page after the first, while still short, cuts it.
pub open spec fn pool_run(count: nat, lens: Seq<nat>) -> PoolProgress
    decreases lens.len(),
{
    if lens.len() == 0 {
        PoolProgress::Short(0)
    } else {
        match pool_run(count, lens.drop_last()) {
            PoolProgress::Short(g) => if lens.len() > 1 && lens.last() == 0 {
                PoolProgress::Cut(g)
            } else if g + lens.last() >= count {
                PoolProgress::Complete(g + lens.last())
            } else {
                PoolProgress::Short(g + lens.last())
            },
            other => other,
        }
    }
}

proof fn lemma_pool_run_prefix(count: nat, lens: Seq<nat>, k: int)
    requires
        1 <= k <= lens.len(),
        forall|i: int| 1 <= i < lens.len() ==> #[trigger] lens[i] > 0,
        total(lens) == count,
    ensures
        k < lens.len() ==> pool_run(count, lens.subrange(0, k)) == PoolProgress::Short(
            total(lens.subrange(0, k)),
        ),
        k == lens.len() ==> pool_run(count, lens.subrange(0, k)) == PoolProgress::Complete(count),
    decreases k,
{
    let pre = lens.subrange(0, k);
    let prev = lens.subrange(0, k - 1);
    assert(pre.drop_last() =~= prev);
    assert(pre.last() == lens[k - 1]);
    assert(total(pre) == total(prev) + lens[k - 1]);
    lemma_total_prefix_less(lens, k);
    if k > 1 {
        lemma_pool_run_prefix(count, lens, k - 1);
        assert(lens[k - 1] > 0);
        assert(pool_run(count, prev) == PoolProgress::Short(total(prev)));
    } else {
        assert(prev =~= Seq::<nat>::empty());
        assert(pool_run(count, prev) == PoolProgress::Short(0));
    }
    if k == lens.len() {
        assert(pre =~= lens);
    }
}

proof fn lemma_total_prefix_less(lens: Seq<nat>, k: int)
    requires
        1 <= k <= lens.len(),
        forall|i: int| 1 <= i < lens.len() ==> #[trigger] lens[i] > 0,
    ensures
        k < lens.len() ==> total(lens.subrange(0, k)) < total(lens),
        k == lens.len() ==> total(lens.subrange(0, k)) == total(lens),
    decreases lens.len(),
{
    if k == lens.len() {
        assert(lens.subrange(0, k) =~= lens);
    } else {
        assert(lens.drop_last().subrange(0, k) =~= lens.subrange(0, k));
        assert(lens.last() > 0) by {
            assert(lens[lens.len() - 1] > 0);
        }
        lemma_total_prefix_less(lens.drop_last(), k);
    }
}

/// A pool whose pages hold, in all, exactly its declared count of posts,
/// every page after the first holding some, is complete after the last
/// page, and not before it.
pub proof fn lemma_pool_exact_pages_complete(count: nat, lens: Seq<nat>)
    requires
        lens.len() >= 1,
        forall|i: int| 1 <= i < lens.len() ==> #[trigger] lens[i] > 0,
        total(lens) == count,
    ensures
        pool_run(count, lens) == PoolProgress::Complete(count),
        forall|k: int|
            1 <= k < lens.len() ==> #[trigger] pool_run(count, lens.subrange(0, k))
                == PoolProgress::Short(total(lens.subrange(0, k))),
{
    lemma_pool_run_prefix(count, lens, lens.len() as int);
    assert(lens.subrange(0, lens.len() as int) =~= lens);
    assert forall|k: int| 1 <= k < lens.len() implies #[trigger] pool_run(
        count,
        lens.subrange(0, k),
    ) == PoolProgress::Short(total(lens.subrange(0, k))) by {
        lemma_pool_run_prefix(count, lens, k);
    }
}

/// A pool still short of its declared count that is handed an empty page
/// after the first is cut short at the posts gathered so far.
pub proof fn lemma_pool_empty_page_cuts(count: nat, lens: Seq<nat>)
    requires
        lens.len() >= 1,
        pool_run(count, lens) == PoolProgress::Short(total(lens)),
    ensures
        pool_run(count, lens.push(0)) == PoolProgress::Cut(total(lens)),
        total(lens.push(0)) == total(lens),
{
    assert(lens.push(0).drop_last() =~= lens);
}

/// A pool whose pages, every one after the first holding some posts, hold
/// in all fewer than its declared count is still short of it.
pub proof fn lemma_pool_short(count: nat, lens: Seq<nat>)
    requires
        forall|i: int| 1 <= i < lens.len() ==> #[trigger] lens[i] > 0,
        total(lens) < count,
    ensures
        pool_run(count, lens) == PoolProgress::Short(total(lens)),
    decreases lens.len(),
{
    if lens.len() > 0 {
        let d = lens.drop_last();
        assert forall|i: int| 1 <= i < d.len() implies #[trigger] d[i] > 0 by {
            assert(d[i] == lens[i]);
        }
        lemma_pool_short(count, d);
        if lens.len() > 1 {
            assert(lens[lens.len() - 1] > 0);
        }
    }
}

/// The number of posts in each page.
pub open spec fn page_lens(pages: Seq<objects::Pool>) -> Seq<nat> {
    pages.map_values(|p: objects::Pool| p.posts@.len() as nat)
}

/// The posts of the pages, page after page.
pub open spec fn page_posts(pages: Seq<objects::Pool>) -> Seq<objects::Post>
    decreases pages.len(),
{
    if pages.len() == 0 {
        seq![]
    } else {
        page_posts(pages.drop_last()) + pages.last().posts@
    }
}

/// A pool whose last page first brings its posts to or past the declared
/// count, every page after the first holding some, is complete after that
/// page, with all of them, and short before it.
pub proof fn lemma_pool_reach(count: nat, lens: Seq<nat>)
    requires
        lens.len() >= 1,
        forall|i: int| 1 <= i < lens.len() ==> #[trigger] lens[i] > 0,
        total(lens) >= count,
        lens.len() == 1 || total(lens.drop_last()) < count,
    ensures
        pool_run(count, lens) == PoolProgress::Complete(total(lens)),
        forall|j: int|
            1 <= j < lens.len() ==> #[trigger] pool_run(count, lens.subrange(0, j))
                == PoolProgress::Short(total(lens.subrange(0, j))),
{
    let d = lens.drop_last();
    assert forall|i: int| 1 <= i < d.len() implies #[trigger] d[i] > 0 by {
        assert(d[i] == lens[i]);
    }
    if lens.len() == 1 {
        assert(d =~= Seq::<nat>::empty());
    } else {
        lemma_pool_short(count, d);
        assert(lens[lens.len() - 1] > 0);
    }
    assert forall|j: int| 1 <= j < lens.len() implies #[trigger] pool_run(
        count,
        lens.subrange(0, j),
    ) == PoolProgress::Short(total(lens.subrange(0, j))) by {
        let q = lens.subrange(0, j);
        assert(q =~= d.subrange(0, j));
        assert forall|i: int| 1 <= i < q.len() implies #[trigger] q[i] > 0 by {
            assert(q[i] == lens[i]);
        }
        lemma_total_prefix_less(d, j);
        lemma_pool_short(count, q);
    }
}

/// Where a pool fetch that stopped after `s` pages (or, for `s` past the
/// last page, did not stop) stands against an exact or a cut sequence of
/// pages ending at `k`.
proof fn lemma_stop_at(c: nat, lens: Seq<nat>, s: int, k: int)
    requires
        1 <= s <= lens.len() + 1,
        1 <= k <= lens.len(),
        forall|j: int| 1 <= j < s ==> #[trigger] pool_run(c, lens.subrange(0, j)) is Short,
        s <= lens.len() ==> !(pool_run(c, lens.subrange(0, s)) is Short),
    ensures
        total(lens.subrange(0, k)) == c && (forall|j: int| 1 <= j < k ==> #[trigger] lens[j] > 0)
            ==> k == s && pool_run(c, lens.subrange(0, s)) == PoolProgress::Complete(c),
        k < lens.len() && total(lens.subrange(0, k)) < c && (forall|j: int|
            1 <= j < k ==> #[trigger] lens[j] > 0) && lens[k] == 0 ==> k + 1 == s && pool_run(
            c,
            lens.subrange(0, s),
        ) == PoolProgress::Cut(total(lens.subrange(0, k))),
        total(lens.subrange(0, k)) >= c && (k == 1 || total(lens.subrange(0, k - 1)) < c) && (
        forall|j: int| 1 <= j < k ==> #[trigger] lens[j] > 0) ==> k == s && pool_run(
            c,
            lens.subrange(0, s),
        ) == PoolProgress::Complete(total(lens.subrange(0, k))),
{
    let pre = lens.subrange(0, k);
    if total(pre) >= c && (k == 1 || total(lens.subrange(0, k - 1)) < c) && (forall|j: int|
        1 <= j < k ==> #[trigger] lens[j] > 0) {
        assert forall|i: int| 1 <= i < pre.len() implies #[trigger] pre[i] > 0 by {
            assert(pre[i] == lens[i]);
        }
        assert(pre.drop_last() =~= lens.subrange(0, k - 1));
        lemma_pool_reach(c, pre);
        if k < s {
            assert(pool_run(c, lens.subrange(0, k)) is Short);
        }
        if k > s {
            assert(pre.subrange(0, s) =~= lens.subrange(0, s));
            assert(pool_run(c, pre.subrange(0, s)) is Short);
        }
    }
    if total(pre) == c && (forall|j: int| 1 <= j < k ==> #[trigger] lens[j] > 0) {
        assert forall|i: int| 1 <= i < pre.len() implies #[trigger] pre[i] > 0 by {
            assert(pre[i] == lens[i]);
        }
        lemma_pool_exact_pages_complete(c, pre);
        if k < s {
            assert(pool_run(c, lens.subrange(0, k)) is Short);
        }
        if k > s {
            assert(pre.subrange(0, s) =~= lens.subrange(0, s));
            assert(pool_run(c, pre.subrange(0, s)) is Short);
        }
    }
    if k < lens.len() && total(pre) < c && (forall|j: int| 1 <= j < k ==> #[trigger] lens[j] > 0)
        && lens[k] == 0 {
        assert forall|i: int| 1 <= i < pre.len() implies #[trigger] pre[i] > 0 by {
            assert(pre[i] == lens[i]);
        }
        lemma_pool_short(c, pre);
        lemma_pool_empty_page_cuts(c, pre);
        assert(pre.push(0) =~= lens.subrange(0, k + 1));
        if k + 1 < s {
            assert(pool_run(c, lens.subrange(0, k + 1)) is Short);
        }
        if k + 1 > s {
            let q = lens.subrange(0, s);
            assert(q =~= pre.subrange(0, s));
            assert forall|i: int| 1 <= i < q.len() implies #[trigger] q[i] > 0 by {
                assert(q[i] == lens[i]);
            }
            lemma_total_prefix_less(pre, s);
            lemma_pool_short(c, q);
        }
    }
}

/// `lemma_stop_at` for every `k`.
proof fn lemma_stop_all(c: nat, lens: Seq<nat>, s: int)
    requires
        1 <= s <= lens.len() + 1,
        forall|j: int| 1 <= j < s ==> #[trigger] pool_run(c, lens.subrange(0, j)) is Short,
        s <= lens.len() ==> !(pool_run(c, lens.subrange(0, s)) is Short),
    ensures
        forall|k: int|
            1 <= k <= lens.len() && total(#[trigger] lens.subrange(0, k)) == c && (forall|j: int|
                1 <= j < k ==> #[trigger] lens[j] > 0) ==> k == s && pool_run(c, lens.subrange(0, s))
                == PoolProgress::Complete(c),
        forall|k: int|
            1 <= k < lens.len() && total(#[trigger] lens.subrange(0, k)) < c && (forall|j: int|
                1 <= j < k ==> #[trigger] lens[j] > 0) && lens[k] == 0 ==> k + 1 == s && pool_run(
                c,
                lens.subrange(0, s),
            ) == PoolProgress::Cut(total(lens.subrange(0, k))),
        forall|k: int|
            1 <= k <= lens.len() && total(#[trigger] lens.subrange(0, k)) >= c && (k == 1 || total(
                lens.subrange(0, k - 1),
            ) < c) && (forall|j: int| 1 <= j < k ==> #[trigger] lens[j] > 0) ==> k == s
                && pool_run(c, lens.subrange(0, s)) == PoolProgress::Complete(
                total(lens.subrange(0, k)),
            ),
{
    assert forall|k: int|
        1 <= k <= lens.len() && total(#[trigger] lens.subrange(0, k)) >= c && (k == 1 || total(
            lens.subrange(0, k - 1),
        ) < c) && (forall|j: int| 1 <= j < k ==> #[trigger] lens[j] > 0) implies k == s
            && pool_run(c, lens.subrange(0, s)) == PoolProgress::Complete(
            total(lens.subrange(0, k)),
        ) by {
        lemma_stop_at(c, lens, s, k);
    }
    assert forall|k: int|
        1 <= k <= lens.len() && total(#[trigger] lens.subrange(0, k)) == c && (forall|j: int|
            1 <= j < k ==> #[trigger] lens[j] > 0) implies k == s && pool_run(c, lens.subrange(0, s))
            == PoolProgress::Complete(c) by {
        lemma_stop_at(c, lens, s, k);
    }
    assert forall|k: int|
        1 <= k < lens.len() && total(#[trigger] lens.subrange(0, k)) < c && (forall|j: int|
            1 <= j < k ==> #[trigger] lens[j] > 0) && lens[k] == 0 implies k + 1 == s && pool_run(
            c,
            lens.subrange(0, s),
        ) == PoolProgress::Cut(total(lens.subrange(0, k))) by {
        lemma_stop_at(c, lens, s, k);
    }
}

/// The fetch of a pool, page by page, until its declared count of posts
/// is gathered.
pub struct PoolFetch {
    source: Sources,
    id: u64,
    page: u64,
    pool: Option<objects::Pool>,
    done: bool,
    lens: Ghost<Seq<nat>>,
}

/// Whether `a` and `b` agree on everything but their posts.
pub open spec fn same_meta(a: objects::Pool, b: objects::Pool) -> bool {
    &&& a.id == b.id
    &&& a.name == b.name
    &&& a.description == b.description
    &&& a.post_count == b.post_count
    &&& a.created_at == b.created_at
    &&& a.updated_at == b.updated_at
    &&& a.is_active == b.is_active
    &&& a.is_locked == b.is_locked
    &&& a.user_id == b.user_id
}

impl PoolFetch {
    pub closed spec fn source(&self) -> Sources {
        self.source
    }

    /// The id of the pool being fetched.
    pub closed spec fn id(&self) -> u64 {
        self.id
    }

    /// The page that the pending request asks for.
    pub closed spec fn page(&self) -> u64 {
        self.page
    }

    /// Whether the fetch has ended.
    pub closed spec fn done(&self) -> bool {
        self.done
    }

    /// The number of posts held by each page handed back so far.
    pub closed spec fn lens(&self) -> Seq<nat> {
        self.lens@
    }

    /// The first page, with the posts of every page so far, once one came.
    pub closed spec fn gathered(&self) -> Option<objects::Pool> {
        self.pool
    }

    /// The declared count, once the first page came.
    pub open spec fn count(&self) -> nat {
        match self.gathered() {
            Some(p) => p.post_count as nat,
            None => 0,
        }
    }

    /// The posts gathered so far.
    pub open spec fn posts(&self) -> Seq<objects::Post> {
        match self.gathered() {
            Some(p) => p.posts@,
            None => seq![],
        }
    }

    /// The fetch's invariant: the gathered posts are those of the pages
    /// handed back, and a fetch under way is still short of the count and
    /// waits for the page after them.
    pub closed spec fn wf(&self) -> bool {
        &&& !self.done ==> (self.pool.is_none() <==> self.lens@.len() == 0)
        &&& self.pool matches Some(p) ==> p.posts@.len() == total(self.lens@)
        &&& !self.done ==> pool_run(self.count(), self.lens@) == PoolProgress::Short(
            total(self.lens@),
        )
        &&& !self.done ==> self.page == self.lens@.len() + 1
    }

    /// The request for the page that the fetch waits for.
    pub fn request(&self) -> (r: Request)
        ensures
            r.url@ == pool_url_spec(self.source(), self.id(), self.page()),
            r.user_agent@ == crate::source::agent_spec(),
    {
        self.source.pool_request(self.id, self.page)
    }

    /// Whether the fetch has ended.
    pub fn is_done(&self) -> (r: bool)
        ensures
            r == self.done(),
    {
        self.done
    }

    /// Takes the page that the pending request asked for. A failed fetch
    /// ends with its error. The first page gives the pool and its declared
    /// count; each later page adds its posts, and an empty one while the
    /// count is not reached ends with `PoolSizeMismatch`. Once the posts
    /// reach the count, the pool comes out; else the next page is asked for,
    /// or, past the last page number, the fetch ends with `PoolSizeMismatch`.
    pub fn receive(&mut self, fetched: Result<objects::Pool, Error>) -> (r: Step<
        Result<Pool, Error>,
    >)
        requires
            old(self).wf(),
            !old(self).done(),
        ensures
            final(self).wf(),
            final(self).source() == old(self).source(),
            final(self).id() == old(self).id(),
            fetched matches Err(e) ==> (r matches Step::Done(Err(e2)) && e2 == e),
            fetched is Err ==> final(self).done(),
            fetched matches Ok(pg) ==> {
                let lens = old(self).lens().push(pg.posts@.len() as nat);
                let count = if old(self).lens().len() == 0 {
                    pg.post_count as nat
                } else {
                    old(self).count()
                };
                &&& final(self).lens() == lens
                &&& !final(self).done() ==> final(self).count() == count
                &&& !final(self).done() ==> final(self).posts() == old(self).posts() + pg.posts@
                &&& match pool_run(count, lens) {
                    PoolProgress::Complete(n) => {
                        &&& r matches Step::Done(Ok(p))
                        &&& p.source() == old(self).source()
                        &&& p.record().posts@ == old(self).posts() + pg.posts@
                        &&& p.record().posts@.len() == n
                        &&& p.record().post_count == count
                        &&& same_meta(
                            p.record(),
                            if old(self).lens().len() == 0 {
                                pg
                            } else {
                                old(self).gathered().unwrap()
                            },
                        )
                        &&& final(self).done()
                    },
                    PoolProgress::Cut(n) => {
                        &&& r matches Step::Done(Err(e))
                        &&& e == Error::PoolSizeMismatch(count as u64, n as u64)
                        &&& final(self).done()
                    },
                    PoolProgress::Short(n) => if old(self).page() < u64::MAX {
                        &&& r matches Step::Fetch(req)
                        &&& req.url@ == pool_url_spec(
                            old(self).source(),
                            old(self).id(),
                            (old(self).page() + 1) as u64,
                        )
                        &&& final(self).page() == old(self).page() + 1
                        &&& !final(self).done()
                    } else {
                        &&& r matches Step::Done(Err(e))
                        &&& e == Error::PoolSizeMismatch(count as u64, n as u64)
                        &&& final(self).done()
                    },
                }
            },
    {
        match fetched {
            Err(e) => {
                self.done = true;
                Step::Done(Err(e))
            },
            Ok(mut pg) => {
                let ghost old_lens = self.lens@;
                let ghost n = pg.posts@.len() as nat;
                let ghost old_posts = self.posts();
                let ghost pg_posts = pg.posts@;
                let ghost old_count = self.count();
                let ghost first = old_lens.len() == 0;
                let ghost lens = old_lens.push(n);
                proof {
                    assert(lens.drop_last() =~= old_lens);
                    assert(total(lens) == total(old_lens) + n);
                    if first {
                        assert(old_lens =~= Seq::<nat>::empty());
                        assert(pool_run(pg.post_count as nat, old_lens) == PoolProgress::Short(0));
                    }
                }
                self.lens = Ghost(lens);
                let acc = match self.pool.take() {
                    None => pg,
                    Some(mut acc) => {
                        if pg.posts.len() == 0 {
                            let gathered = acc.posts.len() as u64;
                            let count = acc.post_count;
                            self.done = true;
                            return Step::Done(Err(Error::PoolSizeMismatch(count, gathered)));
                        }
                        acc.posts.append(&mut pg.posts);
                        acc
                    },
                };
                let gathered = acc.posts.len() as u64;
                let ghost count = acc.post_count as nat;
                proof {
                    assert(acc.posts@ =~= old_posts + pg_posts);
                    assert(gathered as nat == total(lens));
                    assert(first ==> count == pg.post_count as nat);
                    assert(!first ==> count == old_count);
                    assert(pool_run(count, old_lens) == PoolProgress::Short(total(old_lens)));
                }
                if gathered >= acc.post_count {
                    self.done = true;
                    Step::Done(Ok(Pool::from_raw(self.source, acc)))
                } else if self.page < u64::MAX {
                    self.page = self.page + 1;
                    self.pool = Some(acc);
                    Step::Fetch(self.request())
                } else {
                    let count = acc.post_count;
                    self.done = true;
                    Step::Done(Err(Error::PoolSizeMismatch(count, gathered)))
                }
            },
        }
    }
}

impl PoolFetch {
    /// Hands `pages` to a fetch that has received none, in order, until
    /// the fetch ends; if the pages run out first, asks for the next one.
    /// Pages whose posts add up to the declared count, every page after
    /// the first holding some, give the complete pool with those posts in
    /// order. An empty page after the first, the posts before it short of
    /// the count and every page between holding some, gives
    /// `PoolSizeMismatch` with the count and the posts before it. More
    /// generally, the first page that brings the posts to or past the count
    /// ends the fetch with the pool and every post so far, in order.
    #[verifier::rlimit(50)]
    pub fn receive_all(&mut self, pages: Vec<objects::Pool>) -> (r: Step<Result<Pool, Error>>)
        requires
            old(self).wf(),
            !old(self).done(),
            old(self).lens().len() == 0,
        ensures
            final(self).source() == old(self).source(),
            final(self).id() == old(self).id(),
            forall|k: int|
                1 <= k <= pages@.len() && total(#[trigger] page_lens(pages@).subrange(0, k))
                    == pages@[0].post_count && (forall|j: int|
                    1 <= j < k ==> #[trigger] page_lens(pages@)[j] > 0) ==> (r matches Step::Done(
                    Ok(p),
                ) && p.source() == old(self).source() && p.record().posts@ == page_posts(
                    pages@.subrange(0, k),
                ) && p.record().post_count == pages@[0].post_count && p.record().posts@.len()
                    == pages@[0].post_count),
            forall|k: int|
                1 <= k < pages@.len() && total(#[trigger] page_lens(pages@).subrange(0, k))
                    < pages@[0].post_count && (forall|j: int|
                    1 <= j < k ==> #[trigger] page_lens(pages@)[j] > 0) && pages@[k].posts@.len()
                    == 0 ==> (r matches Step::Done(Err(e)) && e == Error::PoolSizeMismatch(
                    pages@[0].post_count,
                    total(page_lens(pages@).subrange(0, k)) as u64,
                )),
            forall|k: int|
                1 <= k <= pages@.len() && total(#[trigger] page_lens(pages@).subrange(0, k))
                    >= pages@[0].post_count && (k == 1 || total(
                    page_lens(pages@).subrange(0, k - 1),
                ) < pages@[0].post_count) && (forall|j: int|
                    1 <= j < k ==> #[trigger] page_lens(pages@)[j] > 0) ==> (r matches Step::Done(
                    Ok(p),
                ) && p.source() == old(self).source() && p.record().posts@ == page_posts(
                    pages@.subrange(0, k),
                ) && p.record().post_count == pages@[0].post_count),
    {
        let mut rest = pages;
        let n0 = rest.len();
        let ghost all = rest@;
        let ghost lens = page_lens(all);
        let ghost c: nat = if all.len() > 0 {
            all[0].post_count as nat
        } else {
            0
        };
        let ghost src = self.source;
        let ghost id = self.id;
        let mut i: usize = 0;
        proof {
            assert(lens.subrange(0, 0) =~= Seq::<nat>::empty());
            assert(all.subrange(0, 0) =~= Seq::<objects::Pool>::empty());
        }
        while rest.len() > 0
            invariant
                all == pages@,
                src == old(self).source(),
                id == old(self).id(),
                all.len() == n0,
                lens == page_lens(all),
                i <= n0,
                i + rest@.len() == n0,
                rest@ == all.subrange(i as int, n0 as int),
                self.wf(),
                !self.done(),
                self.source == src,
                self.id == id,
                self.lens() == lens.subrange(0, i as int),
                self.posts() == page_posts(all.subrange(0, i as int)),
                i >= 1 ==> self.count() == c,
                c == (if all.len() > 0 {
                    all[0].post_count as nat
                } else {
                    0
                }),
                forall|j: int| 1 <= j <= i ==> #[trigger] pool_run(c, lens.subrange(0, j)) is Short,
            decreases rest@.len(),
        {
            let pg = rest.remove(0);
            let ghost s = i + 1;
            proof {
                assert(pg == all[i as int]);
                assert(lens.subrange(0, s) =~= lens.subrange(0, i as int).push(
                    pg.posts@.len() as nat,
                ));
                assert(all.subrange(0, s).drop_last() =~= all.subrange(0, i as int));
                assert(page_posts(all.subrange(0, s)) == page_posts(all.subrange(0, i as int))
                    + pg.posts@);
                assert(rest@ =~= all.subrange(s, n0 as int));
            }
            match self.receive(Ok(pg)) {
                Step::Fetch(_) => {
                    i = i + 1;
                },
                Step::Done(x) => {
                    proof {
                        assert(n0 <= usize::MAX);
                        if pool_run(c, lens.subrange(0, s)) is Short {
                            assert(s == n0);
                            lemma_stop_all(c, lens, s + 1);
                        } else {
                            lemma_stop_all(c, lens, s);
                        }
                    }
                    return Step::Done(x);
                },
            }
        }
        proof {
            lemma_stop_all(c, lens, n0 + 1);
        }
        Step::Fetch(self.request())
    }
}

impl Sources {
    /// A fetch of the pool with id `id`, waiting for its first page.
    pub fn pool(&self, id: u64) -> (r: PoolFetch)
        ensures
            r.wf(),
            r.source() == *self,
            r.id() == id,
            r.page() == 1,
            !r.done(),
            r.lens().len() == 0,
    {
        PoolFetch {
            source: *self,
            id,
            page: self.index_start(),
            pool: None,
            done: false,
            lens: Ghost(Seq::empty()),
        }
    }

    /// A fetch of every comment on the post with id `post_id`, waiting for
    /// its first page.
    pub fn comment_pool(&self, post_id: u64) -> (r: CommentFetch)
        ensures
            r.source() == *self,
            r.post_id() == post_id,
            r.page() == 1,
            r.comments().len() == 0,
            !r.done(),
    {
        CommentFetch {
            source: *self,
            post_id,
            page: self.index_start(),
            comments: Vec::new(),
            done: false,
        }
    }
}

/// The fetch of the comments on a post, page by page, until a page comes
/// back empty.
#[derive(Debug)]
pub struct CommentFetch {
    source: Sources,
    post_id: u64,
    page: u64,
    comments: Vec<objects::Comment>,
    done: bool,
}

/// Whether `cs` holds the records `all`, in order, each bound to `source`.
pub open spec fn binds_comments(cs: Seq<Comment>, all: Seq<objects::Comment>, source: Sources) -> bool {
    &&& cs.len() == all.len()
    &&& forall|i: int|
        0 <= i < cs.len() ==> #[trigger] cs[i].record() == all[i] && cs[i].source() == source
}

/// Binds each record to `source`, in order.
fn wrap_comments(source: Sources, v: Vec<objects::Comment>) -> (r: Vec<Comment>)
    ensures
        binds_comments(r@, v@, source),
{
    let mut v = v;
    let ghost all = v@;
    let mut r: Vec<Comment> = Vec::new();
    while v.len() > 0
        invariant
            r@.len() + v@.len() == all.len(),
            v@ == all.subrange(r@.len() as int, all.len() as int),
            binds_comments(r@, all.subrange(0, r@.len() as int), source),
        decreases v@.len(),
    {
        let c = v.remove(0);
        assert(c == all[r@.len() as int]);
        let ghost before = r@;
        let w = Comment::from_raw(source, c);
        r.push(w);
        assert(r@ == before.push(w));
        assert(forall|i: int| 0 <= i < before.len() ==> r@[i] == before[i]);
        assert(r@[before.len() as int].record() == all[before.len() as int]);
        assert forall|j: int| 0 <= j < r@.len() implies #[trigger] r@[j].record() == all.subrange(
            0,
            r@.len() as int,
        )[j] && r@[j].source() == source by {
            if j < before.len() {
                assert(r@[j] == before[j]);
                assert(before[j].record() == all.subrange(0, before.len() as int)[j]);
            }
        }
        assert(binds_comments(r@, all.subrange(0, r@.len() as int), source));
        assert(v@ =~= all.subrange(r@.len() as int, all.len() as int));
    }
    r
}

impl CommentFetch {
    pub closed spec fn source(&self) -> Sources {
        self.source
    }

    /// The id of the post whose comments are fetched.
    pub closed spec fn post_id(&self) -> u64 {
        self.post_id
    }

    /// The page that the pending request asks for.
    pub closed spec fn page(&self) -> u64 {
        self.page
    }

    /// The comments gathered so far.
    pub closed spec fn comments(&self) -> Seq<objects::Comment> {
        self.comments@
    }

    /// Whether the fetch has ended.
    pub closed spec fn done(&self) -> bool {
        self.done
    }

    /// The request for the page that the fetch waits for.
    pub fn request(&self) -> (r: Request)
        ensures
            r.url@ == comment_url_spec(self.source(), self.post_id(), self.page()),
            r.user_agent@ == crate::source::agent_spec(),
    {
        self.source.comment_request(self.post_id, self.page)
    }

    /// Whether the fetch has ended.
    pub fn is_done(&self) -> (r: bool)
        ensures
            r == self.done(),
    {
        self.done
    }

    /// Takes the page that the pending request asked for. A failed fetch
    /// ends with its error; an empty page ends with every comment gathered,
    /// in page order; otherwise its comments are added and the next page is
    /// asked for.
    pub fn receive(&mut self, fetched: Result<Vec<objects::Comment>, Error>) -> (r: Step<
        Result<Vec<Comment>, Error>,
    >)
        requires
            !old(self).done(),
        ensures
            final(self).source() == old(self).source(),
            final(self).post_id() == old(self).post_id(),
            fetched matches Err(e) ==> (r matches Step::Done(Err(e2)) && e2 == e),
            fetched is Err ==> final(self).done(),
            match fetched {
                Err(_) => true,
                Ok(v) => {
                    let all = old(self).comments() + v@;
                    if v@.len() == 0 || old(self).page() == u64::MAX {
                        &&& r matches Step::Done(Ok(cs))
                        &&& binds_comments(cs@, all, old(self).source())
                        &&& final(self).done()
                    } else {
                        &&& r matches Step::Fetch(req)
                        &&& req.url@ == comment_url_spec(
                            old(self).source(),
                            old(self).post_id(),
                            (old(self).page() + 1) as u64,
                        )
                        &&& final(self).page() == old(self).page() + 1
                        &&& final(self).comments() == all
                        &&& !final(self).done()
                    }
                },
            },
    {
        match fetched {
            Err(e) => {
                self.done = true;
                Step::Done(Err(e))
            },
            Ok(mut v) => {
                let ghost all = self.comments@ + v@;
                let empty = v.len() == 0;
                self.comments.append(&mut v);
                assert(self.comments@ =~= all);
                if empty || self.page == u64::MAX {
                    self.done = true;
                    let mut gathered: Vec<objects::Comment> = Vec::new();
                    gathered.append(&mut self.comments);
                    assert(gathered@ =~= all);
                    Step::Done(Ok(wrap_comments(self.source, gathered)))
                } else {
                    self.page = self.page + 1;
                    Step::Fetch(self.request())
                }
            },
        }
    }
}

} // verus!
