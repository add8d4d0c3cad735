//! The content index: pairing each post directory's metadata and body,
//! rendering the body, deriving the route path, ordering posts by publish
//! date, and the path-keyed lookup that serves pages and the feed.

use vstd::prelude::*;

use crate::bootstrap_parser::{render_markdown, rendered_html_of};
use crate::metadata::{parse_metadata, spec_parse_metadata, PostMetadata, PostMetadataGhost};
use crate::pages::{
    not_found_body, render_feed, render_page, spec_feed_html, spec_not_found_html, spec_page_html,
};

verus! {

/// One blog entry: its metadata, its body rendered to HTML, and (inside the
/// metadata) the route path derived from its source directory.
pub struct Post {
    pub meta: PostMetadata,
    pub body: String,
}

pub ghost struct PostGhost {
    pub meta: PostMetadataGhost,
    pub body: Seq<char>,
}

impl View for Post {
    type V = PostGhost;

    open spec fn view(&self) -> PostGhost {
        PostGhost { meta: self.meta@, body: self.body@ }
    }
}

impl Clone for Post {
    fn clone(&self) -> (res: Self)
        ensures
            res == *self,
    {
        Post { meta: self.meta.clone(), body: self.body.clone() }
    }
}

/// What the directory walk hands the indexer for one directory: the
/// directory's path, and the text of its metadata and body documents — `None`
/// where a document is missing or unreadable. Such a directory is skipped.
pub struct PostSource {
    pub dir_path: String,
    pub metadata: Option<String>,
    pub body: Option<String>,
}

pub ghost struct PostSourceGhost {
    pub dir_path: Seq<char>,
    pub metadata: Option<Seq<char>>,
    pub body: Option<Seq<char>>,
}

impl View for PostSource {
    type V = PostSourceGhost;

    open spec fn view(&self) -> PostSourceGhost {
        PostSourceGhost {
            dir_path: self.dir_path@,
            metadata: match self.metadata {
                Some(ref t) => Some(t@),
                None => None,
            },
            body: match self.body {
                Some(ref t) => Some(t@),
                None => None,
            },
        }
    }
}

pub open spec fn posts_ghost(s: Seq<Post>) -> Seq<PostGhost> {
    s.map_values(|p: Post| p@)
}

pub open spec fn sources_ghost(s: Seq<PostSource>) -> Seq<PostSourceGhost> {
    s.map_values(|e: PostSource| e@)
}

/// The fixed namespace under which every post is served.
pub open spec fn spec_route_prefix() -> Seq<char> {
    "/blog"@
}

/// The route path of a post: its directory path with the content root
/// stripped and the route namespace prefixed. `None` when the directory path
/// does not lie under the content root.
pub open spec fn spec_route_path(directory: Seq<char>, entry_path: Seq<char>) -> Option<Seq<char>> {
    if directory.is_prefix_of(entry_path) {
        Some(spec_route_prefix() + entry_path.skip(directory.len() as int))
    } else {
        None
    }
}

/// Derives the route path of the post directory `entry_path` under the
/// content root `directory`.
pub fn route_path(directory: &str, entry_path: &str) -> (r: Option<String>)
    ensures
        match r {
            Some(p) => spec_route_path(directory@, entry_path@) == Some(p@),
            None => spec_route_path(directory@, entry_path@) is None,
        },
{
    let dlen = directory.unicode_len();
    let elen = entry_path.unicode_len();
    if dlen > elen {
        return None;
    }
    let mut i: usize = 0;
    while i < dlen
        invariant
            0 <= i <= dlen,
            dlen <= elen,
            dlen == directory@.len(),
            elen == entry_path@.len(),
            forall|k: int| 0 <= k < i ==> directory@[k] == entry_path@[k],
        decreases dlen - i,
    {
        if directory.get_char(i) != entry_path.get_char(i) {
            proof {
                assert(!directory@.is_prefix_of(entry_path@)) by {
                    if directory@.is_prefix_of(entry_path@) {
                        assert(directory@[i as int] == entry_path@.subrange(
                            0,
                            directory@.len() as int,
                        )[i as int]);
                    }
                }
            }
            return None;
        }
        i += 1;
    }
    proof {
        assert(directory@ =~= entry_path@.subrange(0, directory@.len() as int));
    }
    let suffix = entry_path.substring_char(dlen, elen);
    let mut out = String::new();
    out.append("/blog");
    out.append(suffix);
    proof {
        assert(out@ =~= spec_route_prefix() + entry_path@.skip(directory@.len() as int));
    }
    Some(out)
}

/// The post built from one walked directory, or `None` where the directory is
/// skipped: a document is missing, the metadata is rejected, or the directory
/// does not lie under the content root.
pub open spec fn spec_entry_post(directory: Seq<char>, e: PostSourceGhost) -> Option<PostGhost> {
    match (e.metadata, e.body) {
        (Some(meta_text), Some(body_text)) => match spec_route_path(directory, e.dir_path) {
            Some(path) => match spec_parse_metadata(meta_text) {
                Ok(meta) => Some(
                    PostGhost {
                        meta: PostMetadataGhost {
                            title: meta.title,
                            show_in_feed: meta.show_in_feed,
                            publish_dt: meta.publish_dt,
                            feed_summary: meta.feed_summary,
                            path_from_root: path,
                        },
                        body: rendered_html_of(body_text),
                    },
                ),
                Err(_) => None,
            },
            None => None,
        },
        _ => None,
    }
}

/// The posts collected from a walk, in encounter order, skipping every
/// directory that yields no post.
pub open spec fn spec_collect_posts(directory: Seq<char>, entries: Seq<PostSourceGhost>) -> Seq<
    PostGhost,
>
    decreases entries.len(),
{
    if entries.len() == 0 {
        Seq::empty()
    } else {
        spec_collect_posts(directory, entries.drop_last()) + match spec_entry_post(
            directory,
            entries.last(),
        ) {
            Some(p) => seq![p],
            None => Seq::empty(),
        }
    }
}

/// Insertion of one post into a sequence, after every post with an equal or
/// earlier publish date: the step of a stable sort.
pub open spec fn spec_insert_by_dt(s: Seq<PostGhost>, p: PostGhost) -> Seq<PostGhost>
    decreases s.len(),
{
    if s.len() == 0 {
        seq![p]
    } else if p.meta.publish_dt < s.last().meta.publish_dt {
        spec_insert_by_dt(s.drop_last(), p).push(s.last())
    } else {
        s.push(p)
    }
}

/// Stable insertion sort by publish date: ties keep their encounter order.
pub open spec fn spec_sort_by_dt(s: Seq<PostGhost>) -> Seq<PostGhost>
    decreases s.len(),
{
    if s.len() == 0 {
        Seq::empty()
    } else {
        spec_insert_by_dt(spec_sort_by_dt(s.drop_last()), s.last())
    }
}

/// Ascending by publish date over every adjacent pair.
pub open spec fn spec_ordered_by_dt(s: Seq<PostGhost>) -> bool {
    forall|i: int|
        0 <= i && i + 1 < s.len() ==> #[trigger] s[i].meta.publish_dt <= s[i + 1].meta.publish_dt
}

proof fn lemma_insert_at(s: Seq<PostGhost>, p: PostGhost, j: int)
    requires
        0 <= j <= s.len(),
        forall|k: int| j <= k < s.len() ==> s[k].meta.publish_dt > p.meta.publish_dt,
        j > 0 ==> s[j - 1].meta.publish_dt <= p.meta.publish_dt,
    ensures
        spec_insert_by_dt(s, p) == s.insert(j, p),
    decreases s.len(),
{
    if s.len() == 0 {
        assert(spec_insert_by_dt(s, p) =~= s.insert(0, p));
    } else if j == s.len() {
        assert(s.push(p) =~= s.insert(j, p));
    } else {
        assert(s.last().meta.publish_dt > p.meta.publish_dt);
        lemma_insert_at(s.drop_last(), p, j);
        assert(s.drop_last().insert(j, p).push(s.last()) =~= s.insert(j, p));
    }
}

/// Inserts `p` into `posts` immediately after the posts with an equal or
/// earlier publish date.
fn insert_post(posts: &mut Vec<Post>, p: Post)
    ensures
        posts_ghost(final (posts)@) == spec_insert_by_dt(posts_ghost(old(posts)@), p@),
{
    let mut j: usize = posts.len();
    while j > 0 && posts[j - 1].meta.publish_dt > p.meta.publish_dt
        invariant
            0 <= j <= posts@.len(),
            posts@ == old(posts)@,
            forall|k: int|
                j <= k < posts@.len() ==> posts_ghost(posts@)[k].meta.publish_dt
                    > p@.meta.publish_dt,
        decreases j,
    {
        j = j - 1;
    }
    proof {
        lemma_insert_at(posts_ghost(posts@), p@, j as int);
    }
    posts.insert(j, p);
    proof {
        assert(posts_ghost(posts@) =~= posts_ghost(old(posts)@).insert(j as int, p@));
    }
}

/// Sorts the collected posts ascending by publish date; the sort is stable,
/// so posts with equal dates keep their encounter order.
fn sort_posts(input: &Vec<Post>) -> (r: Vec<Post>)
    ensures
        posts_ghost(r@) == spec_sort_by_dt(posts_ghost(input@)),
{
    let ghost g = posts_ghost(input@);
    let mut sorted: Vec<Post> = Vec::new();
    let mut i: usize = 0;
    while i < input.len()
        invariant
            0 <= i <= input@.len(),
            g == posts_ghost(input@),
            posts_ghost(sorted@) == spec_sort_by_dt(g.take(i as int)),
        decreases input@.len() - i,
    {
        let p = input[i].clone();
        insert_post(&mut sorted, p);
        proof {
            assert(g.take(i + 1).drop_last() =~= g.take(i as int));
            assert(g.take(i + 1).last() == g[i as int]);
        }
        i += 1;
    }
    proof {
        assert(g.take(input@.len() as int) =~= g);
    }
    sorted
}

/// One entry of the path index: a route path and the position in the ordered
/// post sequence that it resolves to.
pub struct PathEntry {
    pub path: String,
    pub position: usize,
}

pub ghost struct PathEntryGhost {
    pub path: Seq<char>,
    pub position: int,
}

impl View for PathEntry {
    type V = PathEntryGhost;

    open spec fn view(&self) -> PathEntryGhost {
        PathEntryGhost { path: self.path@, position: self.position as int }
    }
}

pub open spec fn index_ghost(s: Seq<PathEntry>) -> Seq<PathEntryGhost> {
    s.map_values(|e: PathEntry| e@)
}

/// No later post carries the same route path: position `i` is where a lookup
/// of that path lands (two posts with the same derived path silently collide,
/// and the later one wins).
pub open spec fn spec_is_last_occurrence(posts: Seq<PostGhost>, i: int) -> bool {
    forall|k: int|
        i < k < posts.len() ==> #[trigger] posts[k].meta.path_from_root
            != posts[i].meta.path_from_root
}

/// What a lookup of `path` resolves to: the last position in `posts` whose
/// route path is `path`, or `None` when no post carries it.
pub open spec fn spec_resolve(posts: Seq<PostGhost>, path: Seq<char>) -> Option<int>
    decreases posts.len(),
{
    if posts.len() == 0 {
        None
    } else if posts.last().meta.path_from_root == path {
        Some(posts.len() - 1)
    } else {
        spec_resolve(posts.drop_last(), path)
    }
}

pub proof fn lemma_resolve_some(posts: Seq<PostGhost>, path: Seq<char>, i: int)
    requires
        spec_resolve(posts, path) == Some(i),
    ensures
        0 <= i < posts.len(),
        posts[i].meta.path_from_root == path,
        forall|k: int| i < k < posts.len() ==> #[trigger] posts[k].meta.path_from_root != path,
    decreases posts.len(),
{
    if posts.len() > 0 && posts.last().meta.path_from_root != path {
        lemma_resolve_some(posts.drop_last(), path, i);
        assert(forall|k: int|
            i < k < posts.len() - 1 ==> #[trigger] posts[k].meta.path_from_root
                == posts.drop_last()[k].meta.path_from_root);
    }
}

pub proof fn lemma_resolve_none(posts: Seq<PostGhost>, path: Seq<char>)
    requires
        spec_resolve(posts, path) is None,
    ensures
        forall|k: int| 0 <= k < posts.len() ==> #[trigger] posts[k].meta.path_from_root != path,
    decreases posts.len(),
{
    if posts.len() > 0 {
        lemma_resolve_none(posts.drop_last(), path);
        assert(forall|k: int|
            0 <= k < posts.len() - 1 ==> #[trigger] posts[k].meta.path_from_root
                == posts.drop_last()[k].meta.path_from_root);
    }
}

pub proof fn lemma_resolve_at_last_occurrence(posts: Seq<PostGhost>, i: int)
    requires
        0 <= i < posts.len(),
        spec_is_last_occurrence(posts, i),
    ensures
        spec_resolve(posts, posts[i].meta.path_from_root) == Some(i),
    decreases posts.len(),
{
    if i < posts.len() - 1 {
        assert(posts.last().meta.path_from_root != posts[i].meta.path_from_root);
        assert(spec_is_last_occurrence(posts.drop_last(), i)) by {
            assert(forall|k: int|
                i < k < posts.len() - 1 ==> #[trigger] posts.drop_last()[k].meta.path_from_root
                    == posts[k].meta.path_from_root);
        }
        lemma_resolve_at_last_occurrence(posts.drop_last(), i);
    }
}

/// An index entry is sound: it points into `posts`, at a post carrying its
/// path, and no later post carries that path.
pub open spec fn spec_entry_ok(e: PathEntryGhost, posts: Seq<PostGhost>) -> bool {
    &&& 0 <= e.position < posts.len()
    &&& posts[e.position].meta.path_from_root == e.path
    &&& spec_is_last_occurrence(posts, e.position)
}

/// The path index is sound and complete for `posts`: every entry resolves to
/// the last position carrying its path, and every route path that occurs in
/// `posts` has an entry.
pub open spec fn spec_index_wf(pi: Seq<PathEntryGhost>, posts: Seq<PostGhost>) -> bool {
    &&& forall|j: int| 0 <= j < pi.len() ==> spec_entry_ok(#[trigger] pi[j], posts)
    &&& forall|i: int|
        0 <= i < posts.len() && #[trigger] spec_is_last_occurrence(posts, i) ==> exists|j: int|
            0 <= j < pi.len() && (#[trigger] pi[j]).path == posts[i].meta.path_from_root
                && pi[j].position == i
}

/// Whether some later post carries the same route path as `posts[idx]`.
fn has_later_occurrence(posts: &Vec<Post>, idx: usize) -> (r: bool)
    requires
        idx < posts@.len(),
    ensures
        r == !spec_is_last_occurrence(posts_ghost(posts@), idx as int),
{
    let n = posts.len();
    let mut k: usize = idx + 1;
    while k < n
        invariant
            idx < k <= posts@.len(),
            n == posts@.len(),
            forall|t: int|
                idx < t < k ==> #[trigger] posts_ghost(posts@)[t].meta.path_from_root
                    != posts_ghost(posts@)[idx as int].meta.path_from_root,
        decreases posts@.len() - k,
    {
        if posts[k].meta.path_from_root == posts[idx].meta.path_from_root {
            proof {
                let g = posts_ghost(posts@);
                assert(g[k as int].meta.path_from_root == g[idx as int].meta.path_from_root);
                assert(!spec_is_last_occurrence(g, idx as int));
            }
            return true;
        }
        k += 1;
    }
    false
}

/// Builds the path index of a sorted post sequence: one entry per distinct
/// route path, at the last position that carries it.
fn build_index(posts: &Vec<Post>) -> (r: Vec<PathEntry>)
    ensures
        spec_index_wf(index_ghost(r@), posts_ghost(posts@)),
{
    let ghost g = posts_ghost(posts@);
    let mut pi: Vec<PathEntry> = Vec::new();
    let mut idx: usize = 0;
    while idx < posts.len()
        invariant
            0 <= idx <= posts@.len(),
            g == posts_ghost(posts@),
            forall|j: int| 0 <= j < pi@.len() ==> spec_entry_ok(#[trigger] index_ghost(pi@)[j], g),
            forall|i: int|
                0 <= i < idx && #[trigger] spec_is_last_occurrence(g, i) ==> exists|j: int|
                    0 <= j < pi@.len() && (#[trigger] index_ghost(pi@)[j]).path
                        == g[i].meta.path_from_root && index_ghost(pi@)[j].position == i,
        decreases posts@.len() - idx,
    {
        let ghost old_pi = index_ghost(pi@);
        if !has_later_occurrence(posts, idx) {
            pi.push(PathEntry { path: posts[idx].meta.path_from_root.clone(), position: idx });
        }
        proof {
            assert(forall|j: int|
                0 <= j < old_pi.len() ==> #[trigger] index_ghost(pi@)[j] == old_pi[j]);
            assert(forall|i: int|
                0 <= i < idx + 1 && #[trigger] spec_is_last_occurrence(g, i) ==> exists|j: int|
                    0 <= j < pi@.len() && (#[trigger] index_ghost(pi@)[j]).path
                        == g[i].meta.path_from_root && index_ghost(pi@)[j].position == i) by {
                assert forall|i: int|
                    0 <= i < idx + 1 && #[trigger] spec_is_last_occurrence(g, i) implies exists|
                    j: int,
                |
                    0 <= j < pi@.len() && (#[trigger] index_ghost(pi@)[j]).path
                        == g[i].meta.path_from_root && index_ghost(pi@)[j].position == i by {
                    if i < idx {
                        let j = choose|j: int|
                            0 <= j < old_pi.len() && (#[trigger] old_pi[j]).path
                                == g[i].meta.path_from_root && old_pi[j].position == i;
                        assert(index_ghost(pi@)[j].path == g[i].meta.path_from_root);
                    } else {
                        let j = pi@.len() - 1;
                        assert(index_ghost(pi@)[j].path == g[i].meta.path_from_root);
                    }
                }
            }
        }
        idx += 1;
    }
    pi
}

proof fn lemma_insert_len(s: Seq<PostGhost>, p: PostGhost)
    ensures
        spec_insert_by_dt(s, p).len() == s.len() + 1,
    decreases s.len(),
{
    if s.len() > 0 && p.meta.publish_dt < s.last().meta.publish_dt {
        lemma_insert_len(s.drop_last(), p);
    }
}

proof fn lemma_ordered_drop_last(s: Seq<PostGhost>)
    requires
        spec_ordered_by_dt(s),
        s.len() > 0,
    ensures
        spec_ordered_by_dt(s.drop_last()),
{
    let dl = s.drop_last();
    assert forall|i: int|
        0 <= i && i + 1 < dl.len() implies #[trigger] dl[i].meta.publish_dt
        <= dl[i + 1].meta.publish_dt by {
        assert(s[i].meta.publish_dt <= s[i + 1].meta.publish_dt);
    }
}

/// Inserting a post after the posts with an equal or earlier publish date
/// keeps the sequence ordered.
proof fn lemma_insert_ordered(s: Seq<PostGhost>, p: PostGhost)
    requires
        spec_ordered_by_dt(s),
    ensures
        spec_ordered_by_dt(spec_insert_by_dt(s, p)),
        spec_insert_by_dt(s, p).last() == p || (s.len() > 0 && spec_insert_by_dt(s, p).last()
            == s.last()),
    decreases s.len(),
{
    lemma_insert_len(s, p);
    if s.len() == 0 {
        assert(spec_insert_by_dt(s, p) =~= seq![p]);
    } else if p.meta.publish_dt < s.last().meta.publish_dt {
        let dl = s.drop_last();
        lemma_ordered_drop_last(s);
        lemma_insert_ordered(dl, p);
        lemma_insert_len(dl, p);
        let t = spec_insert_by_dt(dl, p);
        let r = t.push(s.last());
        assert(t.last().meta.publish_dt <= s.last().meta.publish_dt) by {
            if t.last() != p {
                assert(dl.len() > 0 && t.last() == dl.last());
                assert(s[s.len() - 2].meta.publish_dt <= s[s.len() - 1].meta.publish_dt);
            }
        }
        assert forall|i: int|
            0 <= i && i + 1 < r.len() implies #[trigger] r[i].meta.publish_dt
            <= r[i + 1].meta.publish_dt by {
            if i + 1 < t.len() {
                assert(t[i].meta.publish_dt <= t[i + 1].meta.publish_dt);
            } else {
                assert(r[i] == t.last());
            }
        }
    } else {
        let r = s.push(p);
        assert forall|i: int|
            0 <= i && i + 1 < r.len() implies #[trigger] r[i].meta.publish_dt
            <= r[i + 1].meta.publish_dt by {
            if i + 1 < s.len() {
                assert(s[i].meta.publish_dt <= s[i + 1].meta.publish_dt);
            } else {
                assert(r[i] == s.last());
            }
        }
    }
}

/// The stable sort leaves the posts ascending by publish date over every
/// adjacent pair.
pub proof fn lemma_sort_ordered(s: Seq<PostGhost>)
    ensures
        spec_ordered_by_dt(spec_sort_by_dt(s)),
    decreases s.len(),
{
    if s.len() > 0 {
        lemma_sort_ordered(s.drop_last());
        lemma_insert_ordered(spec_sort_by_dt(s.drop_last()), s.last());
    }
}

/// The in-memory content index: the posts ascending by publish date, and the
/// route-path index over them. Built in one pass and then only read.
pub struct MarkDownRouteHandler {
    pub directory: String,
    path_index: Vec<PathEntry>,
    rendered_paths: Vec<Post>,
}

impl MarkDownRouteHandler {
    /// The indexed posts, ascending by publish date.
    pub closed spec fn posts(&self) -> Seq<PostGhost> {
        posts_ghost(self.rendered_paths@)
    }

    /// The path index is sound and complete for the ordered posts.
    pub closed spec fn wf(&self) -> bool {
        spec_index_wf(index_ghost(self.path_index@), self.posts())
    }

    /// The content root the index was built from.
    pub closed spec fn content_root(&self) -> Seq<char> {
        self.directory@
    }

    /// Builds the whole index from the walked directories: each directory
    /// with both documents present, a well-formed metadata document, and a
    /// path under the content root becomes a post (the body rendered, the
    /// route path derived); every other directory is skipped and costs
    /// nothing. The posts are then sorted ascending by publish date — stably,
    /// ties keeping walk order — and the route-path index is built over them.
    pub fn new(directory: String, entries: Vec<PostSource>) -> (r: MarkDownRouteHandler)
        ensures
            r.wf(),
            r.content_root() == directory@,
            r.posts() == spec_sort_by_dt(
                spec_collect_posts(directory@, sources_ghost(entries@)),
            ),
            spec_ordered_by_dt(r.posts()),
    {
        let ghost se = sources_ghost(entries@);
        let mut collected: Vec<Post> = Vec::new();
        let mut i: usize = 0;
        while i < entries.len()
            invariant
                0 <= i <= entries@.len(),
                se == sources_ghost(entries@),
                posts_ghost(collected@) == spec_collect_posts(directory@, se.take(i as int)),
            decreases entries@.len() - i,
        {
            let ghost old_collected = posts_ghost(collected@);
            let entry = &entries[i];
            match (&entry.metadata, &entry.body) {
                (Some(meta_text), Some(body_text)) => {
                    match route_path(directory.as_str(), entry.dir_path.as_str()) {
                        Some(path) => {
                            match parse_metadata(meta_text.as_str()) {
                                Ok(m) => {
                                    let body_html = render_markdown(body_text.as_str());
                                    let mut meta = m;
                                    meta.path_from_root = path;
                                    let post = Post { meta, body: body_html };
                                    proof {
                                        assert(spec_entry_post(directory@, se[i as int])
                                            == Some(post@));
                                    }
                                    collected.push(post);
                                    proof {
                                        assert(posts_ghost(collected@) =~= old_collected.push(
                                            spec_entry_post(directory@, se[i as int])->Some_0,
                                        ));
                                    }
                                },
                                Err(_) => {
                                    proof {
                                        assert(spec_entry_post(directory@, se[i as int]) is None);
                                    }
                                },
                            }
                        },
                        None => {
                            proof {
                                assert(spec_entry_post(directory@, se[i as int]) is None);
                            }
                        },
                    }
                },
                _ => {
                    proof {
                        assert(spec_entry_post(directory@, se[i as int]) is None);
                    }
                },
            }
            proof {
                assert(se.take(i + 1).drop_last() =~= se.take(i as int));
                assert(se.take(i + 1).last() == se[i as int]);
                assert(posts_ghost(collected@) =~= spec_collect_posts(directory@, se.take(i + 1)));
            }
            i += 1;
        }
        proof {
            assert(se.take(entries@.len() as int) =~= se);
        }
        let sorted = sort_posts(&collected);
        let path_index = build_index(&sorted);
        proof {
            lemma_sort_ordered(posts_ghost(collected@));
        }
        MarkDownRouteHandler { directory, path_index, rendered_paths: sorted }
    }

    /// Looks `path` up in the path index: the position of the (last) post
    /// carrying that route path, or `None` when no post does.
    fn lookup(&self, path: &String) -> (r: Option<usize>)
        requires
            self.wf(),
        ensures
            match r {
                Some(i) => spec_resolve(self.posts(), path@) == Some(i as int),
                None => spec_resolve(self.posts(), path@) is None,
            },
    {
        let ghost posts = self.posts();
        let ghost pi = index_ghost(self.path_index@);
        let n = self.path_index.len();
        let mut j: usize = 0;
        while j < n
            invariant
                0 <= j <= n,
                n == self.path_index@.len(),
                self.wf(),
                posts == self.posts(),
                pi == index_ghost(self.path_index@),
                forall|t: int| 0 <= t < j ==> (#[trigger] pi[t]).path != path@,
            decreases n - j,
        {
            if self.path_index[j].path == *path {
                let pos = self.path_index[j].position;
                proof {
                    assert(spec_entry_ok(pi[j as int], posts));
                    lemma_resolve_at_last_occurrence(posts, pos as int);
                }
                return Some(pos);
            }
            j += 1;
        }
        proof {
            if spec_resolve(posts, path@) is Some {
                let i = spec_resolve(posts, path@)->Some_0;
                lemma_resolve_some(posts, path@, i);
                assert(spec_is_last_occurrence(posts, i));
                let j = choose|j: int|
                    0 <= j < pi.len() && (#[trigger] pi[j]).path == posts[i].meta.path_from_root
                        && pi[j].position == i;
                assert(false);
            }
        }
        None
    }

    /// Resolves a requested route path to its post and the metadata of its
    /// chronological neighbors: the previous (one position earlier, so
    /// published earlier) and the next (one position later) — absent at the
    /// two ends of the sequence. `None` when the path is not indexed.
    pub fn resolve(&self, path: &str) -> (r: Option<PostWrapper>)
        requires
            self.wf(),
        ensures
            match spec_resolve(self.posts(), path@) {
                Some(i) => r matches Some(w) && w.current_post@ == self.posts()[i] && (match w
                    .prev_meta {
                    Some(m) => i > 0 && m@ == self.posts()[i - 1].meta,
                    None => i == 0,
                }) && (match w.next_meta {
                    Some(m) => i + 1 < self.posts().len() && m@ == self.posts()[i + 1].meta,
                    None => i + 1 == self.posts().len(),
                }),
                None => r is None,
            },
    {
        let owned: String = path.to_owned();
        match self.lookup(&owned) {
            Some(index) => {
                let n = self.rendered_paths.len();
                proof {
                    lemma_resolve_some(self.posts(), path@, index as int);
                    assert(index < n);
                }
                let prev_meta = if index >= 1 {
                    Some(self.rendered_paths[index - 1].meta.clone())
                } else {
                    None
                };
                let next_meta = if index + 1 < n {
                    Some(self.rendered_paths[index + 1].meta.clone())
                } else {
                    None
                };
                let current_post = self.rendered_paths[index].clone();
                Some(PostWrapper { prev_meta, current_post, next_meta })
            },
            None => None,
        }
    }

    /// Serves a requested route path: `200` with the post's detail page when
    /// the path is indexed, `404` with a plain not-found body when it is not.
    /// The detail page carries the previous neighbor's link exactly when the
    /// post is not the earliest, and the next neighbor's exactly when it is
    /// not the latest.
    pub fn get_html(&self, uri: &str) -> (r: (u16, String))
        requires
            self.wf(),
        ensures
            match spec_resolve(self.posts(), uri@) {
                Some(i) => r.0 == 200u16 && r.1@ == spec_page_html(
                    if i > 0 {
                        Some(self.posts()[i - 1].meta)
                    } else {
                        None
                    },
                    self.posts()[i],
                    if i + 1 < self.posts().len() {
                        Some(self.posts()[i + 1].meta)
                    } else {
                        None
                    },
                ),
                None => r.0 == 404u16 && r.1@ == spec_not_found_html(uri@),
            },
    {
        match self.resolve(uri) {
            Some(wrapper) => {
                let body = render_page(&wrapper);
                (200u16, body)
            },
            None => (404u16, not_found_body(uri)),
        }
    }

    /// Serves the feed: one document listing every indexed post, most
    /// recently published first.
    pub fn get_feed(&self) -> (r: String)
        ensures
            r@ == spec_feed_html(self.posts().reverse()),
    {
        let reversed = self.feed_posts();
        render_feed(&reversed)
    }

    /// The posts of the feed: all indexed posts, most recently published
    /// first — exactly the ordered sequence reversed.
    pub fn feed_posts(&self) -> (r: Vec<Post>)
        ensures
            posts_ghost(r@) == self.posts().reverse(),
    {
        let n = self.rendered_paths.len();
        let mut out: Vec<Post> = Vec::new();
        let mut i: usize = 0;
        while i < n
            invariant
                0 <= i <= n,
                n == self.rendered_paths@.len(),
                out@.len() == i,
                forall|k: int|
                    0 <= k < i ==> #[trigger] out@[k] == self.rendered_paths@[n - 1 - k],
            decreases n - i,
        {
            out.push(self.rendered_paths[n - 1 - i].clone());
            i += 1;
        }
        proof {
            assert(posts_ghost(out@) =~= self.posts().reverse());
        }
        out
    }
}

/// A resolved detail page: the post itself, and the metadata — not the body —
/// of its chronological neighbors, for navigation links.
pub struct PostWrapper {
    pub prev_meta: Option<PostMetadata>,
    pub current_post: Post,
    pub next_meta: Option<PostMetadata>,
}

/// When no two indexed posts share a route path, every post's own path
/// resolves back to exactly its position: the path index is consistent with
/// the ordered sequence.
pub proof fn lemma_index_consistent(posts: Seq<PostGhost>, i: int)
    requires
        0 <= i < posts.len(),
        forall|a: int, b: int|
            0 <= a < b < posts.len() ==> (#[trigger] posts[a].meta.path_from_root) != (
            #[trigger] posts[b].meta.path_from_root),
    ensures
        spec_resolve(posts, posts[i].meta.path_from_root) == Some(i),
{
    assert(spec_is_last_occurrence(posts, i));
    lemma_resolve_at_last_occurrence(posts, i);
}

/// Even when derived route paths collide, every indexed post's path still
/// resolves — to the last position carrying it, at or after the post itself:
/// the later post silently wins the shared path.
pub proof fn lemma_every_indexed_path_resolves(posts: Seq<PostGhost>, i: int)
    requires
        0 <= i < posts.len(),
    ensures
        spec_resolve(posts, posts[i].meta.path_from_root) matches Some(j) && i <= j < posts.len()
            && posts[j].meta.path_from_root == posts[i].meta.path_from_root,
    decreases posts.len(),
{
    if posts.last().meta.path_from_root != posts[i].meta.path_from_root {
        lemma_every_indexed_path_resolves(posts.drop_last(), i);
    }
}

/// A directory missing either its metadata or its body document contributes
/// nothing to the collected posts: it is excluded, and the build goes on.
pub proof fn lemma_incomplete_source_excluded(
    directory: Seq<char>,
    entries: Seq<PostSourceGhost>,
    e: PostSourceGhost,
)
    requires
        e.metadata is None || e.body is None,
    ensures
        spec_collect_posts(directory, entries.push(e)) == spec_collect_posts(directory, entries),
{
    assert(entries.push(e).drop_last() =~= entries);
    assert(entries.push(e).last() == e);
    assert(spec_entry_post(directory, e) is None);
    assert(spec_collect_posts(directory, entries.push(e)) =~= spec_collect_posts(
        directory,
        entries,
    ));
}

} // verus!
