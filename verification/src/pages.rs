//! Assembly of the served documents: the detail page of one post with its
//! neighbor navigation, the reverse-chronological feed, and the not-found
//! body. Each document is a fixed frame of literal HTML around the post
//! fields; post bodies are embedded unescaped, as the content is
//! operator-authored.

use vstd::prelude::*;

use crate::md::{posts_ghost, Post, PostGhost, PostWrapper};
use crate::metadata::{PostMetadata, PostMetadataGhost};

verus! {

pub open spec fn spec_meta_ghost_opt(m: Option<PostMetadata>) -> Option<PostMetadataGhost> {
    match m {
        Some(x) => Some(x@),
        None => None,
    }
}

/// The navigation link rendered for one neighbor, under the anchor class
/// `rel` (`prev` or `next`).
pub open spec fn spec_nav_link(rel: Seq<char>, m: PostMetadataGhost) -> Seq<char> {
    "<a class=\""@ + rel + "\" href=\""@ + m.path_from_root + "\">"@ + m.title + "</a>"@
}

pub open spec fn spec_nav(rel: Seq<char>, m: Option<PostMetadataGhost>) -> Seq<char> {
    match m {
        Some(x) => spec_nav_link(rel, x),
        None => Seq::empty(),
    }
}

/// The detail page of a post: its title, its rendered body, and a navigation
/// link per neighbor that exists.
pub open spec fn spec_page_html(
    prev: Option<PostMetadataGhost>,
    post: PostGhost,
    next: Option<PostMetadataGhost>,
) -> Seq<char> {
    "<!DOCTYPE html><html><head><title>"@ + post.meta.title
        + "</title></head><body><article><h1 class=\"text-white\">"@ + post.meta.title + "</h1>\n"@
        + post.body + "</article><nav>"@ + spec_nav("prev"@, prev) + spec_nav("next"@, next)
        + "</nav></body></html>"@
}

/// The body served for a path that no post carries.
pub open spec fn spec_not_found_html(path: Seq<char>) -> Seq<char> {
    "No route for "@ + path
}

/// One feed entry: the post's title linking to its route path, and its
/// summary.
pub open spec fn spec_feed_entry(p: PostGhost) -> Seq<char> {
    "<section><h2><a href=\""@ + p.meta.path_from_root + "\">"@ + p.meta.title
        + "</a></h2><p class=\"summary\">"@ + p.meta.feed_summary + "</p></section>"@
}

pub open spec fn spec_feed_entries(s: Seq<PostGhost>) -> Seq<char>
    decreases s.len(),
{
    if s.len() == 0 {
        Seq::empty()
    } else {
        spec_feed_entries(s.drop_last()) + spec_feed_entry(s.last())
    }
}

/// The feed document: every handed post's entry, in the order given.
pub open spec fn spec_feed_html(s: Seq<PostGhost>) -> Seq<char> {
    "<!DOCTYPE html><html><body><h1>Posts</h1>"@ + spec_feed_entries(s) + "</body></html>"@
}

fn append_nav(out: &mut String, rel: &str, m: &Option<PostMetadata>)
    ensures
        final (out)@ == old(out)@ + spec_nav(rel@, spec_meta_ghost_opt(*m)),
{
    match m {
        Some(meta) => {
            out.append("<a class=\"");
            out.append(rel);
            out.append("\" href=\"");
            out.append(meta.path_from_root.as_str());
            out.append("\">");
            out.append(meta.title.as_str());
            out.append("</a>");
            proof {
                assert(out@ =~= old(out)@ + spec_nav(rel@, spec_meta_ghost_opt(*m)));
            }
        },
        None => {
            proof {
                assert(out@ =~= old(out)@ + spec_nav(rel@, spec_meta_ghost_opt(*m)));
            }
        },
    }
}

/// Renders the detail page of a resolved post.
pub fn render_page(w: &PostWrapper) -> (r: String)
    ensures
        r@ == spec_page_html(
            spec_meta_ghost_opt(w.prev_meta),
            w.current_post@,
            spec_meta_ghost_opt(w.next_meta),
        ),
{
    let mut out = String::new();
    out.append("<!DOCTYPE html><html><head><title>");
    out.append(w.current_post.meta.title.as_str());
    out.append("</title></head><body><article><h1 class=\"text-white\">");
    out.append(w.current_post.meta.title.as_str());
    out.append("</h1>\n");
    out.append(w.current_post.body.as_str());
    out.append("</article><nav>");
    append_nav(&mut out, "prev", &w.prev_meta);
    append_nav(&mut out, "next", &w.next_meta);
    out.append("</nav></body></html>");
    proof {
        assert(out@ =~= spec_page_html(
            spec_meta_ghost_opt(w.prev_meta),
            w.current_post@,
            spec_meta_ghost_opt(w.next_meta),
        ));
    }
    out
}

/// Renders the body served for an unindexed path.
pub fn not_found_body(path: &str) -> (r: String)
    ensures
        r@ == spec_not_found_html(path@),
{
    let mut out = String::new();
    out.append("No route for ");
    out.append(path);
    out
}

/// Renders the feed document over the posts as handed (the handler hands them
/// most recently published first).
pub fn render_feed(posts: &Vec<Post>) -> (r: String)
    ensures
        r@ == spec_feed_html(posts_ghost(posts@)),
{
    let ghost g = posts_ghost(posts@);
    let mut out = String::new();
    out.append("<!DOCTYPE html><html><body><h1>Posts</h1>");
    let n = posts.len();
    let mut i: usize = 0;
    while i < n
        invariant
            0 <= i <= n,
            n == posts@.len(),
            g == posts_ghost(posts@),
            out@ == "<!DOCTYPE html><html><body><h1>Posts</h1>"@ + spec_feed_entries(
                g.take(i as int),
            ),
        decreases n - i,
    {
        let ghost old_out = out@;
        let p = &posts[i];
        out.append("<section><h2><a href=\"");
        out.append(p.meta.path_from_root.as_str());
        out.append("\">");
        out.append(p.meta.title.as_str());
        out.append("</a></h2><p class=\"summary\">");
        out.append(p.meta.feed_summary.as_str());
        out.append("</p></section>");
        proof {
            assert(out@ =~= old_out + spec_feed_entry(g[i as int]));
            assert(g.take(i + 1).drop_last() =~= g.take(i as int));
            assert(g.take(i + 1).last() == g[i as int]);
            assert(out@ =~= "<!DOCTYPE html><html><body><h1>Posts</h1>"@ + spec_feed_entries(
                g.take(i + 1),
            ));
        }
        i += 1;
    }
    out.append("</body></html>");
    proof {
        assert(g.take(n as int) =~= g);
        assert(out@ =~= spec_feed_html(g));
    }
    out
}

} // verus!
