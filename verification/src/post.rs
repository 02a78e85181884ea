//! Posts, and the list of them that the front page shows.

use crate::time::{is_rfc3339, local_rfc3339, parses_as_rfc3339};
use vstd::prelude::*;

verus! {

/// A post as the store holds it. The store assigns `id`; the server assigns
/// `create_time` when the post is created.
#[derive(Debug, PartialEq, Eq)]
pub struct Post {
    pub id: u64,
    pub title: String,
    pub content: String,
    pub create_time: String,
}

/// What a `Post` holds.
pub struct PostView {
    pub id: u64,
    pub title: Seq<char>,
    pub content: Seq<char>,
    pub create_time: Seq<char>,
}

impl View for Post {
    type V = PostView;

    open spec fn view(&self) -> PostView {
        PostView {
            id: self.id,
            title: self.title@,
            content: self.content@,
            create_time: self.create_time@,
        }
    }
}

/// What each post of `v` holds.
pub open spec fn post_views(v: Seq<Post>) -> Seq<PostView> {
    Seq::new(v.len(), |i: int| v[i]@)
}

/// What an optional post holds.
pub open spec fn optional_post_view(post: Option<Post>) -> Option<PostView> {
    match post {
        Some(p) => Some(p@),
        None => None,
    }
}

/// Whether the creation time of every post reads as a timestamp.
pub open spec fn all_rfc3339(posts: Seq<PostView>) -> bool {
    forall|i: int| 0 <= i < posts.len() ==> is_rfc3339(#[trigger] posts[i].create_time)
}

/// `post` with another text for its creation time.
pub open spec fn retimed(post: PostView, create_time: Seq<char>) -> PostView {
    PostView { id: post.id, title: post.title, content: post.content, create_time }
}

/// The posts, each with the text in its place in `times` for its creation
/// time.
pub open spec fn retimed_all(posts: Seq<PostView>, times: Seq<Seq<char>>) -> Seq<PostView> {
    Seq::new(posts.len(), |i: int| retimed(posts[i], times[i]))
}

impl Clone for Post {
    fn clone(&self) -> (post: Post)
        ensures
            post == *self,
    {
        Post {
            id: self.id,
            title: self.title.clone(),
            content: self.content.clone(),
            create_time: self.create_time.clone(),
        }
    }
}

impl Post {
    /// Gives the post `create_time` as the text of its creation time. The
    /// identity, the title and the content stay as they are.
    pub fn retime(&mut self, create_time: String)
        ensures
            final(self)@ == retimed(old(self)@, create_time@),
    {
        self.create_time = create_time;
    }

    /// Rewrites the creation time in the time zone of this machine. The
    /// identity, the title and the content stay as they are. The creation
    /// time must read as a timestamp. Which text the creation time becomes
    /// is for the machine's time zone to say: it may be the text that was
    /// there.
    pub fn with_local_time(&mut self)
        requires
            is_rfc3339(old(self).create_time@),
        ensures
            final(self)@ == retimed(old(self)@, final(self).create_time@),
    {
        let local = local_rfc3339(self.create_time.as_str());
        self.retime(local);
    }

    /// Rewrites the creation time in the time zone of this machine where it
    /// reads as a timestamp, and says whether it did. Where it does not, the
    /// post stays as it is.
    pub fn localize(&mut self) -> (done: bool)
        ensures
            done == is_rfc3339(old(self).create_time@),
            done ==> final(self)@ == retimed(old(self)@, final(self).create_time@),
            !done ==> *final(self) == *old(self),
    {
        if parses_as_rfc3339(self.create_time.as_str()) {
            self.with_local_time();
            true
        } else {
            false
        }
    }
}

/// The posts of the front page, newest first.
#[derive(Debug)]
pub struct Index {
    pub posts: Vec<Post>,
}

impl Index {
    /// Orders the rows of the store, which come oldest first, for the front
    /// page: newest first.
    pub fn newest_first(rows: Vec<Post>) -> (index: Index)
        ensures
            index.posts@ == rows@.reverse(),
    {
        let mut rest = rows;
        let mut posts: Vec<Post> = Vec::new();
        let ghost n = rows@.len();
        while rest.len() > 0
            invariant
                n == rows@.len(),
                rest@ == rows@.take(rest@.len() as int),
                posts@.len() + rest@.len() == n,
                forall|k: int| 0 <= k < posts@.len() ==> posts@[k] == rows@[n - 1 - k],
            decreases rest.len(),
        {
            let ghost before = rest@;
            let post = rest.pop().unwrap();
            assert(rest@ =~= rows@.take(rest@.len() as int));
            posts.push(post);
        }
        assert(posts@ =~= rows@.reverse());
        Index { posts }
    }

    /// Rewrites the creation time of every post in the time zone of this
    /// machine, where each of them reads as a timestamp, and says whether it
    /// did. Where one does not, the posts stay as they are.
    pub fn localize(&mut self) -> (done: bool)
        ensures
            done == all_rfc3339(post_views(old(self).posts@)),
            done ==> post_views(final(self).posts@) == retimed_all(
                post_views(old(self).posts@),
                Seq::new(final(self).posts@.len(), |i: int| final(self).posts@[i].create_time@),
            ),
            !done ==> *final(self) == *old(self),
    {
        let mut i: usize = 0;
        while i < self.posts.len()
            invariant
                i <= self.posts.len(),
                *self == *old(self),
                forall|j: int| 0 <= j < i ==> is_rfc3339(#[trigger] self.posts@[j].create_time@),
            decreases self.posts.len() - i,
        {
            if !parses_as_rfc3339(self.posts[i].create_time.as_str()) {
                assert(!is_rfc3339(post_views(self.posts@)[i as int].create_time));
                return false;
            }
            i = i + 1;
        }
        assert(all_rfc3339(post_views(self.posts@))) by {
            assert forall|j: int| 0 <= j < self.posts@.len() implies is_rfc3339(
                #[trigger] post_views(self.posts@)[j].create_time,
            ) by {
                assert(is_rfc3339(self.posts@[j].create_time@));
            }
        }
        let mut taken: Vec<Post> = Vec::new();
        core::mem::swap(&mut self.posts, &mut taken);
        let ghost all = taken@;
        let mut shown: Vec<Post> = Vec::new();
        for post in it: taken
            invariant
                it.seq() == all,
                all_rfc3339(post_views(all)),
                shown@.len() == it.index(),
                forall|k: int|
                    0 <= k < shown@.len() ==> (#[trigger] shown@[k])@ == retimed(
                        all[k]@,
                        shown@[k].create_time@,
                    ),
        {
            let mut post = post;
            assert(is_rfc3339(post_views(all)[it.index() as int].create_time));
            post.with_local_time();
            shown.push(post);
        }
        self.posts = shown;
        assert(post_views(self.posts@) =~= retimed_all(
            post_views(old(self).posts@),
            Seq::new(self.posts@.len(), |i: int| self.posts@[i].create_time@),
        ));
        true
    }
}

} // verus!
