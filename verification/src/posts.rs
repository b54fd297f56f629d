//! The post service.
//!
//! Every operation first holds the caller's session against the post's
//! owner through the authorization guard: a post is readable and mutable
//! by its owner alone. `create` takes the new post's owner from the
//! session, never from caller input.

use vstd::prelude::*;

verus! {

use crate::auth::{allowed, authorize};
use crate::bytes::copy_bytes;
use crate::errors::ServiceError;
use crate::session::UserSession;

/// One post.
pub struct Post {
    /// Unique, stable id.
    pub id: u64,
    /// The owning user; immutable after creation.
    pub owner_id: u64,
    /// Title text.
    pub title: Vec<u8>,
    /// Body text.
    pub content: Vec<u8>,
    /// The user-supplied logical date, as a plain instant.
    pub date: u64,
    /// When the post was created.
    pub created_at: u64,
    /// When the post was last updated, if ever.
    pub updated_at: Option<u64>,
}

/// Field-wise sameness of two post values.
pub open spec fn post_eq(a: Post, b: Post) -> bool {
    &&& a.id == b.id
    &&& a.owner_id == b.owner_id
    &&& a.title@ == b.title@
    &&& a.content@ == b.content@
    &&& a.date == b.date
    &&& a.created_at == b.created_at
    &&& a.updated_at == b.updated_at
}

/// `posts[i]` is the post with id `id`.
pub open spec fn post_at(posts: Seq<Post>, id: u64, i: int) -> bool {
    0 <= i < posts.len() && posts[i].id == id
}

/// Some post has id `id`.
pub open spec fn has_post(posts: Seq<Post>, id: u64) -> bool {
    exists|i: int| post_at(posts, id, i)
}

/// The posts owned by `user_id`.
pub open spec fn owned_by(user_id: u64) -> spec_fn(Post) -> bool {
    |p: Post| p.owner_id == user_id
}

/// What an update leaves at the post's slot: supplied fields replaced,
/// the rest kept, owner and creation untouched, the update stamped.
pub open spec fn post_updated(new: Post, prev: Post, args: UpdateArgs, now: u64) -> bool {
    &&& new.id == prev.id
    &&& new.owner_id == prev.owner_id
    &&& new.created_at == prev.created_at
    &&& new.title@ == (match args.title {
        Some(t) => t@,
        None => prev.title@,
    })
    &&& new.content@ == (match args.content {
        Some(c) => c@,
        None => prev.content@,
    })
    &&& new.date == (match args.date {
        Some(d) => d,
        None => prev.date,
    })
    &&& new.updated_at == Some(now)
}

/// What a caller supplies to create a post. No owner field: the owner is
/// always taken from the session.
pub struct CreateArgs {
    pub title: Vec<u8>,
    pub content: Vec<u8>,
    pub date: u64,
}

/// What a caller supplies to update a post; absent fields are kept.
pub struct UpdateArgs {
    pub title: Option<Vec<u8>>,
    pub content: Option<Vec<u8>>,
    pub date: Option<u64>,
}

/// The post records.
pub struct PostStore {
    /// The posts, in order of creation.
    pub posts: Vec<Post>,
    /// The next id to assign; all stored ids are below it.
    pub next_id: u64,
}

impl PostStore {
    /// Well-formedness: ids are below `next_id` and pairwise distinct, so
    /// an id identifies at most one post.
    pub open spec fn wf(self) -> bool {
        &&& forall|i: int|
            0 <= i < self.posts@.len() ==> (#[trigger] self.posts@[i]).id < self.next_id
        &&& forall|i: int, j: int|
            0 <= i < j < self.posts@.len() ==> (#[trigger] self.posts@[i]).id != (
            #[trigger] self.posts@[j]).id
    }

    /// An empty store.
    pub fn new() -> (r: PostStore)
        ensures
            r.wf(),
            r.posts@.len() == 0,
            r.next_id == 0,
    {
        PostStore { posts: Vec::new(), next_id: 0 }
    }

    /// Finds the post with id `id`.
    pub(crate) fn find(&self, id: u64) -> (r: Option<usize>)
        requires
            self.wf(),
        ensures
            r is Some <==> has_post(self.posts@, id),
            r matches Some(i) ==> post_at(self.posts@, id, i as int),
            forall|j: int| post_at(self.posts@, id, j) ==> r == Some(j as usize),
    {
        let n = self.posts.len();
        let mut i: usize = 0;
        while i < n
            invariant
                self.wf(),
                n == self.posts@.len(),
                0 <= i <= n,
                forall|k: int| 0 <= k < i ==> !post_at(self.posts@, id, k),
            decreases n - i,
        {
            if self.posts[i].id == id {
                proof {
                    assert(post_at(self.posts@, id, i as int));
                    assert forall|j: int| post_at(self.posts@, id, j) implies j == i as int by {
                        if j < i as int {
                            assert(!post_at(self.posts@, id, j));
                        } else if (i as int) < j {
                            assert(self.posts@[i as int].id != self.posts@[j].id);
                        }
                    }
                }
                return Some(i);
            }
            i += 1;
        }
        None
    }
}

/// A field-wise copy of a post value.
fn copy_post(p: &Post) -> (r: Post)
    ensures
        post_eq(r, *p),
{
    Post {
        id: p.id,
        owner_id: p.owner_id,
        title: copy_bytes(&p.title),
        content: copy_bytes(&p.content),
        date: p.date,
        created_at: p.created_at,
        updated_at: p.updated_at,
    }
}

/// Reads one post. Fails `Unauthorized` without a session or when the
/// session is not the owner's; fails `NotFound` when no post has the id.
pub fn get_post(store: &PostStore, session: Option<UserSession>, id: u64) -> (r: Result<
    Post,
    ServiceError,
>)
    requires
        store.wf(),
    ensures
        match session {
            None => r == Err::<Post, ServiceError>(ServiceError::Unauthorized),
            Some(us) => {
                &&& !has_post(store.posts@, id) ==> r == Err::<Post, ServiceError>(
                    ServiceError::NotFound,
                )
                &&& forall|i: int|
                    #[trigger] post_at(store.posts@, id, i) ==> if allowed(session, store.posts@[i].owner_id) {
                        r matches Ok(p) && post_eq(p, store.posts@[i])
                    } else {
                        r == Err::<Post, ServiceError>(ServiceError::Unauthorized)
                    }
            },
        },
{
    if session.is_none() {
        return Err(ServiceError::Unauthorized);
    }
    match store.find(id) {
        None => Err(ServiceError::NotFound),
        Some(i) => {
            match authorize(session, store.posts[i].owner_id) {
                Ok(_) => Ok(copy_post(&store.posts[i])),
                Err(e) => Err(e),
            }
        },
    }
}

/// Lists the caller's own posts, in store order. Fails `Unauthorized`
/// without a session; never exposes another owner's posts.
pub fn get_posts(store: &PostStore, session: Option<UserSession>) -> (r: Result<
    Vec<Post>,
    ServiceError,
>)
    requires
        store.wf(),
    ensures
        match session {
            None => r == Err::<Vec<Post>, ServiceError>(ServiceError::Unauthorized),
            Some(us) => r matches Ok(list) && {
                let own = store.posts@.filter(owned_by(us.user_id));
                &&& list@.len() == own.len()
                &&& forall|k: int| 0 <= k < own.len() ==> post_eq(#[trigger] list@[k], own[k])
                &&& forall|k: int|
                    0 <= k < list@.len() ==> (#[trigger] list@[k]).owner_id == us.user_id
            },
        },
{
    let us = match session {
        Some(us) => us,
        None => {
            return Err(ServiceError::Unauthorized);
        },
    };
    let n = store.posts.len();
    let mut list: Vec<Post> = Vec::new();
    let mut i: usize = 0;
    while i < n
        invariant
            n == store.posts@.len(),
            0 <= i <= n,
            list@.len() == store.posts@.subrange(0, i as int).filter(owned_by(us.user_id)).len(),
            forall|k: int|
                0 <= k < list@.len() ==> post_eq(
                    #[trigger] list@[k],
                    store.posts@.subrange(0, i as int).filter(owned_by(us.user_id))[k],
                ),
        decreases n - i,
    {
        proof {
            broadcast use vstd::prelude::Seq::lemma_filter_push;

            assert(store.posts@.subrange(0, i + 1) =~= store.posts@.subrange(0, i as int).push(
                store.posts@[i as int],
            ));
        }
        if store.posts[i].owner_id == us.user_id {
            list.push(copy_post(&store.posts[i]));
        }
        i += 1;
    }
    proof {
        assert(store.posts@.subrange(0, n as int) =~= store.posts@);
    }
    Ok(list)
}

/// Creates a post for the session's user and returns the new id. The
/// owner is stamped from the session, never from caller input: `args`
/// carries no owner field, and the contract fixes the stored owner to the
/// session's user id. Fails `Unauthorized` without a session.
pub fn create_post(
    store: &mut PostStore,
    session: Option<UserSession>,
    args: &CreateArgs,
    now: u64,
) -> (r: Result<u64, ServiceError>)
    requires
        old(store).wf(),
        old(store).next_id < u64::MAX,
    ensures
        final(store).wf(),
        match session {
            None => r == Err::<u64, ServiceError>(ServiceError::Unauthorized) && *final(store)
                == *old(store),
            Some(us) => {
                &&& r == Ok::<u64, ServiceError>(old(store).next_id)
                &&& final(store).next_id == old(store).next_id + 1
                &&& final(store).posts@.len() == old(store).posts@.len() + 1
                &&& final(store).posts@.subrange(0, old(store).posts@.len() as int) == old(
                    store,
                ).posts@
                &&& final(store).posts@.last().id == old(store).next_id
                &&& final(store).posts@.last().owner_id == us.user_id
                &&& final(store).posts@.last().title@ == args.title@
                &&& final(store).posts@.last().content@ == args.content@
                &&& final(store).posts@.last().date == args.date
                &&& final(store).posts@.last().created_at == now
                &&& final(store).posts@.last().updated_at is None
            },
        },
{
    let us = match session {
        Some(us) => us,
        None => {
            return Err(ServiceError::Unauthorized);
        },
    };
    let id = store.next_id;
    let p = Post {
        id,
        owner_id: us.user_id,
        title: copy_bytes(&args.title),
        content: copy_bytes(&args.content),
        date: args.date,
        created_at: now,
        updated_at: None,
    };
    store.posts.push(p);
    store.next_id = id + 1;
    proof {
        assert(store.posts@.subrange(0, old(store).posts@.len() as int) =~= old(store).posts@);
    }
    Ok(id)
}

/// Updates one post in place. Fails `Unauthorized` without a session or
/// when the session is not the owner's; fails `NotFound` when no post has
/// the id. On success the supplied fields are replaced, the update is
/// stamped with `now`, and every other post is untouched.
pub fn update_post(
    store: &mut PostStore,
    session: Option<UserSession>,
    id: u64,
    args: &UpdateArgs,
    now: u64,
) -> (r: Result<bool, ServiceError>)
    requires
        old(store).wf(),
    ensures
        final(store).wf(),
        final(store).next_id == old(store).next_id,
        match session {
            None => r == Err::<bool, ServiceError>(ServiceError::Unauthorized) && *final(store)
                == *old(store),
            Some(us) => {
                &&& !has_post(old(store).posts@, id) ==> r == Err::<bool, ServiceError>(
                    ServiceError::NotFound,
                ) && *final(store) == *old(store)
                &&& forall|i: int|
                    #[trigger] post_at(old(store).posts@, id, i) ==> if allowed(
                        session,
                        old(store).posts@[i].owner_id,
                    ) {
                        &&& r == Ok::<bool, ServiceError>(true)
                        &&& final(store).posts@.len() == old(store).posts@.len()
                        &&& (forall|j: int|
                            0 <= j < old(store).posts@.len() && j != i
                                ==> final(store).posts@[j] == old(store).posts@[j])
                        &&& post_updated(final(store).posts@[i], old(store).posts@[i], *args, now)
                    } else {
                        r == Err::<bool, ServiceError>(ServiceError::Unauthorized) && *final(store)
                            == *old(store)
                    }
            },
        },
{
    if session.is_none() {
        return Err(ServiceError::Unauthorized);
    }
    let i = match store.find(id) {
        Some(i) => i,
        None => {
            return Err(ServiceError::NotFound);
        },
    };
    match authorize(session, store.posts[i].owner_id) {
        Ok(_) => {},
        Err(e) => {
            return Err(e);
        },
    }
    let p = &mut store.posts[i];
    match &args.title {
        Some(t) => {
            p.title = copy_bytes(t);
        },
        None => {},
    }
    match &args.content {
        Some(c) => {
            p.content = copy_bytes(c);
        },
        None => {},
    }
    match &args.date {
        Some(d) => {
            p.date = *d;
        },
        None => {},
    }
    p.updated_at = Some(now);
    Ok(true)
}

/// Deletes one post. Fails `Unauthorized` without a session or when the
/// session is not the owner's; fails `NotFound` when no post has the id.
/// On success the post is gone — a later read of the id fails `NotFound`
/// — and every other post is untouched.
pub fn delete_post(store: &mut PostStore, session: Option<UserSession>, id: u64) -> (r: Result<
    bool,
    ServiceError,
>)
    requires
        old(store).wf(),
    ensures
        final(store).wf(),
        final(store).next_id == old(store).next_id,
        match session {
            None => r == Err::<bool, ServiceError>(ServiceError::Unauthorized) && *final(store)
                == *old(store),
            Some(us) => {
                &&& !has_post(old(store).posts@, id) ==> r == Err::<bool, ServiceError>(
                    ServiceError::NotFound,
                ) && *final(store) == *old(store)
                &&& forall|i: int|
                    #[trigger] post_at(old(store).posts@, id, i) ==> if allowed(
                        session,
                        old(store).posts@[i].owner_id,
                    ) {
                        &&& r == Ok::<bool, ServiceError>(true)
                        &&& final(store).posts@ == old(store).posts@.remove(i)
                        &&& !has_post(final(store).posts@, id)
                    } else {
                        r == Err::<bool, ServiceError>(ServiceError::Unauthorized) && *final(store)
                            == *old(store)
                    }
            },
        },
{
    if session.is_none() {
        return Err(ServiceError::Unauthorized);
    }
    let i = match store.find(id) {
        Some(i) => i,
        None => {
            return Err(ServiceError::NotFound);
        },
    };
    match authorize(session, store.posts[i].owner_id) {
        Ok(_) => {},
        Err(e) => {
            return Err(e);
        },
    }
    proof {
        old(store).posts@.remove_ensures(i as int);
    }
    store.posts.remove(i);
    proof {
        let pre = old(store).posts@;
        let post = store.posts@;
        assert forall|k: int| 0 <= k < post.len() implies (#[trigger] post[k]).id != id by {
            if k < i as int {
                assert(post[k] == pre[k]);
            } else {
                assert(post[k] == pre[k + 1]);
            }
        }
        assert forall|j1: int, j2: int| 0 <= j1 < j2 < post.len() implies (#[trigger] post[j1]).id
            != (#[trigger] post[j2]).id by {
            let m1: int = if j1 < i as int {
                j1
            } else {
                j1 + 1
            };
            let m2: int = if j2 < i as int {
                j2
            } else {
                j2 + 1
            };
            assert(post[j1] == pre[m1]);
            assert(post[j2] == pre[m2]);
        }
    }
    Ok(true)
}

} // verus!
