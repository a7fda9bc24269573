use vstd::prelude::*;
use crate::bytemap::clone_bytes;
use crate::currency::{Currency, TransferError};
use crate::identity::{post_id, post_id_of};
use crate::umap::UMap;
use crate::{AccountId, Balance, PostId};

verus! {

/// Length bounds for post and comment content. Both bounds are exclusive:
/// content of exactly the minimum or exactly the maximum byte count is
/// rejected.
#[derive(Clone, Copy, Debug, PartialEq, Eq, Structural)]
pub struct Config {
    pub blog_post_min_bytes: u32,
    pub blog_post_max_bytes: u32,
    pub blog_post_comment_min_bytes: u32,
    pub blog_post_comment_max_bytes: u32,
}

/// A post: its content bytes and its author.
#[derive(Debug, PartialEq)]
pub struct BlogPost {
    pub content: Vec<u8>,
    pub author: AccountId,
}

/// A comment: its content bytes, the post it belongs to, and its author.
#[derive(Debug, PartialEq)]
pub struct BlogPostComment {
    pub content: Vec<u8>,
    pub blog_post_id: PostId,
    pub author: AccountId,
}

/// Typed notification of a successful content-ledger operation. Events are
/// observational only: they carry no control-flow meaning.
#[derive(Debug, PartialEq)]
pub enum Event {
    BlogPostCreated(Vec<u8>, AccountId, PostId),
    BlogPostCommentCreated(Vec<u8>, AccountId, PostId),
    Tipped(AccountId, PostId),
}

/// A content-ledger rule violation.
#[derive(Clone, Copy, Debug, PartialEq, Eq, Structural)]
pub enum Error {
    BlogPostNotEnoughBytes,
    BlogPostTooManyBytes,
    BlogPostCommentNotEnoughBytes,
    BlogPostCommentTooManyBytes,
    BlogPostNotFound,
    TipperIsAuthor,
}

/// An operation's failure: one of the ledger's own rules, or the currency
/// service's refusal, surfaced unchanged.
#[derive(Clone, Copy, Debug, PartialEq, Eq, Structural)]
pub enum DispatchError {
    Module(Error),
    Currency(TransferError),
}

/// Ghost view of a post.
pub struct BlogPostV {
    pub content: Seq<u8>,
    pub author: AccountId,
}

/// Ghost view of a comment.
pub struct BlogPostCommentV {
    pub content: Seq<u8>,
    pub blog_post_id: PostId,
    pub author: AccountId,
}

/// Ghost view of an event.
pub enum EventV {
    BlogPostCreated(Seq<u8>, AccountId, PostId),
    BlogPostCommentCreated(Seq<u8>, AccountId, PostId),
    Tipped(AccountId, PostId),
}

impl View for BlogPost {
    type V = BlogPostV;

    open spec fn view(&self) -> BlogPostV {
        BlogPostV { content: self.content@, author: self.author }
    }
}

impl View for BlogPostComment {
    type V = BlogPostCommentV;

    open spec fn view(&self) -> BlogPostCommentV {
        BlogPostCommentV {
            content: self.content@,
            blog_post_id: self.blog_post_id,
            author: self.author,
        }
    }
}

impl View for Event {
    type V = EventV;

    open spec fn view(&self) -> EventV {
        match self {
            Event::BlogPostCreated(content, author, id) => EventV::BlogPostCreated(content@, *author, *id),
            Event::BlogPostCommentCreated(content, author, id) => EventV::BlogPostCommentCreated(content@, *author, *id),
            Event::Tipped(tipper, id) => EventV::Tipped(*tipper, *id),
        }
    }
}

/// The ghost views of a sequence of comments, in order.
pub open spec fn comment_views(cs: Seq<BlogPostComment>) -> Seq<BlogPostCommentV> {
    cs.map_values(|c: BlogPostComment| c@)
}

/// The ghost views of a sequence of events, in order.
pub open spec fn event_views(es: Seq<Event>) -> Seq<EventV> {
    es.map_values(|e: Event| e@)
}

/// The content ledger: posts, their comment sequences, and the events
/// recorded for successful operations. Every operation validates its inputs
/// first and only then writes, so a failed call leaves the ledger exactly as
/// it was.
pub struct Pallet {
    config: Config,
    posts: UMap<BlogPost>,
    comments: UMap<Vec<BlogPostComment>>,
    events: Vec<Event>,
}

impl Pallet {
    /// The injected length bounds.
    pub closed spec fn config_view(&self) -> Config {
        self.config
    }

    /// Posts by identifier.
    pub closed spec fn posts_view(&self) -> Map<PostId, BlogPostV> {
        self.posts@.map_values(|p: BlogPost| p@)
    }

    /// Comment sequences by post identifier, in submission order.
    pub closed spec fn comments_view(&self) -> Map<PostId, Seq<BlogPostCommentV>> {
        self.comments@.map_values(|cs: Vec<BlogPostComment>| comment_views(cs@))
    }

    /// Events recorded so far, oldest first.
    pub closed spec fn events_view(&self) -> Seq<EventV> {
        event_views(self.events@)
    }

    /// Every stored comment names the post it is filed under.
    spec fn comments_linked(&self) -> bool {
        forall|id: PostId, i: int|
            self.comments@.contains_key(id) && 0 <= i < self.comments@[id]@.len()
                ==> (#[trigger] self.comments@[id]@[i]).blog_post_id == id
    }

    /// Well-formedness: the storage invariants, and that a post and its
    /// comment sequence exist together or not at all.
    pub closed spec fn wf(&self) -> bool {
        &&& self.posts.wf()
        &&& self.comments.wf()
        &&& self.posts@.dom() == self.comments@.dom()
        &&& self.comments_linked()
    }

    /// An empty content ledger with the given bounds.
    pub fn new(config: Config) -> (r: Self)
        ensures
            r.wf(),
            r.config_view() == config,
            r.posts_view() == Map::<PostId, BlogPostV>::empty(),
            r.comments_view() == Map::<PostId, Seq<BlogPostCommentV>>::empty(),
            r.events_view() == Seq::<EventV>::empty(),
    {
        let r = Pallet {
            config,
            posts: UMap::new(),
            comments: UMap::new(),
            events: Vec::new(),
        };
        proof {
            assert(r.posts_view() =~= Map::<PostId, BlogPostV>::empty());
            assert(r.comments_view() =~= Map::<PostId, Seq<BlogPostCommentV>>::empty());
            assert(r.events_view() =~= Seq::<EventV>::empty());
            assert(r.posts@.dom() =~= r.comments@.dom());
        }
        r
    }

    /// Validates the content length against the exclusive bounds, derives the
    /// post's identifier from `(author, content)` alone, and atomically
    /// stores the post together with a fresh, empty comment sequence. Since
    /// identity is content-addressed, re-creating a byte-identical post is
    /// idempotent: the record is stored again under the same identifier, and
    /// its already-present comment sequence is kept — comments are
    /// append-only and never deleted.
    pub fn create_blog_post(&mut self, author: AccountId, content: Vec<u8>) -> (r: Result<PostId, Error>)
        requires
            old(self).wf(),
        ensures
            final(self).wf(),
            final(self).config_view() == old(self).config_view(),
            r is Ok <==> old(self).config_view().blog_post_min_bytes < content@.len()
                && content@.len() < old(self).config_view().blog_post_max_bytes,
            r is Err ==> *final(self) == *old(self),
            content@.len() <= old(self).config_view().blog_post_min_bytes
                ==> r == Err::<PostId, Error>(Error::BlogPostNotEnoughBytes),
            content@.len() > old(self).config_view().blog_post_min_bytes
                && content@.len() >= old(self).config_view().blog_post_max_bytes
                ==> r == Err::<PostId, Error>(Error::BlogPostTooManyBytes),
            r is Ok ==> ({
                let id = post_id_of(author, content@);
                &&& r == Ok::<PostId, Error>(id)
                &&& final(self).posts_view() == old(self).posts_view().insert(
                    id,
                    BlogPostV { content: content@, author },
                )
                &&& final(self).comments_view() == (if old(self).comments_view().contains_key(id) {
                    old(self).comments_view()
                } else {
                    old(self).comments_view().insert(id, Seq::<BlogPostCommentV>::empty())
                })
                &&& final(self).events_view() == old(self).events_view().push(
                    EventV::BlogPostCreated(content@, author, id),
                )
            }),
    {
        if content.len() <= self.config.blog_post_min_bytes as usize {
            return Err(Error::BlogPostNotEnoughBytes);
        }
        if content.len() >= self.config.blog_post_max_bytes as usize {
            return Err(Error::BlogPostTooManyBytes);
        }
        let ghost content_view = content@;
        let id = post_id(author, &content);
        let post = BlogPost { content: clone_bytes(&content), author };
        self.posts.insert(id, post);
        if !self.comments.contains_key(id) {
            self.comments.insert(id, Vec::new());
            proof {
                assert(self.comments_view() =~~= old(self).comments_view().insert(
                    id,
                    Seq::<BlogPostCommentV>::empty(),
                ));
            }
        } else {
            proof {
                assert(self.comments_view() =~~= old(self).comments_view());
            }
        }
        self.events.push(Event::BlogPostCreated(content, author, id));
        proof {
            assert(self.posts@.dom() =~= self.comments@.dom());
            assert(self.posts_view() =~~= old(self).posts_view().insert(
                id,
                BlogPostV { content: content_view, author },
            ));
            assert(self.events_view() =~~= old(self).events_view().push(
                EventV::BlogPostCreated(content_view, author, id),
            ));
        }
        Ok(id)
    }

    /// Validates the comment length against the exclusive bounds and appends
    /// the comment to the addressed post's sequence, preserving submission
    /// order. An unknown post identifier is rejected with no change.
    pub fn create_blog_post_comment(&mut self, author: AccountId, content: Vec<u8>, blog_post_id: PostId) -> (r: Result<(), Error>)
        requires
            old(self).wf(),
        ensures
            final(self).wf(),
            final(self).config_view() == old(self).config_view(),
            r is Ok <==> old(self).config_view().blog_post_comment_min_bytes < content@.len()
                && content@.len() < old(self).config_view().blog_post_comment_max_bytes
                && old(self).comments_view().contains_key(blog_post_id),
            r is Err ==> *final(self) == *old(self),
            content@.len() <= old(self).config_view().blog_post_comment_min_bytes
                ==> r == Err::<(), Error>(Error::BlogPostCommentNotEnoughBytes),
            content@.len() > old(self).config_view().blog_post_comment_min_bytes
                && content@.len() >= old(self).config_view().blog_post_comment_max_bytes
                ==> r == Err::<(), Error>(Error::BlogPostCommentTooManyBytes),
            old(self).config_view().blog_post_comment_min_bytes < content@.len()
                && content@.len() < old(self).config_view().blog_post_comment_max_bytes
                && !old(self).comments_view().contains_key(blog_post_id)
                ==> r == Err::<(), Error>(Error::BlogPostNotFound),
            r is Ok ==> ({
                &&& final(self).posts_view() == old(self).posts_view()
                &&& final(self).comments_view() == old(self).comments_view().insert(
                    blog_post_id,
                    old(self).comments_view()[blog_post_id].push(
                        BlogPostCommentV { content: content@, blog_post_id, author },
                    ),
                )
                &&& final(self).events_view() == old(self).events_view().push(
                    EventV::BlogPostCommentCreated(content@, author, blog_post_id),
                )
            }),
    {
        if content.len() <= self.config.blog_post_comment_min_bytes as usize {
            return Err(Error::BlogPostCommentNotEnoughBytes);
        }
        if content.len() >= self.config.blog_post_comment_max_bytes as usize {
            return Err(Error::BlogPostCommentTooManyBytes);
        }
        let ghost content_view = content@;
        match self.comments.remove(blog_post_id) {
            None => Err(Error::BlogPostNotFound),
            Some(mut comment_vec) => {
                let comment = BlogPostComment {
                    content: clone_bytes(&content),
                    blog_post_id,
                    author,
                };
                comment_vec.push(comment);
                self.comments.insert(blog_post_id, comment_vec);
                self.events.push(Event::BlogPostCommentCreated(content, author, blog_post_id));
                proof {
                    assert(self.posts@.dom() =~= self.comments@.dom());
                    assert(comment_views(self.comments@[blog_post_id]@)
                        =~~= old(self).comments_view()[blog_post_id].push(
                            BlogPostCommentV {
                                content: content_view,
                                blog_post_id,
                                author,
                            },
                        ));
                    assert(self.comments_view() =~~= old(self).comments_view().insert(
                        blog_post_id,
                        old(self).comments_view()[blog_post_id].push(
                            BlogPostCommentV {
                                content: content_view,
                                blog_post_id,
                                author,
                            },
                        ),
                    ));
                    assert(self.posts_view() =~~= old(self).posts_view());
                    assert(self.events_view() =~~= old(self).events_view().push(
                        EventV::BlogPostCommentCreated(
                            content_view,
                            author,
                            blog_post_id,
                        ),
                    ));
                }
                Ok(())
            }
        }
    }

    /// Transfers `amount` from the tipper to the addressed post's author
    /// through the injected currency service. The author may not tip their
    /// own post, whatever the amount. A refusal by the currency service is
    /// surfaced unchanged — the very error the service reported — and leaves
    /// both the ledger and the service as they were.
    pub fn tip_blog_post<C: Currency>(
        &mut self,
        tipper: AccountId,
        blog_post_id: PostId,
        amount: Balance,
        currency: &mut C,
    ) -> (r: Result<(), DispatchError>)
        requires
            old(self).wf(),
            old(currency).inv(),
        ensures
            final(self).wf(),
            final(currency).inv(),
            final(self).config_view() == old(self).config_view(),
            final(self).posts_view() == old(self).posts_view(),
            final(self).comments_view() == old(self).comments_view(),
            r is Ok <==> old(self).posts_view().contains_key(blog_post_id)
                && old(self).posts_view()[blog_post_id].author != tipper
                && old(currency).can_transfer(
                    tipper,
                    old(self).posts_view()[blog_post_id].author,
                    amount,
                ),
            r is Err ==> *final(self) == *old(self) && *final(currency) == *old(currency),
            !old(self).posts_view().contains_key(blog_post_id)
                ==> r == Err::<(), DispatchError>(DispatchError::Module(Error::BlogPostNotFound)),
            old(self).posts_view().contains_key(blog_post_id)
                && old(self).posts_view()[blog_post_id].author == tipper
                ==> r == Err::<(), DispatchError>(DispatchError::Module(Error::TipperIsAuthor)),
            old(self).posts_view().contains_key(blog_post_id)
                && old(self).posts_view()[blog_post_id].author != tipper
                && !old(currency).can_transfer(
                    tipper,
                    old(self).posts_view()[blog_post_id].author,
                    amount,
                )
                ==> r == Err::<(), DispatchError>(DispatchError::Currency(old(currency).refusal(
                    tipper,
                    old(self).posts_view()[blog_post_id].author,
                    amount,
                ))),
            r is Ok ==> ({
                let author = old(self).posts_view()[blog_post_id].author;
                &&& final(self).events_view() == old(self).events_view().push(
                    EventV::Tipped(tipper, blog_post_id),
                )
                &&& final(currency).balance(tipper) == old(currency).balance(tipper) - amount
                &&& final(currency).balance(author) == old(currency).balance(author) + amount
                &&& (forall|a: AccountId| a != tipper && a != author
                    ==> final(currency).balance(a) == old(currency).balance(a))
                &&& final(currency).min_balance() == old(currency).min_balance()
            }),
    {
        let author = match self.posts.get(blog_post_id) {
            None => {
                return Err(DispatchError::Module(Error::BlogPostNotFound));
            }
            Some(post) => post.author,
        };
        if author == tipper {
            return Err(DispatchError::Module(Error::TipperIsAuthor));
        }
        match currency.transfer(tipper, author, amount) {
            Err(e) => Err(DispatchError::Currency(e)),
            Ok(()) => {
                self.events.push(Event::Tipped(tipper, blog_post_id));
                proof {
                    assert(self.posts_view() =~~= old(self).posts_view());
                    assert(self.comments_view() =~~= old(self).comments_view());
                    assert(self.events_view() =~~= old(self).events_view().push(
                        EventV::Tipped(tipper, blog_post_id),
                    ));
                }
                Ok(())
            }
        }
    }

    /// The stored post under `blog_post_id`, if any.
    pub fn blog_posts(&self, blog_post_id: PostId) -> (r: Option<&BlogPost>)
        requires
            self.wf(),
        ensures
            match r {
                Some(post) => self.posts_view().contains_key(blog_post_id)
                    && post@ == self.posts_view()[blog_post_id],
                None => !self.posts_view().contains_key(blog_post_id),
            },
    {
        self.posts.get(blog_post_id)
    }

    /// The stored comment sequence under `blog_post_id`, if any.
    pub fn blog_post_comments(&self, blog_post_id: PostId) -> (r: Option<&Vec<BlogPostComment>>)
        requires
            self.wf(),
        ensures
            match r {
                Some(comment_vec) => self.comments_view().contains_key(blog_post_id)
                    && comment_views(comment_vec@) == self.comments_view()[blog_post_id],
                None => !self.comments_view().contains_key(blog_post_id),
            },
    {
        self.comments.get(blog_post_id)
    }

    /// The events recorded so far, oldest first.
    pub fn events(&self) -> (r: &Vec<Event>)
        ensures
            event_views(r@) == self.events_view(),
    {
        &self.events
    }
}

} // verus!
