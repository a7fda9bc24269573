use chain_ledger::blogchain::{Config, DispatchError, Error, Event, Pallet};
use chain_ledger::currency::{Currency, TestCurrency, TransferError};
use chain_ledger::identity::post_id;

fn config() -> Config {
    Config {
        blog_post_min_bytes: 5,
        blog_post_max_bytes: 100,
        blog_post_comment_min_bytes: 2,
        blog_post_comment_max_bytes: 50,
    }
}

const ALICE: u64 = 1;
const BOB: u64 = 2;

#[test]
fn post_at_minimum_length_is_rejected() {
    let mut pallet = Pallet::new(config());
    let r = pallet.create_blog_post(ALICE, vec![7u8; 5]);
    assert_eq!(r, Err(Error::BlogPostNotEnoughBytes));
    assert_eq!(pallet.events().len(), 0);
}

#[test]
fn post_below_minimum_length_is_rejected() {
    let mut pallet = Pallet::new(config());
    let r = pallet.create_blog_post(ALICE, vec![]);
    assert_eq!(r, Err(Error::BlogPostNotEnoughBytes));
    assert_eq!(pallet.events().len(), 0);
}

#[test]
fn post_at_maximum_length_is_rejected() {
    let mut pallet = Pallet::new(config());
    let r = pallet.create_blog_post(ALICE, vec![7u8; 100]);
    assert_eq!(r, Err(Error::BlogPostTooManyBytes));
    assert_eq!(pallet.events().len(), 0);
}

#[test]
fn post_within_bounds_is_stored_with_its_empty_comment_list() {
    let mut pallet = Pallet::new(config());
    let content = b"hello world".to_vec();
    let id = pallet.create_blog_post(ALICE, content.clone()).unwrap();
    let post = pallet.blog_posts(id).unwrap();
    assert_eq!(post.content, content);
    assert_eq!(post.author, ALICE);
    let comments = pallet.blog_post_comments(id).unwrap();
    assert!(comments.is_empty());
    assert_eq!(pallet.events().as_slice(), &[Event::BlogPostCreated(content, ALICE, id)]);
}

#[test]
fn identical_posts_get_the_identical_id() {
    let mut pallet = Pallet::new(config());
    let id1 = pallet.create_blog_post(ALICE, b"same text".to_vec()).unwrap();
    let id2 = pallet.create_blog_post(ALICE, b"same text".to_vec()).unwrap();
    assert_eq!(id1, id2);
}

#[test]
fn post_id_matches_known_digests() {
    assert_eq!(post_id(ALICE, &b"abc".to_vec()), 0xb60b96e484addb6c);
    assert_eq!(post_id(0, &Vec::new()), 0xa8c7f832281a39c5);
}

#[test]
fn post_id_depends_on_author_and_content() {
    let a = post_id(ALICE, &b"abc".to_vec());
    let b = post_id(ALICE, &b"abc".to_vec());
    assert_eq!(a, b);
    assert_ne!(post_id(ALICE, &b"abc".to_vec()), post_id(ALICE, &b"abd".to_vec()));
    assert_ne!(post_id(ALICE, &b"abc".to_vec()), post_id(BOB, &b"abc".to_vec()));
}

#[test]
fn re_creating_a_post_keeps_its_comments() {
    let mut pallet = Pallet::new(config());
    let id = pallet.create_blog_post(ALICE, b"same text".to_vec()).unwrap();
    pallet.create_blog_post_comment(BOB, b"nice".to_vec(), id).unwrap();
    assert_eq!(pallet.blog_post_comments(id).unwrap().len(), 1);
    let id2 = pallet.create_blog_post(ALICE, b"same text".to_vec()).unwrap();
    assert_eq!(id, id2);
    let comments = pallet.blog_post_comments(id).unwrap();
    assert_eq!(comments.len(), 1);
    assert_eq!(comments[0].content, b"nice".to_vec());
}

#[test]
fn comment_at_minimum_length_is_rejected() {
    let mut pallet = Pallet::new(config());
    let id = pallet.create_blog_post(ALICE, b"hello world".to_vec()).unwrap();
    let r = pallet.create_blog_post_comment(BOB, vec![7u8; 2], id);
    assert_eq!(r, Err(Error::BlogPostCommentNotEnoughBytes));
}

#[test]
fn comment_at_maximum_length_is_rejected() {
    let mut pallet = Pallet::new(config());
    let id = pallet.create_blog_post(ALICE, b"hello world".to_vec()).unwrap();
    let r = pallet.create_blog_post_comment(BOB, vec![7u8; 50], id);
    assert_eq!(r, Err(Error::BlogPostCommentTooManyBytes));
}

#[test]
fn comment_on_unknown_post_is_rejected_without_mutation() {
    let mut pallet = Pallet::new(config());
    let id = pallet.create_blog_post(ALICE, b"hello world".to_vec()).unwrap();
    let r = pallet.create_blog_post_comment(BOB, b"nice".to_vec(), id.wrapping_add(1));
    assert_eq!(r, Err(Error::BlogPostNotFound));
    assert!(pallet.blog_post_comments(id).unwrap().is_empty());
    assert_eq!(pallet.events().len(), 1);
}

#[test]
fn comments_keep_submission_order() {
    let mut pallet = Pallet::new(config());
    let id = pallet.create_blog_post(ALICE, b"hello world".to_vec()).unwrap();
    pallet.create_blog_post_comment(BOB, b"first".to_vec(), id).unwrap();
    pallet.create_blog_post_comment(ALICE, b"second".to_vec(), id).unwrap();
    let comments = pallet.blog_post_comments(id).unwrap();
    assert_eq!(comments.len(), 2);
    assert_eq!(comments[0].content, b"first".to_vec());
    assert_eq!(comments[0].author, BOB);
    assert_eq!(comments[0].blog_post_id, id);
    assert_eq!(comments[1].content, b"second".to_vec());
    assert_eq!(comments[1].author, ALICE);
    assert_eq!(
        pallet.events().as_slice()[1..],
        [
            Event::BlogPostCommentCreated(b"first".to_vec(), BOB, id),
            Event::BlogPostCommentCreated(b"second".to_vec(), ALICE, id),
        ]
    );
}

#[test]
fn tipping_an_unknown_post_is_rejected() {
    let mut pallet = Pallet::new(config());
    let mut currency = TestCurrency::new(0);
    let r = pallet.tip_blog_post(BOB, 12345, 10, &mut currency);
    assert_eq!(r, Err(DispatchError::Module(Error::BlogPostNotFound)));
}

#[test]
fn tipping_your_own_post_is_rejected_even_for_zero() {
    let mut pallet = Pallet::new(config());
    let mut currency = TestCurrency::new(0);
    let id = pallet.create_blog_post(ALICE, b"hello world".to_vec()).unwrap();
    let r = pallet.tip_blog_post(ALICE, id, 0, &mut currency);
    assert_eq!(r, Err(DispatchError::Module(Error::TipperIsAuthor)));
    let r = pallet.tip_blog_post(ALICE, id, 7, &mut currency);
    assert_eq!(r, Err(DispatchError::Module(Error::TipperIsAuthor)));
    assert_eq!(pallet.events().len(), 1);
}

#[test]
fn a_successful_tip_moves_the_amount_and_is_recorded() {
    let mut pallet = Pallet::new(config());
    let mut currency = TestCurrency::new(1);
    currency.set_balance(ALICE, 50);
    currency.set_balance(BOB, 30);
    let id = pallet.create_blog_post(ALICE, b"hello world".to_vec()).unwrap();
    let r = pallet.tip_blog_post(BOB, id, 20, &mut currency);
    assert_eq!(r, Ok(()));
    assert_eq!(currency.balance_of(BOB), 10);
    assert_eq!(currency.balance_of(ALICE), 70);
    assert_eq!(pallet.events().as_slice()[1..], [Event::Tipped(BOB, id)]);
}

#[test]
fn a_tip_the_sender_cannot_afford_fails_and_changes_nothing() {
    let mut pallet = Pallet::new(config());
    let mut currency = TestCurrency::new(0);
    currency.set_balance(BOB, 5);
    let id = pallet.create_blog_post(ALICE, b"hello world".to_vec()).unwrap();
    let r = pallet.tip_blog_post(BOB, id, 20, &mut currency);
    assert_eq!(r, Err(DispatchError::Currency(TransferError::InsufficientBalance)));
    assert_eq!(currency.balance_of(BOB), 5);
    assert_eq!(currency.balance_of(ALICE), 0);
    assert_eq!(pallet.events().len(), 1);
}

#[test]
fn a_tip_that_would_kill_the_sender_fails_and_changes_nothing() {
    let mut pallet = Pallet::new(config());
    let mut currency = TestCurrency::new(5);
    currency.set_balance(BOB, 10);
    let id = pallet.create_blog_post(ALICE, b"hello world".to_vec()).unwrap();
    let r = pallet.tip_blog_post(BOB, id, 6, &mut currency);
    assert_eq!(r, Err(DispatchError::Currency(TransferError::WouldKillAccount)));
    assert_eq!(currency.balance_of(BOB), 10);
    assert_eq!(pallet.events().len(), 1);
}

#[test]
fn a_tip_that_overflows_the_receiver_fails() {
    let mut currency = TestCurrency::new(0);
    currency.set_balance(BOB, 10);
    currency.set_balance(ALICE, u64::MAX);
    let r = currency.transfer(BOB, ALICE, 1);
    assert_eq!(r, Err(TransferError::Overflow));
    assert_eq!(currency.balance_of(BOB), 10);
    assert_eq!(currency.balance_of(ALICE), u64::MAX);
}
