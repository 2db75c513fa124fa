use rustbook::blog::{Post, PostState};
use rustbook::generics::{largest, largest_ref, longest, ImportantExcerpt, Point, Point2};
use rustbook::guessing::{judge, parse_guess, Game, Verdict, HIGHEST, LOWEST};
use rustbook::ownership::{
    calculate_length, change, fib, first_word, gives_ownership, return_five,
    takes_and_gives_back,
};
use rustbook::restaurant::eat_at_restaurant;
use rustbook::shapes::Rectangle;
use rustbook::stats::get_stat;
use rustbook::summary::{notification, return_summarizable, NewsArticle, Summary, Tweet};

#[test]
fn post_is_published_after_two_approvals() {
    let mut post = Post::new();
    post.add_text("I ate a salad for lunch today");
    assert_eq!("", post.content());
    post.request_review();
    assert_eq!("", post.content());
    post.add_text(" and more");
    post.approve();
    assert_eq!("", post.content());
    post.approve();
    assert_eq!("I ate a salad for lunch today", post.content());
}

#[test]
fn post_states_move_as_described() {
    assert_eq!(
        PostState::Draft.request_review(),
        PostState::PendingReview { approved_by: 0, min_approve: 2 }
    );
    assert_eq!(PostState::Draft.approve(), PostState::Draft);
    assert_eq!(
        PostState::PendingReview { approved_by: 0, min_approve: 2 }.approve(),
        PostState::PendingReview { approved_by: 1, min_approve: 2 }
    );
    assert_eq!(
        PostState::PendingReview { approved_by: 1, min_approve: 2 }.reject(),
        PostState::Draft
    );
    assert_eq!(PostState::Published.reject(), PostState::Published);
    assert!(PostState::Draft.can_add_text());
    assert!(!PostState::Published.can_add_text());
}

#[test]
fn stats_of_a_list() {
    assert_eq!(get_stat(&vec![3, 1, 2, 2, 7]), (3, 2, 2));
    assert_eq!(get_stat(&vec![-5, -4]), (-4, -4, -5));
    assert_eq!(get_stat(&vec![i32::MAX, i32::MAX]), (i32::MAX, i32::MAX, i32::MAX));
    assert_eq!(get_stat(&vec![9]), (9, 9, 9));
    assert_eq!(get_stat(&vec![5, 1, 9]).1, 5);
    assert_eq!(get_stat(&vec![8, 6, 4, 2]).1, 6);
}

#[test]
fn guesses_are_judged() {
    assert_eq!(judge(10, 50), Verdict::TooSmall);
    assert_eq!(judge(60, 50), Verdict::TooBig);
    assert_eq!(judge(50, 50), Verdict::Win);
    assert_eq!(Game::with_secret(42).guess(42), Verdict::Win);
    let g = Game::new();
    let wins = (LOWEST..=HIGHEST).filter(|&n| g.guess(n) == Verdict::Win).count();
    assert_eq!(wins, 1);
}

#[test]
fn guesses_are_parsed() {
    assert_eq!(parse_guess("  42\n"), Some(42));
    assert_eq!(parse_guess("+7"), Some(7));
    assert_eq!(parse_guess("4x"), None);
    assert_eq!(parse_guess(""), None);
    assert_eq!(parse_guess("-1"), None);
    assert_eq!(parse_guess("4294967296"), None);
}

#[test]
fn largest_values() {
    assert_eq!(largest(&[34, 50, 25, 100, 65]), 100);
    assert_eq!(*largest_ref(&[-3, -9, -1]), -1);
}

#[test]
fn longest_and_points() {
    assert_eq!(longest("abcd", "xyz"), "abcd");
    assert_eq!(longest("ab", "xy"), "xy");
    let p = Point { x: 5, y: 10 };
    assert_eq!(*p.x(), 5);
    let m = Point2 { x: 1, y: 'a' }.mixup(Point2 { x: "b", y: 2.5 });
    assert_eq!(m.x, 1);
    assert_eq!(m.y, 2.5);
    let e = ImportantExcerpt { part: "Call me Ishmael" };
    assert_eq!(e.level(), 3);
    assert_eq!(e.announce_and_return_part("hear"), "Call me Ishmael");
}

#[test]
fn strings_and_numbers() {
    assert_eq!(return_five(), 5);
    assert_eq!(fib(10), 55);
    assert_eq!(fib(46), 1836311903);
    assert_eq!(fib(-3), -3);
    assert_eq!(gives_ownership(), "hello");
    assert_eq!(takes_and_gives_back(String::from("x")), "x");
    assert_eq!(calculate_length(&String::from("héllo")), 6);
    let mut s = String::from("hello");
    change(&mut s);
    assert_eq!(s, "hello, world");
    assert_eq!(first_word("hello world"), "hello");
    assert_eq!(first_word("hello"), "hello");
    assert_eq!(first_word(" x"), "");
}

#[test]
fn rectangles() {
    let r1 = Rectangle::new(30, 40);
    let r2 = Rectangle::new(30, 45);
    assert_eq!(r1.area(), 1200);
    assert!(!r1.can_hold(&r2));
    assert!(r2.can_hold(&r1));
}

#[test]
fn summaries() {
    let article = NewsArticle::new();
    assert_eq!(article.summarize(), "hl, by athr (loc)");
    assert!(article.in_english());
    let tweet = Tweet {
        username: String::from("usr"),
        content: String::from("ctnt"),
        reply: true,
        retweet: false,
    };
    assert_eq!(tweet.summarize(), "usr: ctnt");
    assert!(!tweet.in_english());
    assert_eq!(notification(&tweet), "Notify: usr: ctnt");
    assert_eq!(return_summarizable().summarize(), "hl, by athr (loc)");
    eat_at_restaurant();
}
