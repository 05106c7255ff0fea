use webserver::coins::{plus_one, value_in_cents, Coin};
use webserver::generics::{largest, largest_char, List, MyBox, Point};
use webserver::guessing_game::{Game, Verdict};
use webserver::gui::{Button, Draw, Screen};
use webserver::http::{select_page, starts_with, Page};
use webserver::hosting::add_to_waitlist;
use webserver::restaurant::{eat_at_restaurant, eat_at_restaurant2, Appetizer, Breakfast};
use webserver::shapes::{rect_area, Rectangle};
use webserver::summary::{notify, NewsArticle, Summary, Tweet};
use webserver::text::{
    another_reference_change, dangling_pointer, first_word, longest, reference_change,
};
use webserver::workout::{generate_workout, simulated_expensive_calculation, Cacher, Workout};

#[test]
fn root_request_gets_the_start_page() {
    let mut buffer = [0u8; 512];
    let request = b"GET / HTTP/1.1\r\nHost: localhost\r\n\r\n";
    buffer[..request.len()].copy_from_slice(request);
    assert_eq!(select_page(&buffer), Page::Home);
    assert_eq!(select_page(b"GET / HTTP/1.1\r\n"), Page::Home);
    assert_eq!(Page::Home.status_line(), "HTTP/1.1 200 OK\r\n\r\n");
    assert_eq!(Page::Home.file_name(), "first.html");
    assert_eq!(Page::Home.response("<p>hi</p>"), "HTTP/1.1 200 OK\r\n\r\n<p>hi</p>");
}

#[test]
fn other_requests_get_the_other_page() {
    assert_eq!(select_page(b"GET /about HTTP/1.1\r\n"), Page::NotFound);
    assert_eq!(select_page(b"GET / HTTP/1.1\r"), Page::NotFound);
    assert_eq!(select_page(b""), Page::NotFound);
    assert_eq!(select_page(&[0u8; 512]), Page::NotFound);
    assert_eq!(Page::NotFound.status_line(), "HTTP/1.1 404 NOT FOUND\r\n\r\n");
    assert_eq!(Page::NotFound.file_name(), "404.html");
    assert_eq!(Page::NotFound.response("gone"), "HTTP/1.1 404 NOT FOUND\r\n\r\ngone");
}

#[test]
fn prefix_test_is_exact() {
    assert!(starts_with(b"abc", b""));
    assert!(starts_with(b"abc", b"ab"));
    assert!(starts_with(b"abc", b"abc"));
    assert!(!starts_with(b"abc", b"abcd"));
    assert!(!starts_with(b"abc", b"bc"));
}

#[test]
fn workout_follows_intensity_and_the_number_drawn() {
    assert_eq!(generate_workout(10, 7), Workout::Strength { pushups: 10, situps: 10 });
    assert_eq!(generate_workout(24, 3), Workout::Strength { pushups: 24, situps: 24 });
    assert_eq!(generate_workout(25, 3), Workout::Rest);
    assert_eq!(generate_workout(25, 7), Workout::Run { minutes: 25 });
    assert_eq!(simulated_expensive_calculation(17), 17);
}

#[test]
fn cacher_remembers_its_first_value() {
    let mut cacher = Cacher::new();
    assert_eq!(cacher.value(1), 1);
    assert_eq!(cacher.value(2), 1);
}

#[test]
fn rectangle_area_and_holding() {
    let rect1 = Rectangle { width: 10, height: 20 };
    let rect2 = Rectangle { width: 45, height: 10 };
    assert_eq!(rect1.area(), 200);
    assert_eq!(rect_area(&rect2), 450);
    assert!(!rect1.can_hold(&rect2));
    assert!(rect1.can_hold(&rect1));
    assert_eq!(Rectangle::square(10), Rectangle { width: 10, height: 10 });
    assert_eq!(Rectangle { width: 65535, height: 65537 }.area(), u32::MAX);
}

#[test]
fn coins_have_their_value() {
    assert_eq!(value_in_cents(Coin::Penny), 1);
    assert_eq!(value_in_cents(Coin::Nickel), 5);
    assert_eq!(value_in_cents(Coin::Dime), 10);
    assert_eq!(value_in_cents(Coin::Quarter), 25);
}

#[test]
fn plus_one_adds_where_there_is_a_number() {
    assert_eq!(plus_one(Some(5)), Some(6));
    assert_eq!(plus_one(Some(-1)), Some(0));
    assert_eq!(plus_one(None), None);
}

#[test]
fn largest_of_a_list() {
    assert_eq!(largest(&[34, 50, 25, 100, 65]), 100);
    assert_eq!(largest(&[-3]), -3);
    assert_eq!(largest(&[7, 7]), 7);
    assert_eq!(largest_char(&['y', 'm', 'a', 'q']), 'y');
    assert_eq!(largest_char(&['a']), 'a');
}

#[test]
fn points_mix_their_coordinates() {
    let first = Point { x: 5, y: 10.4 };
    let second = Point { x: "Hello", y: 'c' };
    assert_eq!(*first.x(), 5);
    let mixed = first.mixup(second);
    assert_eq!(mixed.x, 5);
    assert_eq!(mixed.y, 'c');
}

#[test]
fn boxes_and_lists_give_what_they_hold() {
    let boxed = MyBox::new(5);
    assert_eq!(5, *boxed.deref());
    let list = List::Cons(5, Box::new(List::Cons(10, Box::new(List::Nil))));
    match list.tail() {
        Some(List::Cons(n, rest)) => {
            assert_eq!(*n, 10);
            assert!(matches!(**rest, List::Nil));
        }
        _ => panic!("the list has a tail"),
    }
    assert!(List::Nil.tail().is_none());
}

#[test]
fn longest_goes_by_bytes() {
    assert_eq!(longest("long string is long", "xyz"), "long string is long");
    assert_eq!(longest("abc", "xyz"), "xyz");
    assert_eq!(longest("é", "ab"), "ab");
    assert_eq!(longest("éé", "abc"), "éé");
}

#[test]
fn first_word_ends_at_the_first_space() {
    assert_eq!(first_word("hello world"), "hello");
    assert_eq!(first_word("hello"), "hello");
    assert_eq!(first_word(" hello"), "");
    assert_eq!(first_word(""), "");
    assert_eq!(first_word("héllo wörld again"), "héllo");
}

#[test]
fn phrases_are_appended() {
    let mut s1 = String::from("hello");
    reference_change(&mut s1);
    assert_eq!(s1, "hello, yo yo yo");
    another_reference_change(&mut s1);
    assert_eq!(s1, "hello, yo yo yo, yo yo yo");
    assert_eq!(dangling_pointer(), "yo yo yo");
}

#[test]
fn summaries_are_exact() {
    let tweet = Tweet {
        username: String::from("horse_ebooks"),
        content: String::from("of course, as you probably already know, people"),
        reply: false,
        retweet: false,
    };
    assert_eq!(
        tweet.summarize(),
        "Tweet: horse_ebooks: of course, as you probably already know, people"
    );
    assert_eq!(
        notify(&tweet),
        "Breaking news! Tweet: horse_ebooks: of course, as you probably already know, people"
    );
    let article = NewsArticle {
        headline: String::from("Penguins win"),
        location: String::from("Pittsburgh"),
        author: String::from("Iceburgh"),
        content: String::from("Again."),
    };
    assert_eq!(article.summarize(), "News: Penguins win, by Iceburgh (Pittsburgh)");
}

#[test]
fn screen_draws_every_component() {
    let screen = Screen {
        components: vec![
            Button { width: 50, height: 10, label: String::from("OK") },
            Button { width: 60, height: 10, label: String::from("Cancel") },
        ],
    };
    assert_eq!(screen.run(), vec!["drawing a button!", "drawing a button!"]);
    assert_eq!(screen.components[0].draw(), "drawing a button!");
    let empty: Screen<Button> = Screen { components: Vec::new() };
    assert!(empty.run().is_empty());
}

#[test]
fn summer_breakfast_comes_with_peaches() {
    let mut meal = Breakfast::summer("Rye");
    assert_eq!(meal.toast(), "Rye");
    assert_eq!(meal.seasonal_fruit(), "peaches");
    meal.toast = String::from("Wheat");
    assert_eq!(meal.toast, "Wheat");
    assert_eq!(meal.seasonal_fruit(), "peaches");
    assert_ne!(Appetizer::Salad, Appetizer::Soup);
}

#[test]
fn guests_order_soup_and_salad() {
    add_to_waitlist();
    eat_at_restaurant2();
    assert_eq!(eat_at_restaurant(), (Appetizer::Soup, Appetizer::Salad));
}

#[test]
fn secret_lies_between_one_and_nine() {
    for _ in 0..200 {
        let game = Game::start();
        assert!(1 <= game.secret() && game.secret() < 10);
        assert!(!game.is_won());
    }
}

#[test]
fn secrets_vary() {
    let first = Game::start().secret();
    let mut other = false;
    for _ in 0..1000 {
        other = other || Game::start().secret() != first;
    }
    assert!(other);
}

#[test]
fn guesses_are_judged_against_the_secret() {
    let mut game = Game::with_secret(7);
    assert_eq!(game.guess(3), Verdict::TooSmall);
    assert!(!game.is_won());
    assert_eq!(game.guess(9), Verdict::TooBig);
    assert!(!game.is_won());
    assert_eq!(game.guess(7), Verdict::Win);
    assert!(game.is_won());
    assert_eq!(game.guess(8), Verdict::TooBig);
    assert!(game.is_won());
    assert_eq!(game.secret(), 7);
}
