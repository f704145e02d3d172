use exercises::basics::{greeting, Guess};
use exercises::bistro;
use exercises::enums::{plus_one, substract_one, value_in_cents, Coin, UsState};
use exercises::generics::{largest, ImportantExcerpt, Pair, Point};
use exercises::restaurant;
use exercises::shapes::Rectangle;
use exercises::summaries::{longest, returns_summarizale, NewArticle, Summary, Tweet};

#[test]
fn coin_values() {
    assert_eq!(value_in_cents(Coin::Penny), 1);
    assert_eq!(value_in_cents(Coin::Nickel), 5);
    assert_eq!(value_in_cents(Coin::Dime), 10);
    assert_eq!(value_in_cents(Coin::Quarter(UsState::Alaska)), 25);
    assert_eq!(value_in_cents(Coin::Quarter(UsState::Alabama)), 25);
}

#[test]
fn plus_one_and_substract_one() {
    assert_eq!(plus_one(Some(5)), Some(6));
    assert_eq!(substract_one(Some(5)), Some(4));
    assert_eq!(plus_one(None), None);
    assert_eq!(substract_one(None), None);
}

#[test]
fn longest_picks_longer_string() {
    let string1 = String::from("abcd");
    let string2 = "xya";
    assert_eq!(longest(string1.as_str(), string2), "abcd");
    assert_eq!(longest("ab", "xya"), "xya");
    assert_eq!(longest("ab", "cd"), "cd");
}

#[test]
fn largest_of_numbers() {
    let numbers = vec![34, 50, 25, 100, 65];
    assert_eq!(largest(&numbers), 100);
    let chars = vec!['y', 'm', 'a', 'q'];
    assert_eq!(largest(&chars), 'y');
}

#[test]
fn mixup_swaps_second_coordinate() {
    let p1 = Point { x: 5.0, y: 10.4 };
    let p2 = Point { x: "hello", y: 'c' };
    let p3 = p1.mixup(p2);
    assert_eq!(p3.x, 5.0);
    assert_eq!(p3.y, 'c');
}

#[test]
fn pair_reports_largest_member() {
    let lg = Pair::new(3, 5);
    assert!(!lg.cmp_display());
    let eq = Pair::new(4, 4);
    assert!(eq.cmp_display());
    let gt = Pair::new(9, 4);
    assert!(gt.cmp_display());
}

#[test]
fn excerpt_level_and_part() {
    let novel = String::from("Call me Ishmael. Some years ago...");
    let first_sentence = novel.split('.').next().expect("could not find a '.'");
    let i = ImportantExcerpt {
        part: first_sentence,
    };
    assert_eq!(i.level(), 3);
    assert_eq!(i.announce_and_return_part("hello"), "Call me Ishmael");
}

#[test]
fn tweet_summaries() {
    let tweet = Tweet {
        username: String::from("horse_ebooks"),
        content: String::from("of course, as you probaly already know, people"),
        reply: false,
        retweet: false,
    };
    assert_eq!(tweet.summarize_author(), "@horse_ebooks");
    assert_eq!(tweet.summarize(), "(Read more from @horse_ebooks...)");
}

#[test]
fn article_summaries() {
    let article = NewArticle {
        headline: String::from("Penguins win the Stanley Cup Championship!"),
        location: String::from("Pittsburgh, PA, USA"),
        author: String::from("Iceburgh"),
        content: String::from("The Pittsburgh Penguins once again are the best."),
    };
    assert_eq!(article.summarize_author(), "@Iceburgh)");
    assert_eq!(article.summarize(), "(Read more from @Iceburgh)...)");
}

#[test]
fn summarizable_value_summarizes() {
    let item = returns_summarizale();
    assert_eq!(item.summarize(), "(Read more from @horse_ebooks...)");
}

#[test]
fn breakfast_orders() {
    let meal = restaurant::Breakfast::summer("Rye");
    assert_eq!(meal.toast, "Rye");
    let mut other = bistro::Breakfast::summer("Rye");
    other.toast = String::from("wheat");
    assert_eq!(other.toast, "wheat");
}

#[test]
fn square_and_area() {
    let square = Rectangle::square(20);
    assert_eq!(square.width, 20);
    assert_eq!(square.height, 20);
    let rect = Rectangle {
        width: 30,
        height: 5,
    };
    assert_eq!(rect.area(), 150);
}

#[test]
fn guesses_in_range() {
    let _low = Guess::new(1);
    let _high = Guess::new(100);
}

#[test]
fn greeting_is_exact() {
    assert_eq!(greeting("Carol"), "hello Carol!");
    assert_eq!(greeting(""), "hello !");
}
