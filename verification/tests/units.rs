use workpool::aggregator::{return_summarizable, NewsArticle, Pair, Summary, Tweet};
use workpool::animals::{Animal, Dog};
use workpool::arith::{add_one, nth_fibonacci, nth_fibonacci_formatted, plus_one, u64_to_string};
use workpool::boxes::MyBox;
use workpool::coins::{value_in_cents, Coin};
use workpool::colors::{mix, PrimaryColor, SecondaryColor};
use workpool::functional::{self, do_twice};
use workpool::guessing::{compare_guess, Guess, GuessOutcome};
use workpool::gui::{Button, Screen, SelectBox};
use workpool::http::{build_response, route};
use workpool::listdemo::List;
use workpool::rectangles::Rectangle;
use workpool::timing::{timeout, RaceWinner};
use workpool::tracker::{quota_level, warning_message, QuotaLevel};

#[test]
fn fibonacci_exact_values() {
    assert_eq!(nth_fibonacci(0), 0);
    assert_eq!(nth_fibonacci(1), 1);
    assert_eq!(nth_fibonacci(10), 55);
    assert_eq!(nth_fibonacci(20), 6765);
}

#[test]
fn fibonacci_formatted_groups_digits() {
    assert_eq!(nth_fibonacci_formatted(20), "6,765");
    assert_eq!(nth_fibonacci_formatted(30), "832,040");
    assert_eq!(nth_fibonacci_formatted(10), "55");
}

#[test]
fn decimal_rendering() {
    assert_eq!(u64_to_string(0), "0");
    assert_eq!(u64_to_string(7), "7");
    assert_eq!(u64_to_string(1234567), "1234567");
}

#[test]
fn add_one_increments() {
    assert_eq!(add_one(5), 6);
    assert_eq!(functional::add_one(5), 6);
}

#[test]
fn plus_one_increments_inside_option() {
    assert_eq!(plus_one(Some(5)), Some(6));
    assert_eq!(plus_one(None), None);
}

#[test]
fn do_twice_applies_twice() {
    assert_eq!(do_twice(functional::add_one, 5), 12);
}

#[test]
fn guess_holds_its_value() {
    let g = Guess::new(42);
    assert_eq!(g.value(), 42);
}

#[test]
fn guess_comparison_drives_the_game() {
    assert_eq!(compare_guess(10, 50), GuessOutcome::TooSmall);
    assert_eq!(compare_guess(90, 50), GuessOutcome::TooBig);
    assert_eq!(compare_guess(50, 50), GuessOutcome::Win);
}

#[test]
fn coin_values() {
    assert_eq!(value_in_cents(Coin::Penny), 1);
    assert_eq!(value_in_cents(Coin::Nickel), 5);
    assert_eq!(value_in_cents(Coin::Dime), 10);
    assert_eq!(value_in_cents(Coin::Quarter), 25);
}

#[test]
fn color_mixing() {
    assert_eq!(
        mix(PrimaryColor::Red, PrimaryColor::Yellow),
        Some(SecondaryColor::Orange)
    );
    assert_eq!(
        mix(PrimaryColor::Blue, PrimaryColor::Yellow),
        Some(SecondaryColor::Green)
    );
    assert_eq!(
        mix(PrimaryColor::Blue, PrimaryColor::Red),
        Some(SecondaryColor::Purple)
    );
    assert_eq!(mix(PrimaryColor::Red, PrimaryColor::Red), None);
}

#[test]
fn quota_levels_at_the_thresholds() {
    assert_eq!(quota_level(0, 100), QuotaLevel::Normal);
    assert_eq!(quota_level(74, 100), QuotaLevel::Normal);
    assert_eq!(quota_level(75, 100), QuotaLevel::ThreeQuarters);
    assert_eq!(quota_level(89, 100), QuotaLevel::ThreeQuarters);
    assert_eq!(quota_level(90, 100), QuotaLevel::NineTenths);
    assert_eq!(quota_level(99, 100), QuotaLevel::NineTenths);
    assert_eq!(quota_level(100, 100), QuotaLevel::Exceeded);
    assert_eq!(quota_level(1, 0), QuotaLevel::Exceeded);
    assert_eq!(quota_level(0, 0), QuotaLevel::Normal);
}

#[test]
fn warnings_match_their_levels() {
    assert_eq!(
        warning_message(QuotaLevel::Exceeded),
        Some("出错：你已超出你的配额！")
    );
    assert_eq!(
        warning_message(QuotaLevel::NineTenths),
        Some("紧急警告：你已用掉你配额的 90% ！")
    );
    assert_eq!(
        warning_message(QuotaLevel::ThreeQuarters),
        Some("警告：你已用掉你配额的 75% ！")
    );
    assert_eq!(warning_message(QuotaLevel::Normal), None);
}

#[test]
fn rectangle_geometry() {
    let rect1 = Rectangle {
        width: 30,
        height: 50,
    };
    let rect2 = Rectangle {
        width: 10,
        height: 40,
    };
    let rect3 = Rectangle {
        width: 45,
        height: 25,
    };
    assert_eq!(rect1.area(), 1500);
    assert!(rect1.width());
    assert!(rect1.can_hold(&rect2));
    assert!(rect1.can_hold(&rect3));
    assert!(!rect2.can_hold(&rect1));
    let sq = Rectangle::square(28);
    assert_eq!(sq.width, 28);
    assert_eq!(sq.height, 28);
}

#[test]
fn summaries_name_their_authors() {
    let tweet = Tweet {
        username: String::from("horse_ebooks"),
        content: String::from("当然，跟大家已经清楚的一样了，朋友们"),
        reply: false,
        retweet: false,
    };
    assert_eq!(tweet.summarize_author(), "@horse_ebooks");
    assert_eq!(tweet.summarize(), "（了解更多来自 @horse_ebooks ......）");

    let article = NewsArticle {
        headline: String::from("企鹅队赢得斯坦利杯锦标赛！"),
        location: String::from("美国，宾夕法尼亚州，匹兹堡"),
        author: String::from("Iceburgh"),
        content: String::from("匹兹堡企鹅队再度成为最佳球队。"),
    };
    assert_eq!(article.summarize_author(), "Iceburgh");
    assert_eq!(article.summarize(), "（了解更多来自 Iceburgh ......）");

    assert_eq!(
        return_summarizable().summarize(),
        "（了解更多来自 @horse_ebooks ......）"
    );
}

#[test]
fn pair_keeps_its_fields() {
    let pair = Pair::new(5, 10);
    assert_eq!(pair.x, 5);
    assert_eq!(pair.y, 10);
}

#[test]
fn baby_names_differ_by_view() {
    assert_eq!(Dog::baby_name(), "点点");
    assert_eq!(<Dog as Animal>::baby_name(), "狗崽");
}

#[test]
fn my_box_wraps_a_value() {
    let b = MyBox::new(String::from("装箱的字符串"));
    assert_eq!(b.inner(), "装箱的字符串");
    assert_eq!(b.0, "装箱的字符串");
}

#[test]
fn list_tail() {
    let list = List::Cons(5, Box::new(List::Nil));
    assert!(matches!(list.tail(), Some(rest) if matches!(**rest, List::Nil)));
    assert!(List::Nil.tail().is_none());
}

#[test]
fn routes_of_the_toy_server() {
    let root = route("GET / HTTP/1.1");
    assert_eq!(root.status_line, "HTTP/1.1 200 OK");
    assert_eq!(root.filename, "hello.html");
    assert!(!root.slow);

    let sleep = route("GET /sleep HTTP/1.1");
    assert_eq!(sleep.status_line, "HTTP/1.1 200 0K");
    assert_eq!(sleep.filename, "hello.html");
    assert!(sleep.slow);

    let missing = route("GET /nowhere HTTP/1.1");
    assert_eq!(missing.status_line, "HTTP/1.1 404 NOT FOUND");
    assert_eq!(missing.filename, "404.html");
    assert!(!missing.slow);
}

#[test]
fn responses_carry_their_length() {
    let resp = build_response("HTTP/1.1 200 OK", "hello");
    assert_eq!(resp, "HTTP/1.1 200 OK\r\nContent-Length: 5\r\n\r\nhello");
}

#[test]
fn timeout_reports_the_winner() {
    assert_eq!(timeout(RaceWinner::Task("done"), 2000), Ok("done"));
    assert_eq!(timeout(RaceWinner::<&str>::Clock, 2000), Err(2000));
}

#[test]
fn screen_renders_components_in_order() {
    let screen = Screen {
        components: vec![
            Box::new(Button {
                width: 50,
                height: 10,
                label: String::from("OK"),
            }),
            Box::new(SelectBox {
                width: 75,
                height: 10,
                options: vec![String::from("是"), String::from("否")],
            }),
        ],
    };
    let rendered = screen.run();
    assert_eq!(rendered.len(), 2);
    assert_eq!(
        rendered[0],
        "这是一个大小：50 像素 x 10 像素，有着 “OK” 标签的按钮；"
    );
    assert_eq!(
        rendered[1],
        "这是一个大小为：75 像素 x 10 像素，有着选项：[是, 否] 的复选框；"
    );
}
