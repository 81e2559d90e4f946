use std::cell::RefCell;

use workpool::addition;
use workpool::arith;
use workpool::scan;
use workpool::shoes::{shoes_in_size, Shoe};
use workpool::tracker::{LimitTracker, Messenger};

#[test]
fn it_works() {
    let result = addition::add_two(7);
    assert_eq!(result, 9);
}

#[test]
fn lib_it_works() {
    assert_eq!(2 + 2, 4);
}

#[test]
fn add_two_and_two() {
    assert_eq!(4, arith::add_two(2));
}

#[test]
fn add_three_and_two() {
    assert_eq!(5, arith::add_two(3));
}

#[test]
fn one_hundred() {
    assert_eq!(102, arith::add_two(100));
}

#[test]
fn one_result() {
    let query = "duct";
    let contents = "\
Rust:
safe, fast, productive.
Pick three.";

    assert_eq!(vec!["safe, fast, productive."], scan::search(query, contents));
}

#[test]
fn filter_by_size() {
    let shoes = vec![
        Shoe {
            size: 10,
            style: String::from("sneaker"),
        },
        Shoe {
            size: 13,
            style: String::from("sandal"),
        },
        Shoe {
            size: 10,
            style: String::from("boot"),
        },
    ];

    let in_my_size = shoes_in_size(shoes, 10);

    assert_eq!(
        in_my_size,
        vec![
            Shoe {
                size: 10,
                style: String::from("sneaker"),
            },
            Shoe {
                size: 10,
                style: String::from("boot"),
            },
        ]
    );
}

struct MockMessenger {
    sent_messages: RefCell<Vec<String>>,
}

impl MockMessenger {
    fn new() -> MockMessenger {
        MockMessenger {
            sent_messages: RefCell::new(vec![]),
        }
    }
}

impl Messenger for MockMessenger {
    fn send(&self, message: &str) {
        self.sent_messages.borrow_mut().push(String::from(message));
    }
}

#[test]
fn it_sends_an_over_75_percent_waring_message() {
    let mock_messenger = MockMessenger::new();
    let mut limit_tracker = LimitTracker::new(&mock_messenger, 100);

    limit_tracker.set_value(80);
    println!(
        "{}",
        mock_messenger.sent_messages.borrow().iter().next().unwrap()
    );

    assert_eq!(mock_messenger.sent_messages.borrow().len(), 1);
}
