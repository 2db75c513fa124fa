use rustbook::limits::{quota_level, LimitTracker, Messenger, QuotaLevel};
use std::cell::RefCell;

struct MockMessenger {
    sent_messages: RefCell<Vec<String>>,
}

impl MockMessenger {
    fn new() -> MockMessenger {
        MockMessenger {
            sent_messages: RefCell::new(vec![]),
        }
    }
}

impl Messenger for MockMessenger {
    fn send(&self, message: &str) {
        self.sent_messages.borrow_mut().push(String::from(message));
    }
}

#[test]
fn it_sends_an_over_75_percent_warning_message() {
    let mock_messenger = MockMessenger::new();
    let mut limit_tracker = LimitTracker::new(&mock_messenger, 100);

    limit_tracker.set_value(80);

    assert_eq!(mock_messenger.sent_messages.borrow().len(), 1);
}

#[test]
fn sends_the_message_of_each_level() {
    let mock = MockMessenger::new();
    let mut tracker = LimitTracker::new(&mock, 100);
    assert_eq!(tracker.set_value(74), None);
    assert_eq!(tracker.set_value(75), Some(QuotaLevel::Warning));
    assert_eq!(tracker.set_value(90), Some(QuotaLevel::Urgent));
    assert_eq!(tracker.set_value(100), Some(QuotaLevel::Over));
    assert_eq!(
        *mock.sent_messages.borrow(),
        vec![
            String::from("Warning: You've used up over 75% of your quota!"),
            String::from("Urgent warning: You've used up over 90% of your quota!"),
            String::from("Error: You are over your quota!"),
        ]
    );
}

#[test]
fn quota_levels_at_the_edges() {
    assert_eq!(quota_level(89, 100), Some(QuotaLevel::Warning));
    assert_eq!(quota_level(150, 100), Some(QuotaLevel::Over));
    assert_eq!(quota_level(0, 0), None);
    assert_eq!(quota_level(1, 0), Some(QuotaLevel::Over));
    assert_eq!(quota_level(usize::MAX, usize::MAX), Some(QuotaLevel::Over));
    assert_eq!(quota_level(usize::MAX - 1, usize::MAX), Some(QuotaLevel::Urgent));
}
