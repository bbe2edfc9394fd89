use gmail_tui::gmail_api::{Email, UnsubscribeTarget};
use gmail_tui::mailbox::App;
use gmail_tui::ui::{
    event_for_key, measure, truncate_measured, truncate_with_ellipsis, Action, Event, Key,
    ScrollableText, TerminalUI, BORDER_COLUMNS, FRAME_ROWS, SCROLL_STEP,
};

fn email(id: &str, body: &str, link: Option<UnsubscribeTarget>) -> Email {
    Email {
        id: id.to_string(),
        subject: format!("Subject {}", id),
        body: body.to_string(),
        unsubscribe_link: link,
    }
}

fn numbered_lines(n: usize) -> String {
    (0..n).map(|i| format!("line {}\n", i)).collect()
}

fn session(bodies: &[&str]) -> TerminalUI {
    let emails = bodies.iter().enumerate().map(|(i, b)| email(&i.to_string(), b, None)).collect();
    TerminalUI::new(App::new(emails))
}

fn ids(ui: &TerminalUI) -> Vec<String> {
    ui.app().emails().iter().map(|e| e.id.clone()).collect()
}

#[test]
fn a_session_starts_at_the_top_with_nothing_to_report() {
    let ui = session(&["a", "b"]);
    assert_eq!(ui.scroll_offset(), 0);
    assert_eq!(ui.status_message(), "");
    assert_eq!(ui.app().current_index(), 0);
    assert_eq!(ui.content(), "a");
    assert_eq!(session(&[]).content(), "No email selected");
}

#[test]
fn moving_down_selects_the_next_message_and_resets_the_scroll() {
    let long = numbered_lines(100);
    let mut ui = session(&[&long, "second"]);
    assert_eq!(ui.handle_event(Event::ScrollDown { visible_height: 10 }), Action::Continue);
    assert_eq!(ui.handle_event(Event::ScrollUp), Action::Continue);
    ui.handle_page_down(90);
    assert_eq!(ui.app().current_index(), 0);
    assert_eq!(ui.scroll_offset(), 10);
    assert_eq!(ui.handle_event(Event::MoveDown), Action::Continue);
    assert_eq!(ui.app().current_index(), 1);
    assert_eq!(ui.scroll_offset(), 0);
    assert_eq!(ui.content(), "second");
}

#[test]
fn moving_down_from_scroll_offset_five() {
    let body = numbered_lines(25);
    let mut ui = session(&[&body, "second"]);
    ui.handle_page_down(20);
    assert_eq!(ui.scroll_offset(), 5);
    assert_eq!(ui.app().current_index(), 0);
    assert_eq!(ui.handle_event(Event::MoveDown), Action::Continue);
    assert_eq!(ui.app().current_index(), 1);
    assert_eq!(ui.scroll_offset(), 0);
}

#[test]
fn moving_up_selects_the_previous_message_and_resets_the_scroll() {
    let long = numbered_lines(100);
    let mut ui = session(&["first", &long]);
    ui.handle_down();
    ui.handle_page_down(10);
    assert_eq!(ui.scroll_offset(), 10);
    ui.handle_up();
    assert_eq!(ui.app().current_index(), 0);
    assert_eq!(ui.scroll_offset(), 0);
    ui.handle_up();
    assert_eq!(ui.app().current_index(), 0);
}

#[test]
fn scrolling_down_stops_at_the_lines_that_do_not_fit() {
    let body = numbered_lines(35);
    let mut ui = session(&[&body]);
    ui.handle_page_down(10);
    assert_eq!(ui.scroll_offset(), 10);
    ui.handle_page_down(10);
    assert_eq!(ui.scroll_offset(), 20);
    ui.handle_page_down(10);
    assert_eq!(ui.scroll_offset(), 25);
    ui.handle_page_down(10);
    assert_eq!(ui.scroll_offset(), 25);
    ui.handle_page_down(30);
    assert_eq!(ui.scroll_offset(), 5);
}

#[test]
fn a_body_that_fits_does_not_scroll() {
    let mut ui = session(&["one\ntwo\nthree"]);
    ui.handle_page_down(10);
    assert_eq!(ui.scroll_offset(), 0);
    ui.handle_page_down(3);
    assert_eq!(ui.scroll_offset(), 0);
    ui.handle_page_down(0);
    assert_eq!(ui.scroll_offset(), 3);
    let mut empty = session(&[]);
    empty.handle_page_down(0);
    assert_eq!(empty.scroll_offset(), 0);
}

#[test]
fn scrolling_up_stops_at_the_top() {
    assert_eq!(SCROLL_STEP, 10);
    let body = numbered_lines(100);
    let mut ui = session(&[&body]);
    ui.handle_page_down(85);
    ui.handle_page_down(85);
    assert_eq!(ui.scroll_offset(), 15);
    ui.handle_page_up();
    assert_eq!(ui.scroll_offset(), 5);
    ui.handle_page_up();
    assert_eq!(ui.scroll_offset(), 0);
    ui.handle_page_up();
    assert_eq!(ui.scroll_offset(), 0);
}

#[test]
fn quitting_changes_nothing() {
    let mut ui = session(&["a", "b"]);
    ui.handle_down();
    assert_eq!(ui.handle_event(Event::Quit), Action::Quit);
    assert_eq!(ui.app().current_index(), 1);
    assert_eq!(ui.status_message(), "");
}

#[test]
fn marking_as_read_asks_the_service_first() {
    let mut ui = session(&["a", "b"]);
    ui.handle_down();
    assert_eq!(ui.handle_event(Event::MarkRead), Action::MarkAsRead("1".to_string()));
    assert_eq!(ids(&ui), vec!["0", "1"]);
    assert_eq!(ui.status_message(), "");
}

#[test]
fn a_failed_request_leaves_the_mailbox_and_reports_the_failure() {
    let body = numbered_lines(100);
    let mut ui = session(&["a", &body]);
    ui.handle_down();
    ui.handle_page_down(10);
    let action = ui.handle_event(Event::MarkedAsRead(Err("connection reset".to_string())));
    assert_eq!(action, Action::Continue);
    assert_eq!(ids(&ui), vec!["0", "1"]);
    assert_eq!(ui.app().current_index(), 1);
    assert_eq!(ui.scroll_offset(), 10);
    assert_eq!(ui.status_message(), "Error marking email as read: connection reset");
}

#[test]
fn a_successful_request_removes_the_message_and_clamps_the_selection() {
    let body = numbered_lines(100);
    let mut ui = session(&["a", "b", &body]);
    ui.handle_down();
    ui.handle_down();
    ui.handle_page_down(10);
    assert_eq!(ui.handle_event(Event::MarkedAsRead(Ok(()))), Action::Continue);
    assert_eq!(ids(&ui), vec!["0", "1"]);
    assert_eq!(ui.app().current_index(), 1);
    assert_eq!(ui.scroll_offset(), 0);
    assert_eq!(ui.status_message(), "Email marked as read.");
    ui.mark_as_read_answered(Ok(()));
    ui.mark_as_read_answered(Ok(()));
    assert!(ids(&ui).is_empty());
    assert_eq!(ui.app().current_index(), 0);
}

#[test]
fn marking_as_read_without_a_selection_asks_nothing() {
    let mut ui = session(&[]);
    assert_eq!(ui.handle_mark_as_read(), Action::Continue);
    assert_eq!(ui.status_message(), "Email marked as read.");
}

#[test]
fn unsubscribing_from_a_web_link_asks_to_open_it() {
    let link = UnsubscribeTarget::HttpLink("https://a.b/u".to_string());
    let mut ui = TerminalUI::new(App::new(vec![email("1", "x", Some(link))]));
    assert_eq!(ui.handle_event(Event::Unsubscribe), Action::OpenLink("https://a.b/u".to_string()));
    assert_eq!(ui.status_message(), "");
    assert_eq!(ui.handle_event(Event::LinkOpened(Ok(()))), Action::Continue);
    assert_eq!(ui.status_message(), "Unsubscribe link opened.");
    ui.link_opened(Err("Unsupported operating system".to_string()));
    assert_eq!(ui.status_message(), "Error unsubscribing: Unsupported operating system");
    assert_eq!(ids(&ui), vec!["1"]);
}

#[test]
fn unsubscribing_otherwise_only_reports() {
    let link = UnsubscribeTarget::MailtoLink("x@y.com".to_string());
    let mut ui = TerminalUI::new(App::new(vec![email("1", "x", Some(link))]));
    assert_eq!(ui.handle_event(Event::Unsubscribe), Action::Continue);
    assert_eq!(
        ui.status_message(),
        "This email uses a mailto link for unsubscribing. Please send an email to x@y.com"
    );
    let link = UnsubscribeTarget::Unsupported("tel:123".to_string());
    let mut ui = TerminalUI::new(App::new(vec![email("1", "x", Some(link))]));
    assert_eq!(ui.handle_unsubscribe(), Action::Continue);
    assert_eq!(ui.status_message(), "Unsupported unsubscribe method: tel:123");
    let mut ui = session(&["x"]);
    assert_eq!(ui.handle_unsubscribe(), Action::Continue);
    assert_eq!(ui.status_message(), "No unsubscribe link found for this email.");
    let mut ui = session(&[]);
    assert_eq!(ui.handle_unsubscribe(), Action::Continue);
    assert_eq!(ui.status_message(), "No email selected.");
}

#[test]
fn a_text_that_fits_is_not_cut() {
    assert_eq!(truncate_with_ellipsis("hello", 5), "hello");
    assert_eq!(truncate_with_ellipsis("hello", 80), "hello");
    assert_eq!(truncate_with_ellipsis("", 0), "");
}

#[test]
fn a_text_that_is_too_wide_ends_in_three_dots() {
    assert_eq!(truncate_with_ellipsis("hello world", 8), "hello...");
    assert_eq!(truncate_with_ellipsis("hello world", 10), "hello w...");
    assert_eq!(truncate_with_ellipsis("hello", 4), "h...");
    assert_eq!(truncate_with_ellipsis("hello", 3), "...");
    assert_eq!(truncate_with_ellipsis("hello", 0), "...");
}

#[test]
fn wide_characters_count_for_two_columns() {
    assert_eq!(truncate_with_ellipsis("日本語テキスト", 14), "日本語テキスト");
    assert_eq!(truncate_with_ellipsis("日本語テキスト", 10), "日本語...");
    assert_eq!(truncate_with_ellipsis("日本語テキスト", 9), "日本語...");
    assert_eq!(truncate_with_ellipsis("日本語テキスト", 8), "日本...");
    assert_eq!(measure("a日\u{1}"), vec![('a', 1), ('日', 2), ('\u{1}', 0)]);
}

#[test]
fn a_measured_text_is_cut_by_its_widths() {
    let m = vec![('a', 1), ('b', 5), ('c', 1)];
    assert_eq!(truncate_measured(&m, 7, 7), "abc");
    assert_eq!(truncate_measured(&m, 7, 6), "a...");
    assert_eq!(truncate_measured(&m, 7, 3), "...");
    assert_eq!(truncate_measured(&m, 99, 10), "abc");
    assert_eq!(truncate_measured(&vec![('a', usize::MAX)], usize::MAX, 5), "...");
}

#[test]
fn the_window_shows_the_lines_below_the_offset() {
    let mut text = ScrollableText::new("one  \ntwo\r\nthree\t\nfour\nfive");
    assert_eq!(text.offset(), 0);
    assert_eq!(text.content(), "one  \ntwo\r\nthree\t\nfour\nfive");
    assert_eq!(text.visible_lines(2), vec!["one", "two"]);
    assert_eq!(text.visible_lines(0), Vec::<String>::new());
    text.scroll(2);
    assert_eq!(text.offset(), 2);
    assert_eq!(text.visible_lines(2), vec!["three", "four"]);
    assert_eq!(text.visible_lines(10), vec!["three", "four", "five"]);
    text.scroll(5);
    assert_eq!(text.visible_lines(10), Vec::<String>::new());
    text.scroll(usize::MAX);
    assert_eq!(text.visible_lines(usize::MAX), Vec::<String>::new());
}

#[test]
fn keys_are_bound_to_events() {
    assert_eq!(event_for_key(Key::Char('q'), 24), Some(Event::Quit));
    assert_eq!(event_for_key(Key::Char('r'), 24), Some(Event::MarkRead));
    assert_eq!(event_for_key(Key::Char('u'), 24), Some(Event::Unsubscribe));
    assert_eq!(event_for_key(Key::Up, 24), Some(Event::MoveUp));
    assert_eq!(event_for_key(Key::Down, 24), Some(Event::MoveDown));
    assert_eq!(event_for_key(Key::PageUp, 24), Some(Event::ScrollUp));
    assert_eq!(event_for_key(Key::Char('Q'), 24), None);
    assert_eq!(event_for_key(Key::Char('x'), 24), None);
    assert_eq!(event_for_key(Key::Other, 24), None);
}

#[test]
fn the_page_down_key_scrolls_in_the_rows_that_show_the_body() {
    assert_eq!(FRAME_ROWS, 6);
    assert_eq!(event_for_key(Key::PageDown, 24), Some(Event::ScrollDown { visible_height: 18 }));
    assert_eq!(event_for_key(Key::PageDown, 6), Some(Event::ScrollDown { visible_height: 0 }));
    assert_eq!(event_for_key(Key::PageDown, 3), Some(Event::ScrollDown { visible_height: 0 }));
}

#[test]
fn the_status_line_is_cut_to_the_inside_of_its_bar() {
    assert_eq!(BORDER_COLUMNS, 2);
    let mut ui = session(&["x"]);
    ui.link_opened(Err("no handler".to_string()));
    assert_eq!(ui.status_message(), "Error unsubscribing: no handler");
    assert_eq!(ui.status_line(80), "Error unsubscribing: no handler");
    assert_eq!(ui.status_line(33), "Error unsubscribing: no handler");
    assert_eq!(ui.status_line(32), "Error unsubscribing: no han...");
    assert_eq!(ui.status_line(12), "Error u...");
    assert_eq!(ui.status_line(1), "...");
    assert_eq!(session(&["x"]).status_line(0), "");
}
