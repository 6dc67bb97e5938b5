use audible_news::book::Book;
use audible_news::catalog::{contains_book, filter_new};
use audible_news::notifier::{split_message, Delivery, DeliveryAction, DeliveryState, SendOutcome};
use audible_news::pipeline::{RunState, UpdateRun};

fn b(title: &str, path: &str) -> Book {
    Book::new(title.to_string(), Some("Au".to_string()), None, "1 h".to_string(), "d".to_string(), path.to_string())
}

fn titles(v: &[Book]) -> Vec<String> {
    v.iter().map(|x| x.title.clone()).collect()
}

/// Delivers every pending item of the run, storing the catalog each time.
fn deliver_all(run: &mut UpdateRun, stored: &mut Vec<Book>, sent: &mut Vec<String>) {
    while let Some(item) = run.log_current() {
        sent.push(item.formatted_log());
        *stored = run.on_delivered();
    }
}

#[test]
fn items_differing_only_in_path_are_equal() {
    let a = b("Same", "/pd/one");
    let c = b("Same", "/pd/two");
    assert!(a == c);
    assert!(contains_book(&vec![a.clone()], &c));
    assert!(filter_new(&vec![c], &vec![a]).is_empty());
    assert!(b("Other", "/pd/one") != b("Same", "/pd/one"));
}

#[test]
fn filter_keeps_order_of_unknown_items() {
    let cands = vec![b("X", "/x"), b("Y", "/y"), b("Z", "/z")];
    let known = vec![b("Y", "/elsewhere")];
    assert_eq!(titles(&filter_new(&cands, &known)), vec!["X", "Z"]);
    assert_eq!(cands.len(), 3);
    assert_eq!(known.len(), 1);
}

#[test]
fn limit_evicts_single_oldest_item() {
    let cat = vec![b("A", "/a"), b("B", "/b"), b("C", "/c"), b("D", "/d")];
    let limited = Book::limit(cat, 3);
    assert_eq!(titles(&limited), vec!["B", "C", "D"]);
    let small = Book::limit(vec![b("A", "/a")], 3);
    assert_eq!(titles(&small), vec!["A"]);
    assert!(Book::limit(vec![b("A", "/a")], 0).is_empty());
}

#[test]
fn fresh_run_stores_items_oldest_first() {
    // page order Z, Y, X (newest first) extracts as X, Y, Z
    let extracted = vec![b("X", "/x"), b("Y", "/y"), b("Z", "/z")];
    let mut run = UpdateRun::start(&extracted, vec![], 10);
    let mut stored = vec![];
    let mut sent = vec![];
    deliver_all(&mut run, &mut stored, &mut sent);
    assert_eq!(run.state, RunState::Completed);
    assert_eq!(titles(&stored), vec!["X", "Y", "Z"]);
    assert_eq!(titles(&run.catalog), vec!["X", "Y", "Z"]);
    assert_eq!(sent.len(), 3);
}

#[test]
fn second_run_on_same_page_delivers_nothing() {
    let extracted = vec![b("X", "/x"), b("Y", "/y")];
    let mut run = UpdateRun::start(&extracted, vec![b("W", "/w")], 10);
    let mut stored = vec![];
    let mut sent = vec![];
    deliver_all(&mut run, &mut stored, &mut sent);
    assert_eq!(sent.len(), 2);
    let again = UpdateRun::start(&extracted, stored, 10);
    assert_eq!(again.state, RunState::Completed);
    assert!(again.pending.is_empty());
    assert!(again.current().is_none());
}

#[test]
fn full_catalog_drops_oldest_on_new_item() {
    let cat = vec![b("A", "/a"), b("B", "/b"), b("C", "/c")];
    let mut run = UpdateRun::start(&vec![b("N", "/n")], cat, 3);
    let stored = run.on_delivered();
    assert_eq!(titles(&stored), vec!["B", "C", "N"]);
    assert_eq!(run.state, RunState::Completed);
}

#[test]
fn failed_delivery_aborts_remaining_items() {
    let extracted = vec![b("X", "/x"), b("Y", "/y"), b("Z", "/z")];
    let mut run = UpdateRun::start(&extracted, vec![], 10);
    let first = run.current().unwrap();
    assert_eq!(first.title, "X");
    let stored = run.on_delivered();
    assert_eq!(titles(&stored), vec!["X"]);
    run.note("Error sending book: refused");
    run.abort();
    assert_eq!(run.state, RunState::Aborted);
    assert!(run.log.ends_with(" - Error sending book: refused\n"));
    assert!(run.current().is_none());
    assert_eq!(titles(&run.catalog), vec!["X"]);
}

#[test]
fn end_to_end_two_items_one_without_narrator() {
    let html = "<html><body><ul>\
        <li class=\"productListItem\"><h3><a class=\"bc-link\" href=\"/pd/B/2\">Item B</a></h3><ul>\
        <li class=\"authorLabel\"><span>Di: Auth B</span></li>\
        <li class=\"runtimeLabel\"><span>Durata: 2 h</span></li>\
        <li class=\"releaseDateLabel\"><span>Data di pubblicazione: 02-02-24</span></li></ul></li>\
        <li class=\"productListItem\"><h3><a class=\"bc-link\" href=\"/pd/A/1\">Item A</a></h3><ul>\
        <li class=\"authorLabel\"><span>Di: Auth A</span></li>\
        <li class=\"narratorLabel\"><span>Letto da: Voice A</span></li>\
        <li class=\"runtimeLabel\"><span>Durata: 1 h</span></li>\
        <li class=\"releaseDateLabel\"><span>Data di pubblicazione: 01-01-24</span></li></ul></li>\
        </ul></body></html>";
    let extracted = Book::from_html_document(html).unwrap();
    assert_eq!(titles(&extracted), vec!["Item A", "Item B"]);
    assert_eq!(extracted[1].narrator, None);
    let mut run = UpdateRun::start(&extracted, vec![], 10);
    assert_eq!(run.pending.len(), 2);
    let mut stored = vec![];
    let mut sent = vec![];
    deliver_all(&mut run, &mut stored, &mut sent);
    assert_eq!(
        sent,
        vec![
            "t: Item A - a: Auth A - n: Voice A - r: 1 h - d: 01-01-24 - u: /pd/A/1".to_string(),
            "t: Item B - a: Auth B - n:  - r: 2 h - d: 02-02-24 - u: /pd/B/2".to_string(),
        ]
    );
    assert_eq!(titles(&stored), vec!["Item A", "Item B"]);
    assert_eq!(run.state, RunState::Completed);
    let lines: Vec<&str> = run.log.lines().collect();
    assert_eq!(lines.len(), 2);
    assert!(lines[0].ends_with(" - t: Item A - a: Auth A - n: Voice A - r: 1 h - d: 01-01-24 - u: /pd/A/1"));
    assert!(lines[1].ends_with(" - t: Item B - a: Auth B - n:  - r: 2 h - d: 02-02-24 - u: /pd/B/2"));
}

#[test]
fn message_of_three_bounds_is_three_chunks() {
    let msg = "abcdefghi";
    assert_eq!(split_message(msg, 3), vec!["abc", "def", "ghi"]);
    assert_eq!(split_message("abcdefg", 3), vec!["abc", "def", "g"]);
    assert_eq!(split_message("short", 10), vec!["short"]);
    assert_eq!(split_message("", 10), vec![""]);
    assert_eq!(split_message("àèìòù", 2), vec!["àè", "ìò", "ù"]);
}

#[test]
fn retry_after_then_success_is_one_delivery() {
    let mut d = Delivery::new("hello", 100);
    let sends = match d.first_action() {
        DeliveryAction::Send(c, w) => {
            assert_eq!(c, "hello");
            assert_eq!(w, 0);
            1
        }
        _ => panic!("expected a send"),
    };
    match d.on_outcome(SendOutcome::RetryAfter(7)) {
        DeliveryAction::Send(c, w) => {
            assert_eq!(c, "hello");
            assert_eq!(w, 7);
        }
        _ => panic!("expected a retry of the same chunk"),
    }
    assert_eq!(d.next, 0);
    assert!(matches!(d.on_outcome(SendOutcome::Sent), DeliveryAction::Done));
    assert_eq!(d.next, 1);
    assert_eq!(d.state, DeliveryState::Done);
    assert_eq!(sends, 1);
}

#[test]
fn chunks_go_out_in_order_and_failure_stops() {
    let mut d = Delivery::new("abcdefghi", 3);
    assert_eq!(d.chunks.len(), 3);
    match d.on_outcome(SendOutcome::Sent) {
        DeliveryAction::Send(c, _) => assert_eq!(c, "def"),
        _ => panic!("expected the second chunk"),
    }
    assert!(matches!(d.on_outcome(SendOutcome::Failed), DeliveryAction::Failed));
    assert_eq!(d.state, DeliveryState::Failed);
    assert_eq!(d.next, 1);
    assert!(matches!(d.first_action(), DeliveryAction::Failed));
}
