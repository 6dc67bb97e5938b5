use audible_news::book::Book;
use audible_news::settings::{AttributesMap, Settings};
use audible_news::storage::{bound_log, timestamp_line, timestamp_log};
use audible_news::utils::md_escape;

fn settings() -> Settings {
    Settings {
        url: "https://www.example.org/newreleases".to_string(),
        url_header: "https://www.audible.it".to_string(),
        max_books_kept: 10,
        max_message_length: 4096,
        default_log_length: 100,
        allowed_commands: vec![],
        attribute_names: AttributesMap {
            title: "Titolo".to_string(),
            author: "Autore".to_string(),
            narrator: "Narratore".to_string(),
            runtime: "Durata".to_string(),
            date: "Data".to_string(),
        },
        redirect_message: "".to_string(),
        book_url_message: "Vai al libro".to_string(),
    }
}

fn book(author: Option<&str>) -> Book {
    Book::new(
        "Vol. 1".to_string(),
        author.map(|a| a.to_string()),
        None,
        "5 h".to_string(),
        "01-01-24".to_string(),
        "/pd/x(1)".to_string(),
    )
}

#[test]
fn md_escape_escapes_every_special_character() {
    assert_eq!(md_escape(&"a.b-c!".to_string()), "a\\.b\\-c\\!");
    assert_eq!(md_escape(&"\\*_`{}[]()#+-.!|".to_string()), "\\\\\\*\\_\\`\\{\\}\\[\\]\\(\\)\\#\\+\\-\\.\\!\\|");
    assert_eq!(md_escape(&"plain text".to_string()), "plain text");
    assert_eq!(md_escape(&"".to_string()), "");
}

#[test]
fn formatted_log_fills_absent_creators_with_nothing() {
    let b = book(None);
    assert_eq!(b.formatted_log(), "t: Vol. 1 - a:  - n:  - r: 5 h - d: 01-01-24 - u: /pd/x(1)");
    let b = book(Some("Me"));
    assert_eq!(b.formatted_log(), "t: Vol. 1 - a: Me - n:  - r: 5 h - d: 01-01-24 - u: /pd/x(1)");
}

#[test]
fn formatted_message_escapes_fields_and_links_item() {
    let b = book(Some("A. Writer"));
    assert_eq!(
        b.formatted_message(&settings()),
        "Titolo: Vol\\. 1\nAutore: A\\. Writer\nDurata: 5 h\nData: 01\\-01\\-24\n\
         [Vai al libro](https://www.audible.it/pd/x(1\\))"
    );
    let b = book(None);
    assert_eq!(
        b.formatted_message(&settings()),
        "Titolo: Vol\\. 1\nDurata: 5 h\nData: 01\\-01\\-24\n[Vai al libro](https://www.audible.it/pd/x(1\\))"
    );
}

#[test]
fn timestamped_lines() {
    assert_eq!(timestamp_line("2024-01-01T10:00:00", "Startup."), "2024-01-01T10:00:00 - Startup.\n");
    let l = timestamp_log("Update begins.");
    assert!(l.ends_with(" - Update begins.\n"));
    assert_eq!(l.len(), 19 + " - Update begins.\n".len());
    let stamp: Vec<char> = l.chars().take(19).collect();
    for (i, c) in stamp.iter().enumerate() {
        match i {
            4 | 7 => assert_eq!(*c, '-'),
            10 => assert_eq!(*c, 'T'),
            13 | 16 => assert_eq!(*c, ':'),
            _ => assert!(c.is_ascii_digit()),
        }
    }
}

#[test]
fn log_keeps_most_recent_lines() {
    let content = "l1\nl2\nl3\n";
    assert_eq!(bound_log(content, "l4\n", 10), "l1\nl2\nl3\nl4\n");
    assert_eq!(bound_log(content, "l4\n", 2), "l3\nl4\n");
    // the next entry starts a line of its own once the bound is reached
    let kept = bound_log(content, "l4\n", 2);
    assert_eq!(bound_log(&kept, "l5\n", 2), "l4\nl5\n");
    assert_eq!(bound_log(content, "l4\n", 4), "l1\nl2\nl3\nl4\n");
    assert_eq!(bound_log("", "only\n", 0), "");
}
