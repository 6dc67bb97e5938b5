use audible_news::book::Book;
use audible_news::utils::TBotError;

fn item(title: &str, href: &str, author: Option<&str>, narrator: Option<&str>, runtime: Option<&str>, date: &str) -> String {
    let mut s = String::new();
    s.push_str("<li class=\"productListItem\">");
    s.push_str(&format!("<h3 class=\"bc-heading\"><a class=\"bc-link\" href=\"{}\">{}</a></h3>", href, title));
    s.push_str("<ul>");
    if let Some(a) = author {
        s.push_str(&format!("<li class=\"authorLabel\"><span>Di: {}</span></li>", a));
    }
    if let Some(n) = narrator {
        s.push_str(&format!("<li class=\"narratorLabel\"><span>Letto da: {}</span></li>", n));
    }
    if let Some(r) = runtime {
        s.push_str(&format!("<li class=\"runtimeLabel\"><span>Durata: {}</span></li>", r));
    }
    s.push_str(&format!(
        "<li class=\"releaseDateLabel\"><span>\n  Data di pubblicazione: {}  \n</span></li>",
        date
    ));
    s.push_str("</ul></li>");
    s
}

fn page(items: &[String]) -> String {
    format!("<html><body><ul class=\"list\">{}</ul></body></html>", items.concat())
}

#[test]
fn extraction_reverses_page_order_and_reads_fields() {
    let html = page(&[
        item("Book B", "/pd/Book-B/B002?ref=abc", Some("Author B"), None, Some("3 h 10 min"), "02-02-24"),
        item("Book A", "/pd/Book-A/B001", Some("Author A"), Some("Reader A"), Some("5 h"), "01-01-24"),
    ]);
    let books = Book::from_html_document(&html).unwrap();
    assert_eq!(books.len(), 2);
    assert_eq!(books[0].title, "Book A");
    assert_eq!(books[0].author, Some("Author A".to_string()));
    assert_eq!(books[0].narrator, Some("Reader A".to_string()));
    assert_eq!(books[0].runtime, "5 h");
    assert_eq!(books[0].date, "01-01-24");
    assert_eq!(books[0].url, "/pd/Book-A/B001");
    assert_eq!(books[1].title, "Book B");
    assert_eq!(books[1].narrator, None);
    assert_eq!(books[1].runtime, "3 h 10 min");
    assert_eq!(books[1].date, "02-02-24");
    assert_eq!(books[1].url, "/pd/Book-B/B002");
}

#[test]
fn missing_duration_aborts_whole_extraction() {
    let html = page(&[
        item("Book B", "/pd/B", Some("Author B"), None, None, "02-02-24"),
        item("Book A", "/pd/A", Some("Author A"), None, Some("5 h"), "01-01-24"),
    ]);
    match Book::from_html_document(&html) {
        Err(TBotError::BookFieldNotFound(f)) => assert_eq!(f, "duration"),
        Ok(_) => panic!("extraction should fail"),
    }
}

#[test]
fn missing_link_is_reported_as_path() {
    let html = page(&["<li class=\"productListItem\"><h3><a>No link</a></h3></li>".to_string()]);
    let err = Book::from_html_document(&html).unwrap_err();
    assert_eq!(err.description(), "path");
    assert_eq!(err.message(), "Book field not found: path");
}

#[test]
fn missing_title_is_reported_first() {
    let html = page(&["<li class=\"productListItem\"><p>nothing</p></li>".to_string()]);
    assert_eq!(
        Book::from_html_document(&html).unwrap_err(),
        TBotError::BookFieldNotFound("title".to_string())
    );
}

#[test]
fn page_without_items_gives_no_items() {
    let books = Book::from_html_document("<html><body><p>empty</p></body></html>").unwrap();
    assert!(books.is_empty());
}

#[test]
fn from_texts_checks_mandatory_fields_in_order() {
    let s = |x: &str| Some(x.to_string());
    let ok = Book::from_texts(s("T"), s("/p"), None, s("N"), s("1 h"), s("d")).unwrap();
    assert_eq!(ok.title, "T");
    assert_eq!(ok.author, None);
    assert_eq!(ok.url, "/p");
    let e = Book::from_texts(s("T"), s("/p"), None, None, None, None).unwrap_err();
    assert_eq!(e, TBotError::BookFieldNotFound("duration".to_string()));
    let e = Book::from_texts(s("T"), s("/p"), None, None, s("1 h"), None).unwrap_err();
    assert_eq!(e, TBotError::BookFieldNotFound("publishedDate".to_string()));
    let e = Book::from_texts(None, None, None, None, None, None).unwrap_err();
    assert_eq!(e, TBotError::BookFieldNotFound("title".to_string()));
}

#[test]
fn link_to_other_host_keeps_only_its_path() {
    let html = page(&[item(
        "Elsewhere",
        "https://www.other.host/pd/X/B02?ref=y",
        None,
        None,
        Some("1 h"),
        "03-03-24",
    )]);
    let books = Book::from_html_document(&html).unwrap();
    assert_eq!(books[0].url, "/pd/X/B02");
    assert_eq!(books[0].author, None);
}
