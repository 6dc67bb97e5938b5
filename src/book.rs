//! Item records: extraction from the catalog page, identity, formatting and
//! the catalog bound.
use vstd::prelude::*;
use vstd::string::*;
use crate::scrape::{
    container_attr, container_attr_of, container_count_of, container_text, container_text_of,
    count_containers, resolved_path, resolved_path_of,
};
use crate::settings::{AttributesMap, Settings};
use crate::text::{remove_all, removed_of, trim_text, trimmed_of};
use crate::utils::{md_escape, md_escaped, TBotError};

verus! {

/// The mathematical value of an item record.
pub struct BookView {
    pub title: Seq<char>,
    pub author: Option<Seq<char>>,
    pub narrator: Option<Seq<char>>,
    pub runtime: Seq<char>,
    pub date: Seq<char>,
    pub url: Seq<char>,
}

/// One catalog item. `url` holds the path of the item's page, not a full URL.
#[derive(Debug, Clone)]
pub struct Book {
    pub title: String,
    pub author: Option<String>,
    pub narrator: Option<String>,
    pub runtime: String,
    pub date: String,
    pub url: String,
}

pub open spec fn opt_view(o: Option<String>) -> Option<Seq<char>> {
    match o {
        Some(s) => Some(s@),
        None => None,
    }
}

impl View for Book {
    type V = BookView;

    open spec fn view(&self) -> BookView {
        BookView {
            title: self.title@,
            author: opt_view(self.author),
            narrator: opt_view(self.narrator),
            runtime: self.runtime@,
            date: self.date@,
            url: self.url@,
        }
    }
}

/// The views of a sequence of items.
pub open spec fn books_view(s: Seq<Book>) -> Seq<BookView> {
    s.map_values(|b: Book| b@)
}

/// Item identity: every field but the path.
pub open spec fn same_item(a: BookView, b: BookView) -> bool {
    &&& a.title == b.title
    &&& a.author == b.author
    &&& a.narrator == b.narrator
    &&& a.date == b.date
    &&& a.runtime == b.runtime
}

/// The last `max` elements of `s`, or all of it when it is no longer.
pub open spec fn bounded<T>(s: Seq<T>, max: nat) -> Seq<T> {
    if s.len() > max {
        s.subrange(s.len() - max, s.len() as int)
    } else {
        s
    }
}

pub open spec fn or_empty(o: Option<Seq<char>>) -> Seq<char> {
    match o {
        Some(s) => s,
        None => Seq::empty(),
    }
}

/// The one-line summary of an item written to the activity log.
pub open spec fn log_line(b: BookView) -> Seq<char> {
    "t: "@ + b.title + " - a: "@ + or_empty(b.author) + " - n: "@ + or_empty(b.narrator)
        + " - r: "@ + b.runtime + " - d: "@ + b.date + " - u: "@ + b.url
}

/// `label: value` and a line break.
pub open spec fn labeled(label: Seq<char>, value: Seq<char>) -> Seq<char> {
    label + ": "@ + value + "\n"@
}

pub open spec fn labeled_opt(label: Seq<char>, value: Option<Seq<char>>) -> Seq<char> {
    match value {
        Some(v) => labeled(label, v),
        None => Seq::empty(),
    }
}

/// The lines of a delivered message, before escaping: absent creators are
/// left out.
pub open spec fn message_lines(b: BookView, a: AttributesMap) -> Seq<char> {
    labeled(a.title@, b.title) + labeled_opt(a.author@, b.author) + labeled_opt(
        a.narrator@,
        b.narrator,
    ) + labeled(a.runtime@, b.runtime) + labeled(a.date@, b.date)
}

/// A URL as written inside a MarkdownV2 inline link: '`' and ')' escaped.
pub open spec fn link_url_escaped(s: Seq<char>) -> Seq<char>
    decreases s.len(),
{
    if s.len() == 0 {
        Seq::empty()
    } else {
        let c = s.last();
        link_url_escaped(s.drop_last()) + if c == '`' || c == ')' {
            seq!['\\', c]
        } else {
            seq![c]
        }
    }
}

/// A MarkdownV2 inline link `[text](url)`.
pub open spec fn md_link(url: Seq<char>, text: Seq<char>) -> Seq<char> {
    seq!['['] + text + seq![']', '('] + link_url_escaped(url) + seq![')']
}

/// Relies on `teloxide::utils::markdown::link`, which formats `[{text}]({url})`
/// with the URL passed through `escape_link_url`.
#[verifier::external_body]
fn markdown_link(url: &str, text: &str) -> (r: String)
    ensures
        r@ == md_link(url@, text@),
{
    teloxide::utils::markdown::link(url, text)
}

/// The text of a field of the `i`-th item container, with `prefix` taken out
/// and surrounding white space trimmed.
pub open spec fn field_value(html: Seq<char>, i: int, field: Seq<char>, prefix: Seq<char>) -> Option<
    Seq<char>,
> {
    match container_text_of(html, "li.productListItem"@, i, field) {
        Some(t) => Some(trimmed_of(removed_of(t, prefix))),
        None => None,
    }
}

/// The path of the `i`-th item's link, resolved against a fixed origin: a link
/// to another host keeps only its path.
pub open spec fn node_path(html: Seq<char>, i: int) -> Option<Seq<char>> {
    match container_attr_of(html, "li.productListItem"@, i, "a.bc-link"@, "href"@) {
        Some(h) => resolved_path_of("https://example.com"@, h),
        None => None,
    }
}

/// An item from its cleaned field texts, or the name of the first mandatory
/// field that is missing.
pub open spec fn texts_result(
    title: Option<Seq<char>>,
    path: Option<Seq<char>>,
    author: Option<Seq<char>>,
    narrator: Option<Seq<char>>,
    runtime: Option<Seq<char>>,
    date: Option<Seq<char>>,
) -> Result<BookView, Seq<char>> {
    if title is None {
        Err("title"@)
    } else if path is None {
        Err("path"@)
    } else if runtime is None {
        Err("duration"@)
    } else if date is None {
        Err("publishedDate"@)
    } else {
        Ok(
            BookView {
                title: title->0,
                author,
                narrator,
                runtime: runtime->0,
                date: date->0,
                url: path->0,
            },
        )
    }
}

/// The item held by the `i`-th container of the page.
pub open spec fn node_result(html: Seq<char>, i: int) -> Result<BookView, Seq<char>> {
    texts_result(
        field_value(html, i, "h3 > a"@, ""@),
        node_path(html, i),
        field_value(html, i, "li.authorLabel > span"@, "Di:"@),
        field_value(html, i, "li.narratorLabel > span"@, "Letto da:"@),
        field_value(html, i, "li.runtimeLabel > span"@, "Durata:"@),
        field_value(html, i, "li.releaseDateLabel > span"@, "Data di pubblicazione:"@),
    )
}

/// The number of item containers on the page.
pub open spec fn container_count(html: Seq<char>) -> nat {
    container_count_of(html, "li.productListItem"@)
}

/// Reading containers `k - 1` down to `0`: their items in that order, or the
/// missing field of the first of them that lacks one.
pub open spec fn extract_down(html: Seq<char>, k: nat) -> Result<Seq<BookView>, Seq<char>>
    decreases k,
{
    if k == 0 {
        Ok(Seq::empty())
    } else {
        match node_result(html, k - 1) {
            Err(e) => Err(e),
            Ok(b) => prepend(seq![b], extract_down(html, (k - 1) as nat)),
        }
    }
}

/// The outcome of extracting the page: every item, oldest (last on the page)
/// first, or the missing field that aborts the whole extraction.
pub open spec fn extraction(html: Seq<char>) -> Result<Seq<BookView>, Seq<char>> {
    extract_down(html, container_count(html))
}

pub open spec fn prepend(p: Seq<BookView>, r: Result<Seq<BookView>, Seq<char>>) -> Result<
    Seq<BookView>,
    Seq<char>,
> {
    match r {
        Ok(s) => Ok(p + s),
        Err(e) => Err(e),
    }
}

/// The value of an extraction result: the items' views or the missing field.
pub open spec fn result_view(r: Result<Vec<Book>, TBotError>) -> Result<Seq<BookView>, Seq<char>> {
    match r {
        Ok(v) => Ok(books_view(v@)),
        Err(TBotError::BookFieldNotFound(f)) => Err(f@),
    }
}

proof fn lemma_extract_down_fails(html: Seq<char>, j: int, k: nat)
    requires
        0 <= j < k,
        node_result(html, j) is Err,
        forall|m: int| j < m < k ==> (#[trigger] node_result(html, m)) is Ok,
    ensures
        extract_down(html, k) == Err::<Seq<BookView>, Seq<char>>(node_result(html, j)->Err_0),
    decreases k,
{
    if k - 1 > j {
        lemma_extract_down_fails(html, j, (k - 1) as nat);
        assert(node_result(html, k - 1) is Ok);
    }
}

/// A container that lacks a mandatory field aborts the whole extraction with
/// that field's name, when every container read before it (those below it on
/// the page) is complete: no item is returned.
pub proof fn lemma_missing_field_aborts(html: Seq<char>, j: int)
    requires
        0 <= j < container_count(html),
        node_result(html, j) is Err,
        forall|m: int| j < m < container_count(html) ==> (#[trigger] node_result(html, m)) is Ok,
    ensures
        extraction(html) == Err::<Seq<BookView>, Seq<char>>(node_result(html, j)->Err_0),
{
    lemma_extract_down_fails(html, j, container_count(html));
}

/// A container with a title and a link but no duration aborts the extraction
/// with the field `duration`, when the containers read before it are complete.
pub proof fn lemma_missing_duration_aborts(html: Seq<char>, j: int)
    requires
        0 <= j < container_count(html),
        field_value(html, j, "h3 > a"@, ""@) is Some,
        node_path(html, j) is Some,
        field_value(html, j, "li.runtimeLabel > span"@, "Durata:"@) is None,
        forall|m: int| j < m < container_count(html) ==> (#[trigger] node_result(html, m)) is Ok,
    ensures
        extraction(html) == Err::<Seq<BookView>, Seq<char>>("duration"@),
{
    lemma_missing_field_aborts(html, j);
}

fn field_text(html: &str, index: usize, field: &str, prefix: &str) -> (r: Option<String>)
    ensures
        opt_view(r) == field_value(html@, index as int, field@, prefix@),
{
    match container_text(html, "li.productListItem", index, field) {
        Some(t) => {
            let s = remove_all(t.as_str(), prefix);
            Some(trim_text(s.as_str()))
        },
        None => None,
    }
}

fn link_path(html: &str, index: usize) -> (r: Option<String>)
    ensures
        opt_view(r) == node_path(html@, index as int),
{
    match container_attr(html, "li.productListItem", index, "a.bc-link", "href") {
        Some(h) => resolved_path("https://example.com", h.as_str()),
        None => None,
    }
}

fn clone_opt(o: &Option<String>) -> (r: Option<String>)
    ensures
        opt_view(r) == opt_view(*o),
{
    match o {
        Some(s) => Some(s.clone()),
        None => None,
    }
}

fn opt_eq(a: &Option<String>, b: &Option<String>) -> (r: bool)
    ensures
        r == (opt_view(*a) == opt_view(*b)),
{
    match (a, b) {
        (Some(x), Some(y)) => *x == *y,
        (None, None) => true,
        _ => false,
    }
}

fn field_error(name: &str) -> (r: TBotError)
    ensures
        match r {
            TBotError::BookFieldNotFound(f) => f@ == name@,
        },
{
    TBotError::BookFieldNotFound(String::from_str(name))
}

impl Book {
    pub fn new(
        title: String,
        author: Option<String>,
        narrator: Option<String>,
        runtime: String,
        date: String,
        url: String,
    ) -> (r: Book)
        ensures
            r.title == title,
            r.author == author,
            r.narrator == narrator,
            r.runtime == runtime,
            r.date == date,
            r.url == url,
    {
        Book { title, author, narrator, runtime, date, url }
    }

    /// A copy of the item with the same view.
    pub fn duplicate(&self) -> (r: Book)
        ensures
            r@ == self@,
    {
        Book {
            title: self.title.clone(),
            author: clone_opt(&self.author),
            narrator: clone_opt(&self.narrator),
            runtime: self.runtime.clone(),
            date: self.date.clone(),
            url: self.url.clone(),
        }
    }

    /// Builds an item from its cleaned field texts; fails naming the first
    /// mandatory field (title, path, duration, published date) that is absent.
    pub fn from_texts(
        title: Option<String>,
        path: Option<String>,
        author: Option<String>,
        narrator: Option<String>,
        runtime: Option<String>,
        date: Option<String>,
    ) -> (r: Result<Book, TBotError>)
        ensures
            match r {
                Ok(b) => texts_result(
                    opt_view(title),
                    opt_view(path),
                    opt_view(author),
                    opt_view(narrator),
                    opt_view(runtime),
                    opt_view(date),
                ) == Ok::<BookView, Seq<char>>(b@),
                Err(TBotError::BookFieldNotFound(f)) => texts_result(
                    opt_view(title),
                    opt_view(path),
                    opt_view(author),
                    opt_view(narrator),
                    opt_view(runtime),
                    opt_view(date),
                ) == Err::<BookView, Seq<char>>(f@),
            },
    {
        let title = match title {
            Some(t) => t,
            None => return Err(field_error("title")),
        };
        let url = match path {
            Some(p) => p,
            None => return Err(field_error("path")),
        };
        let runtime = match runtime {
            Some(t) => t,
            None => return Err(field_error("duration")),
        };
        let date = match date {
            Some(t) => t,
            None => return Err(field_error("publishedDate")),
        };
        Ok(Book { title, author, narrator, runtime, date, url })
    }

    /// The item held by the `index`-th container of the page `html`.
    pub fn from_html_node(html: &str, index: usize) -> (r: Result<Book, TBotError>)
        ensures
            match r {
                Ok(b) => node_result(html@, index as int) == Ok::<BookView, Seq<char>>(b@),
                Err(TBotError::BookFieldNotFound(f)) => node_result(html@, index as int) == Err::<
                    BookView,
                    Seq<char>,
                >(f@),
            },
    {
        let title = field_text(html, index, "h3 > a", "");
        let path = link_path(html, index);
        let author = field_text(html, index, "li.authorLabel > span", "Di:");
        let narrator = field_text(html, index, "li.narratorLabel > span", "Letto da:");
        let runtime = field_text(html, index, "li.runtimeLabel > span", "Durata:");
        let date = field_text(html, index, "li.releaseDateLabel > span", "Data di pubblicazione:");
        Book::from_texts(title, path, author, narrator, runtime, date)
    }

    /// The items of the page, oldest first: the page lists them newest first,
    /// so the containers are read in reverse. Fails as soon as one container
    /// lacks a mandatory field, and then no item is returned.
    pub fn from_html_document(document: &str) -> (r: Result<Vec<Book>, TBotError>)
        ensures
            result_view(r) == extraction(document@),
            (r is Ok) <==> (forall|j: int|
                0 <= j < container_count(document@) ==> (#[trigger] node_result(document@, j)) is Ok),
            match r {
                Ok(v) => {
                    &&& v@.len() == container_count(document@)
                    &&& forall|k: int|
                        0 <= k < v@.len() ==> node_result(document@, v@.len() - 1 - k) == Ok::<
                            BookView,
                            Seq<char>,
                        >((#[trigger] v@[k])@)
                },
                Err(TBotError::BookFieldNotFound(f)) => exists|j: int|
                    0 <= j < container_count(document@) && #[trigger] node_result(document@, j)
                        == Err::<BookView, Seq<char>>(f@) && forall|m: int|
                        j < m < container_count(document@) ==> (#[trigger] node_result(
                            document@,
                            m,
                        )) is Ok,
            },
    {
        let n = count_containers(document, "li.productListItem");
        let mut books: Vec<Book> = Vec::new();
        let mut i: usize = n;
        while i > 0
            invariant
                i <= n,
                n as nat == container_count(document@),
                books@.len() == n - i,
                forall|m: int| i <= m < n ==> (#[trigger] node_result(document@, m)) is Ok,
                forall|k: int|
                    0 <= k < books@.len() ==> node_result(document@, n - 1 - k) == Ok::<
                        BookView,
                        Seq<char>,
                    >((#[trigger] books@[k])@),
                extraction(document@) == prepend(books_view(books@), extract_down(document@, i as nat)),
            decreases i,
        {
            i = i - 1;
            match Book::from_html_node(document, i) {
                Ok(b) => {
                    let ghost bv = b@;
                    let ghost before = books_view(books@);
                    books.push(b);
                    proof {
                        assert(books_view(books@) =~= before.push(bv));
                        match extract_down(document@, i as nat) {
                            Ok(s) => {
                                assert(before + (seq![bv] + s) =~= books_view(books@) + s);
                            },
                            Err(_) => {},
                        }
                    }
                },
                Err(e) => {
                    return Err(e);
                },
            }
        }
        assert(books_view(books@) + Seq::<BookView>::empty() =~= books_view(books@));
        Ok(books)
    }

    /// The one-line log summary of the item.
    pub fn formatted_log(&self) -> (r: String)
        ensures
            r@ == log_line(self@),
    {
        let mut s = String::from_str("t: ");
        s.append(self.title.as_str());
        s.append(" - a: ");
        match &self.author {
            Some(a) => s.append(a.as_str()),
            None => {},
        }
        s.append(" - n: ");
        match &self.narrator {
            Some(n) => s.append(n.as_str()),
            None => {},
        }
        s.append(" - r: ");
        s.append(self.runtime.as_str());
        s.append(" - d: ");
        s.append(self.date.as_str());
        s.append(" - u: ");
        s.append(self.url.as_str());
        assert(s@ =~= log_line(self@));
        s
    }

    /// The message delivered for the item: its labelled fields, escaped, then
    /// a link to its page.
    pub fn formatted_message(&self, settings: &Settings) -> (r: String)
        ensures
            r@ == md_escaped(message_lines(self@, settings.attribute_names)) + md_link(
                settings.url_header@ + self.url@,
                settings.book_url_message@,
            ),
    {
        let attrs = &settings.attribute_names;
        let mut message = String::new();
        push_labeled(&mut message, &attrs.title, &self.title);
        match &self.author {
            Some(a) => push_labeled(&mut message, &attrs.author, a),
            None => {},
        }
        match &self.narrator {
            Some(n) => push_labeled(&mut message, &attrs.narrator, n),
            None => {},
        }
        push_labeled(&mut message, &attrs.runtime, &self.runtime);
        push_labeled(&mut message, &attrs.date, &self.date);
        assert(message@ =~= message_lines(self@, settings.attribute_names));
        let mut out = md_escape(&message);
        let mut full_url = settings.url_header.clone();
        full_url.append(self.url.as_str());
        let link = markdown_link(full_url.as_str(), settings.book_url_message.as_str());
        out.append(link.as_str());
        out
    }

    /// The last `max_books` items of `books`, or all of them when there are no
    /// more.
    pub fn limit(books: Vec<Book>, max_books: u32) -> (r: Vec<Book>)
        ensures
            r@ == bounded(books@, max_books as nat),
    {
        let mut books = books;
        let n = books.len();
        if n > max_books as usize {
            let tail = books.split_off(n - max_books as usize);
            tail
        } else {
            books
        }
    }
}

fn push_labeled(s: &mut String, label: &String, value: &String)
    ensures
        final(s)@ == old(s)@ + labeled(label@, value@),
{
    s.append(label.as_str());
    s.append(": ");
    s.append(value.as_str());
    s.append("\n");
}

impl PartialEq for Book {
    fn eq(&self, other: &Book) -> (r: bool)
        ensures
            r == same_item(self@, other@),
    {
        self.title == other.title && opt_eq(&self.author, &other.author) && opt_eq(
            &self.narrator,
            &other.narrator,
        ) && self.date == other.date && self.runtime == other.runtime
    }
}

impl vstd::std_specs::cmp::PartialEqSpecImpl for Book {
    open spec fn obeys_eq_spec() -> bool {
        true
    }

    open spec fn eq_spec(&self, other: &Book) -> bool {
        same_item(self@, other@)
    }
}

} // verus!
