//! Listings that come page by page: the catalog and the tags of a repository.

use crate::errors::{result_view, Error, ErrorView};
use crate::http::{header_value, HeaderView, Method, Request, RequestView, Response, ResponseView};
use crate::json::{json_document, Json, JsonView};
use crate::text::{
    chars_of, decimal, find_char, index_of, lemma_index_of, push_decimal, same_text,
    slice_string,
};
use crate::v2::{
    catalog_of, checked_request, error_of, read_text_list, response_error, step_view,
    text_list, text_view, Catalog, Client, ClientView,
};
use vstd::prelude::*;
use vstd::string::StringExecFns;

verus! {

/// One page of a listing: its items, and the link to the page after it.
#[derive(Debug, PartialEq, Eq)]
pub struct Page<T> {
    pub items: Vec<T>,
    pub next: Option<String>,
}

/// What a page of names holds.
pub struct PageView {
    pub items: Seq<Seq<char>>,
    pub next: Option<Seq<char>>,
}

impl View for Page<String> {
    type V = PageView;

    open spec fn view(&self) -> PageView {
        PageView { items: self.items.deep_view(), next: text_view(self.next) }
    }
}

/// The listings that a registry offers.
#[derive(Clone, Copy, Debug, PartialEq, Eq, Structural)]
pub enum Listing {
    /// The names of the repositories.
    Catalog,
    /// The names of the tags of one repository.
    Tags,
}

/// The target of a `Link` value of the form `<target>; rel="next"`.
pub open spec fn link_target(value: Seq<char>) -> Option<Seq<char>> {
    let close = index_of(value, '>', 0);
    if value.len() > 0 && value[0] == '<' && close < value.len() && value.subrange(
        close + 1,
        value.len() as int,
    ) == "; rel=\"next\""@ {
        Some(value.subrange(1, close))
    } else {
        None
    }
}

/// The link to the next page that a response carries, if it carries one.
pub open spec fn next_link(headers: Seq<HeaderView>) -> Option<Seq<char>> {
    match header_value(headers, "Link"@) {
        Some(value) => link_target(value),
        None => None,
    }
}

/// The URL that a link or a `Location` stands for: a path is taken from the
/// registry's base URL, anything else is taken as it is.
pub open spec fn resolve(base_url: Seq<char>, link: Seq<char>) -> Seq<char> {
    if link.len() > 0 && link[0] == '/' {
        base_url + link
    } else {
        link
    }
}

/// The query that hands a limit to the registry: `?n=<limit>`, or nothing.
pub open spec fn limit_query(limit: Option<u32>) -> Seq<char> {
    match limit {
        Some(n) => "?n="@ + decimal(n as nat),
        None => Seq::empty(),
    }
}

/// The tag names that a document holds: an object whose `tags` is an array of strings.
pub open spec fn tags_of(doc: JsonView) -> Option<Seq<Seq<char>>> {
    match doc.member("tags"@) {
        Some(v) => text_list(v),
        None => None,
    }
}

/// The names that a document of a listing holds.
pub open spec fn listing_items(kind: Listing, doc: JsonView) -> Option<Seq<Seq<char>>> {
    match kind {
        Listing::Catalog => catalog_of(doc),
        Listing::Tags => tags_of(doc),
    }
}

/// The page that a response holds. A status other than 200 is an error, and so
/// is a body that is not a document of the listing.
pub open spec fn page_of(kind: Listing, r: ResponseView) -> Result<PageView, ErrorView> {
    if r.status == 200 {
        match json_document(r.body) {
            Some(doc) => match listing_items(kind, doc) {
                Some(items) => Ok(PageView { items, next: next_link(r.headers) }),
                None => Err(ErrorView::Decode),
            },
            None => Err(ErrorView::Decode),
        }
    } else {
        Err(response_error(r))
    }
}

/// Reads the target of a `Link` value.
pub fn read_link_target(value: &str) -> (out: Option<String>)
    ensures
        text_view(out) == link_target(value@),
{
    let chars = chars_of(value);
    if chars.len() == 0 || chars[0] != '<' {
        return None;
    }
    let close = find_char(&chars, '>', 0);
    if close >= chars.len() {
        return None;
    }
    proof {
        lemma_index_of(value@, '>', 0);
    }
    if same_text(value.substring_char(close + 1, chars.len()), "; rel=\"next\"") {
        Some(slice_string(value, 1, close))
    } else {
        None
    }
}

/// Reads the link to the next page out of a response.
pub fn read_next_link(response: &Response) -> (out: Option<String>)
    ensures
        text_view(out) == next_link(response@.headers),
{
    match response.header("Link") {
        Some(value) => read_link_target(value),
        None => None,
    }
}

/// Reads the page that a response holds.
pub fn read_page(kind: Listing, response: &Response) -> (out: Result<Page<String>, Error>)
    ensures
        result_view(out) == page_of(kind, response@),
{
    if response.status != 200 {
        return Err(error_of(response));
    }
    let doc = match Json::parse(response.body.as_slice()) {
        Some(doc) => doc,
        None => {
            return Err(Error::Decode);
        },
    };
    let items = match kind {
        Listing::Catalog => match Catalog::from_json(&doc) {
            Some(catalog) => Some(catalog.repositories),
            None => None,
        },
        Listing::Tags => match doc.get("tags") {
            Some(v) => read_text_list(v),
            None => None,
        },
    };
    match items {
        Some(items) => Ok(Page { items, next: read_next_link(response) }),
        None => Err(Error::Decode),
    }
}

/// The URL of the first page of the catalog.
pub open spec fn catalog_url(c: ClientView, limit: Option<u32>) -> Seq<char> {
    c.base_url + "/v2/_catalog"@ + limit_query(limit)
}

/// The URL of the first page of the tags of the repository `name`.
pub open spec fn tags_url(c: ClientView, name: Seq<char>, limit: Option<u32>) -> Seq<char> {
    c.base_url + "/v2/"@ + name + "/tags/list"@ + limit_query(limit)
}

/// Appends the query that hands `limit` to the registry.
fn push_limit(url: &mut String, limit: Option<u32>)
    ensures
        final(url)@ == old(url)@ + limit_query(limit),
{
    match limit {
        Some(n) => {
            url.append("?n=");
            push_decimal(url, n as u64);
            assert(url@ =~= old(url)@ + limit_query(limit));
        },
        None => {
            assert(url@ =~= old(url)@ + limit_query(limit));
        },
    }
}

impl Client {
    /// The URL of the first page of the catalog.
    pub fn catalog_url(&self, limit: Option<u32>) -> (out: String)
        ensures
            out@ == catalog_url(self@, limit),
    {
        let mut url = self.base_url().to_string();
        url.append("/v2/_catalog");
        push_limit(&mut url, limit);
        url
    }

    /// The URL of the first page of the tags of the repository `name`.
    pub fn tags_url(&self, name: &str, limit: Option<u32>) -> (out: String)
        ensures
            out@ == tags_url(self@, name@, limit),
    {
        let mut url = self.base_url().to_string();
        url.append("/v2/");
        url.append(name);
        url.append("/tags/list");
        push_limit(&mut url, limit);
        url
    }

    /// The URL that a link or a `Location` of this registry stands for.
    pub fn resolve(&self, link: &str) -> (out: String)
        ensures
            out@ == resolve(self@.base_url, link@),
    {
        let chars = chars_of(link);
        if chars.len() > 0 && chars[0] == '/' {
            let mut url = self.base_url().to_string();
            url.append(link);
            url
        } else {
            link.to_string()
        }
    }

    /// The request for the first page of the catalog: `GET <base>/v2/_catalog`,
    /// with `?n=<limit>` where a limit is given.
    pub fn catalog_request(&self, limit: Option<u32>) -> (out: Result<Request, Error>)
        ensures
            result_view(out) == checked_request(self@, Method::Get, catalog_url(self@, limit)),
    {
        self.request(Method::Get, self.catalog_url(limit))
    }

    /// The page of repository names in the answer to a catalog request.
    pub fn get_catalog(&self, response: &Response) -> (out: Result<Page<String>, Error>)
        ensures
            result_view(out) == page_of(Listing::Catalog, response@),
    {
        read_page(Listing::Catalog, response)
    }

    /// The request for the first page of the tags of the repository `name`:
    /// `GET <base>/v2/<name>/tags/list`, with `?n=<limit>` where a limit is given.
    pub fn tags_request(&self, name: &str, limit: Option<u32>) -> (out: Result<Request, Error>)
        ensures
            result_view(out) == checked_request(
                self@,
                Method::Get,
                tags_url(self@, name@, limit),
            ),
    {
        self.request(Method::Get, self.tags_url(name, limit))
    }

    /// The page of tag names in the answer to a tags request.
    pub fn get_tags(&self, response: &Response) -> (out: Result<Page<String>, Error>)
        ensures
            result_view(out) == page_of(Listing::Tags, response@),
    {
        read_page(Listing::Tags, response)
    }
}

/// Where a listing stands: the URL of the page to ask for next, or the end.
#[derive(Debug, PartialEq, Eq)]
pub struct Cursor {
    kind: Listing,
    pending: Option<String>,
}

/// What a `Cursor` holds.
pub struct CursorView {
    pub kind: Listing,
    pub pending: Option<Seq<char>>,
}

impl View for Cursor {
    type V = CursorView;

    closed spec fn view(&self) -> CursorView {
        CursorView { kind: self.kind, pending: text_view(self.pending) }
    }
}

/// The cursor after a page: it stands at the page's link, resolved, or at the end.
pub open spec fn after_page(c: CursorView, base_url: Seq<char>, page: PageView) -> CursorView {
    CursorView {
        kind: c.kind,
        pending: match page.next {
            Some(link) => Some(resolve(base_url, link)),
            None => None,
        },
    }
}

/// What a cursor makes of one response: where it stands afterwards, and the
/// items of the page or the error.
pub struct Turn {
    pub cursor: CursorView,
    pub result: Result<Seq<Seq<char>>, ErrorView>,
}

/// One turn of a cursor. A cursor at the end stays there and yields nothing; a
/// page moves the cursor on and yields its items; an error leaves the cursor
/// where it stands.
pub open spec fn turn(c: CursorView, base_url: Seq<char>, r: ResponseView) -> Turn {
    if c.pending.is_none() {
        Turn { cursor: c, result: Ok(Seq::empty()) }
    } else {
        match page_of(c.kind, r) {
            Ok(page) => Turn { cursor: after_page(c, base_url, page), result: Ok(page.items) },
            Err(e) => Turn { cursor: c, result: Err(e) },
        }
    }
}

/// The request that a cursor asks for: none at the end, else the signed `GET`
/// of the pending URL.
pub open spec fn cursor_request(c: CursorView, client: ClientView) -> Result<
    Option<RequestView>,
    ErrorView,
> {
    match c.pending {
        None => Ok(None),
        Some(url) => match checked_request(client, Method::Get, url) {
            Ok(request) => Ok(Some(request)),
            Err(e) => Err(e),
        },
    }
}

impl Cursor {
    /// A cursor at the first page of the catalog.
    pub fn catalog(client: &Client, limit: Option<u32>) -> (out: Cursor)
        ensures
            out@ == (CursorView {
                kind: Listing::Catalog,
                pending: Some(catalog_url(client@, limit)),
            }),
    {
        Cursor { kind: Listing::Catalog, pending: Some(client.catalog_url(limit)) }
    }

    /// A cursor at the first page of the tags of the repository `name`.
    pub fn tags(client: &Client, name: &str, limit: Option<u32>) -> (out: Cursor)
        ensures
            out@ == (CursorView {
                kind: Listing::Tags,
                pending: Some(tags_url(client@, name@, limit)),
            }),
    {
        Cursor { kind: Listing::Tags, pending: Some(client.tags_url(name, limit)) }
    }

    /// Whether the listing has ended.
    pub fn is_finished(&self) -> (out: bool)
        ensures
            out == self@.pending.is_none(),
    {
        self.pending.is_none()
    }

    /// The request for the next page, or `None` at the end of the listing.
    pub fn request(&self, client: &Client) -> (out: Result<Option<Request>, Error>)
        ensures
            step_view(out) == cursor_request(self@, client@),
    {
        match &self.pending {
            None => Ok(None),
            Some(url) => match client.request(Method::Get, url.clone()) {
                Ok(request) => Ok(Some(request)),
                Err(e) => Err(e),
            },
        }
    }

    /// Takes the response to the request that was asked for last, moves on, and
    /// returns the items of the page.
    pub fn accept(&mut self, client: &Client, response: &Response) -> (out: Result<
        Vec<String>,
        Error,
    >)
        ensures
            final(self)@ == turn(old(self)@, client@.base_url, response@).cursor,
            match out {
                Ok(items) => turn(old(self)@, client@.base_url, response@).result == Ok::<
                    Seq<Seq<char>>,
                    ErrorView,
                >(items.deep_view()),
                Err(e) => turn(old(self)@, client@.base_url, response@).result == Err::<
                    Seq<Seq<char>>,
                    ErrorView,
                >(e@),
            },
    {
        if self.pending.is_none() {
            let items: Vec<String> = Vec::new();
            assert(items.deep_view() =~= Seq::<Seq<char>>::empty());
            return Ok(items);
        }
        match read_page(self.kind, response) {
            Ok(page) => {
                self.pending = match &page.next {
                    Some(link) => Some(client.resolve(link.as_str())),
                    None => None,
                };
                Ok(page.items)
            },
            Err(e) => Err(e),
        }
    }
}

/// What following a cursor through a run of responses comes to.
pub struct Drained {
    pub cursor: CursorView,
    pub items: Seq<Seq<char>>,
    pub requests: nat,
}

/// Follows a cursor through `responses[from..]`: one request for each response
/// that is taken, until the cursor is at the end, a response is an error, or the
/// responses run out.
pub open spec fn drain(
    c: CursorView,
    base_url: Seq<char>,
    responses: Seq<ResponseView>,
    from: int,
) -> Drained
    decreases responses.len() - from,
{
    if c.pending.is_none() || from < 0 || from >= responses.len() {
        Drained { cursor: c, items: Seq::empty(), requests: 0 }
    } else {
        let t = turn(c, base_url, responses[from]);
        match t.result {
            Ok(items) => {
                let rest = drain(t.cursor, base_url, responses, from + 1);
                Drained {
                    cursor: rest.cursor,
                    items: items + rest.items,
                    requests: rest.requests + 1,
                }
            },
            Err(_) => Drained { cursor: c, items: Seq::empty(), requests: 1 },
        }
    }
}

/// The items of the pages `responses[from..]`, page after page.
pub open spec fn all_items(kind: Listing, responses: Seq<ResponseView>, from: int) -> Seq<
    Seq<char>,
>
    decreases responses.len() - from,
{
    if from < 0 || from >= responses.len() {
        Seq::empty()
    } else {
        match page_of(kind, responses[from]) {
            Ok(page) => page.items + all_items(kind, responses, from + 1),
            Err(_) => Seq::empty(),
        }
    }
}

/// Whether `responses[from..]` are the pages of one listing: every one is a page,
/// every one but the last links to a next page, and the last does not.
pub open spec fn is_listing(kind: Listing, responses: Seq<ResponseView>, from: int) -> bool {
    &&& 0 <= from < responses.len()
    &&& forall|i: int|
        from <= i < responses.len() ==> ((#[trigger] page_of(kind, responses[i])) matches Ok(
            page,
        ) && (page.next.is_some() <==> i < responses.len() - 1))
}

/// A listing of N pages is read with N requests, yields the items of every page
/// in page order, and leaves the cursor at the end.
pub proof fn lemma_drain_reads_every_page(
    c: CursorView,
    base_url: Seq<char>,
    responses: Seq<ResponseView>,
    from: int,
)
    requires
        c.pending.is_some(),
        is_listing(c.kind, responses, from),
    ensures
        drain(c, base_url, responses, from).items == all_items(c.kind, responses, from),
        drain(c, base_url, responses, from).requests == responses.len() - from,
        drain(c, base_url, responses, from).cursor.pending.is_none(),
    decreases responses.len() - from,
{
    assert(page_of(c.kind, responses[from]) is Ok);
    let page = page_of(c.kind, responses[from])->Ok_0;
    let next = turn(c, base_url, responses[from]).cursor;
    assert(next.kind == c.kind);
    if from < responses.len() - 1 {
        assert(page_of(c.kind, responses[from + 1]) is Ok);
        lemma_drain_reads_every_page(next, base_url, responses, from + 1);
    } else {
        assert(all_items(c.kind, responses, from + 1) =~= Seq::<Seq<char>>::empty());
    }
    assert(drain(c, base_url, responses, from).items =~= page.items + drain(
        next,
        base_url,
        responses,
        from + 1,
    ).items);
    assert(all_items(c.kind, responses, from) =~= page.items + all_items(
        c.kind,
        responses,
        from + 1,
    ));
}

} // verus!
