//! From a request to a reply: what the store is asked to do for each kind of
//! request, and what goes back to the caller.
//!
//! A request arrives here as plain values, already taken off the wire, and a
//! reply leaves as plain values, still to be put on it.

use vstd::prelude::*;
use vstd::string::StringExecFns;
use crate::binary64::Binary64;
use crate::db::{entries_view, Db, NotFoundError};
use crate::decimal::{decimal, parse_u64, parse_unsigned, push_decimal};
use crate::model::{created, deleted, is_listing, updated, Records};
use crate::record::{Data, DataView, Id, CHANCE_SCALE};
use crate::text::{same_text, starts_with};
use crate::value::{classify, DataValue, ValueView};

verus! {

/// One header line: a field and its value.
#[derive(Debug, Clone, PartialEq, Eq)]
pub struct Header {
    pub field: String,
    pub value: String,
}

/// What a [`Header`] holds, as mathematics.
pub struct HeaderView {
    pub field: Seq<char>,
    pub value: Seq<char>,
}

impl View for Header {
    type V = HeaderView;

    open spec fn view(&self) -> HeaderView {
        HeaderView { field: self.field@, value: self.value@ }
    }
}

/// A value as it came in: the text, and the text read as a double-precision
/// number where it is the notation of one.
#[derive(Debug, Clone, PartialEq, Eq)]
pub struct RawValue {
    pub text: String,
    pub number: Option<Binary64>,
}

/// What a [`RawValue`] holds, as mathematics.
pub struct RawValueView {
    pub text: Seq<char>,
    pub number: Option<Binary64>,
}

impl View for RawValue {
    type V = RawValueView;

    open spec fn view(&self) -> RawValueView {
        RawValueView { text: self.text@, number: self.number }
    }
}

impl RawValueView {
    /// The value that this stands for.
    pub open spec fn value(self) -> ValueView {
        classify(self.text, self.number)
    }
}

/// A request: the method and the path it names, and the three headers that
/// matter, where they were sent.
#[derive(Debug, Clone, PartialEq, Eq)]
pub struct Request {
    pub method: String,
    pub url: String,
    /// The header `Data`.
    pub data: Option<RawValue>,
    /// The header `Data-Id`.
    pub data_id: Option<String>,
    /// The header `New-Data`.
    pub new_data: Option<RawValue>,
}

/// What a [`Request`] holds, as mathematics.
pub struct RequestView {
    pub method: Seq<char>,
    pub url: Seq<char>,
    pub data: Option<RawValueView>,
    pub data_id: Option<Seq<char>>,
    pub new_data: Option<RawValueView>,
}

impl View for Request {
    type V = RequestView;

    open spec fn view(&self) -> RequestView {
        RequestView {
            method: self.method@,
            url: self.url@,
            data: match self.data {
                Some(raw) => Some(raw@),
                None => None,
            },
            data_id: match self.data_id {
                Some(text) => Some(text@),
                None => None,
            },
            new_data: match self.new_data {
                Some(raw) => Some(raw@),
                None => None,
            },
        }
    }
}

/// A reply: a status code, a body unless the reply is empty, and the headers
/// to send along, in order.
#[derive(Debug, Clone, PartialEq, Eq)]
pub struct Response {
    pub status_code: u16,
    pub body: Option<String>,
    pub headers: Vec<Header>,
}

/// What a [`Response`] holds, as mathematics.
pub struct ResponseView {
    pub status_code: u16,
    pub body: Option<Seq<char>>,
    pub headers: Seq<HeaderView>,
}

impl View for Response {
    type V = ResponseView;

    open spec fn view(&self) -> ResponseView {
        ResponseView {
            status_code: self.status_code,
            body: match self.body {
                Some(text) => Some(text@),
                None => None,
            },
            headers: self.headers@.map_values(|header: Header| header@),
        }
    }
}

/// The header that lets any origin read the reply.
pub open spec fn allow_origin() -> HeaderView {
    HeaderView { field: "Access-Control-Allow-Origin"@, value: "*"@ }
}

/// The header that lets any origin use any method.
pub open spec fn allow_methods() -> HeaderView {
    HeaderView { field: "Access-Control-Allow-Methods"@, value: "*"@ }
}

/// The header that lets any origin send any header.
pub open spec fn allow_headers() -> HeaderView {
    HeaderView { field: "Access-Control-Allow-Headers"@, value: "*"@ }
}

/// The header that announces a JSON body.
pub open spec fn content_json() -> HeaderView {
    HeaderView { field: "Content-Type"@, value: "application/json"@ }
}

/// The headers of a reply with a body: any origin may read it, and it is
/// announced as JSON where `json` says so.
pub open spec fn reply_headers(json: bool) -> Seq<HeaderView> {
    if json {
        seq![allow_origin(), content_json()]
    } else {
        seq![allow_origin()]
    }
}

/// The reply to a request that cannot be served, with the reason in `words`.
pub open spec fn failure(words: Seq<char>, json: bool) -> ResponseView {
    ResponseView {
        status_code: 400,
        body: Some("{ \"status\": \"error\", \"message\": \""@ + words + "\" }"@),
        headers: reply_headers(json),
    }
}

/// The reply to a request that was served, with `body`.
pub open spec fn success(body: Seq<char>) -> ResponseView {
    ResponseView { status_code: 200, body: Some(body), headers: reply_headers(true) }
}

/// The reply to a request for another path than the store's.
pub open spec fn wrong_path() -> ResponseView {
    ResponseView {
        status_code: 400,
        body: Some("{ \"status\": \"error\", \"message\": \"go to /db pls\" }"@),
        headers: Seq::<HeaderView>::empty(),
    }
}

/// The reply to a browser that asks what it may send: everything.
pub open spec fn preflight() -> ResponseView {
    ResponseView {
        status_code: 200,
        body: None,
        headers: seq![allow_origin(), allow_methods(), allow_headers()],
    }
}

/// The body that shows one value that was read.
pub open spec fn read_body(value: ValueView) -> Seq<char> {
    "{ \"status\": \"ok\", \"data\": "@ + value.render() + " }"@
}

/// One entry of a listing, as it is shown.
pub open spec fn entry_text(entry: (Id, DataView)) -> Seq<char> {
    "{ \"id\": "@ + decimal(entry.0 as nat) + ", \"data\": "@ + entry.1.value.render() + " } "@
}

/// The entries of a listing as they are shown, one after the other, a comma
/// between each two.
pub open spec fn entries_text(entries: Seq<(Id, DataView)>) -> Seq<char>
    decreases entries.len(),
{
    if entries.len() == 0 {
        Seq::<char>::empty()
    } else if entries.len() == 1 {
        entry_text(entries[0])
    } else {
        entries_text(entries.drop_last()) + ","@ + entry_text(entries.last())
    }
}

/// The body that shows a listing.
pub open spec fn list_body(entries: Seq<(Id, DataView)>) -> Seq<char> {
    "["@ + entries_text(entries) + "]"@
}

/// The value of the first of `headers` whose field is exactly `name`.
pub open spec fn first_header(headers: Seq<HeaderView>, name: Seq<char>) -> Option<Seq<char>>
    decreases headers.len(),
{
    if headers.len() == 0 {
        None
    } else if headers[0].field == name {
        Some(headers[0].value)
    } else {
        first_header(headers.drop_first(), name)
    }
}

/// The reply to a create request.
pub open spec fn create_reply(request: RequestView) -> ResponseView {
    match request.data {
        None => failure("Header: Data is required"@, false),
        Some(_) => success("{ \"status\": \"ok\" }"@),
    }
}

/// Whether `after` is what a create request makes of `before`: with a value,
/// one record of it under some identifier, its chance below the scale, and
/// nothing else changed; without one, nothing changed.
pub open spec fn create_effect(before: Records, request: RequestView, after: Records) -> bool {
    match request.data {
        None => after == before,
        Some(raw) => exists|id: Id|
            #![trigger after[id]]
            after.contains_key(id) && after[id].value == raw.value() && after[id].chance
                < CHANCE_SCALE && after == created(before, id, after[id]),
    }
}

/// The reply to a read request.
pub open spec fn read_reply(records: Records, request: RequestView) -> ResponseView {
    match request.data_id {
        None => failure("Header: Data-Id is required"@, false),
        Some(text) => match parse_unsigned(text) {
            None => failure("Invalid Id"@, false),
            Some(id) => if records.contains_key(id) {
                success(read_body(records[id].value))
            } else {
                failure("Cannot read data with that id"@, false)
            },
        },
    }
}

/// The reply that tells of a record that is not there: the words of the
/// error, bare.
pub open spec fn not_found(id: Id) -> ResponseView {
    ResponseView {
        status_code: 400,
        body: Some(NotFoundError { id }.text()),
        headers: reply_headers(true),
    }
}

/// The record that an update request names and the value that it brings,
/// where it holds both and the record is live.
pub open spec fn update_target(records: Records, request: RequestView) -> Option<(Id, ValueView)> {
    match (request.data_id, request.new_data) {
        (Some(text), Some(raw)) => match parse_unsigned(text) {
            Some(id) => if records.contains_key(id) {
                Some((id, raw.value()))
            } else {
                None
            },
            None => None,
        },
        _ => None,
    }
}

/// The reply to an update request.
pub open spec fn update_reply(records: Records, request: RequestView) -> ResponseView {
    match request.data_id {
        None => failure("Header: Data-Id is required"@, true),
        Some(text) => match parse_unsigned(text) {
            None => failure("Invalid Id"@, true),
            Some(id) => match request.new_data {
                None => failure("Header: New-Data is required"@, true),
                Some(_) => if records.contains_key(id) {
                    success("{ \"status\": \"ok\" }"@)
                } else {
                    not_found(id)
                },
            },
        },
    }
}

/// Whether `after` is what an update request makes of `before`: the record
/// it names replaced by one of the new value, its chance below the scale, and
/// nothing else changed; or nothing changed at all where the request names no
/// live record or brings no value.
pub open spec fn update_effect(before: Records, request: RequestView, after: Records) -> bool {
    match update_target(before, request) {
        None => after == before,
        Some((id, value)) => after.contains_key(id) && after[id].value == value
            && after[id].chance < CHANCE_SCALE && after == updated(before, id, after[id]),
    }
}

/// The reply to a delete request.
pub open spec fn delete_reply(records: Records, request: RequestView) -> ResponseView {
    match request.data_id {
        None => failure("Header: Data-Id is required"@, true),
        Some(text) => match parse_unsigned(text) {
            None => failure("Invalid Id"@, true),
            Some(id) => if records.contains_key(id) {
                success("{ \"status\": \"ok\" }"@)
            } else {
                not_found(id)
            },
        },
    }
}

/// The records after a delete request.
pub open spec fn delete_effect(before: Records, request: RequestView) -> Records {
    match request.data_id {
        None => before,
        Some(text) => match parse_unsigned(text) {
            None => before,
            Some(id) => deleted(before, id),
        },
    }
}

/// Whether `reply` shows a listing of `records`, in some order.
pub open spec fn list_reply(records: Records, reply: ResponseView) -> bool {
    exists|entries: Seq<(Id, DataView)>|
        is_listing(records, entries) && reply == success(#[trigger] list_body(entries))
}

/// Whether `after` and `reply` are what a request to the store makes of
/// `before`. A request for another path is turned away; one with a method
/// that the store does not know gets no reply at all.
pub open spec fn handled(
    before: Records,
    request: RequestView,
    after: Records,
    reply: Option<ResponseView>,
) -> bool {
    if !"/db"@.is_prefix_of(request.url) {
        after == before && reply == Some(wrong_path())
    } else if request.method == "CREATE"@ {
        create_effect(before, request, after) && reply == Some(create_reply(request))
    } else if request.method == "READ"@ {
        after == before && reply == Some(read_reply(before, request))
    } else if request.method == "LIST"@ {
        after == before && reply is Some && list_reply(before, reply->0)
    } else if request.method == "UPDATE"@ {
        update_effect(before, request, after) && reply == Some(update_reply(before, request))
    } else if request.method == "DELETE"@ {
        after == delete_effect(before, request) && reply == Some(delete_reply(before, request))
    } else {
        after == before && reply is None
    }
}

/// The reply to a request before it reaches the store: a browser's question
/// of what it may send is answered at once, any other request is not.
pub open spec fn early_reply(request: RequestView) -> Option<ResponseView> {
    if request.method == "OPTIONS"@ {
        Some(preflight())
    } else {
        None
    }
}

impl Header {
    /// The header with the given field and value.
    pub fn new(field: &str, value: &str) -> (header: Self)
        ensures
            header@ == (HeaderView { field: field@, value: value@ }),
    {
        Header { field: String::from_str(field), value: String::from_str(value) }
    }
}

impl RawValue {
    /// The value that this stands for.
    pub fn into_value(self) -> (value: DataValue)
        ensures
            value@ == self@.value(),
    {
        DataValue::from_string(self.text, self.number)
    }
}

/// The value of the first of `headers` whose field is exactly `name`.
pub fn header_value(headers: &Vec<Header>, name: &str) -> (found: Option<String>)
    ensures
        match found {
            Some(value) => Some(value@),
            None => None,
        } == first_header(headers@.map_values(|header: Header| header@), name@),
{
    let ghost all = headers@.map_values(|header: Header| header@);
    let mut i: usize = 0;
    assert(all.skip(0) == all);
    while i < headers.len()
        invariant
            i <= headers.len(),
            all == headers@.map_values(|header: Header| header@),
            first_header(all, name@) == first_header(all.skip(i as int), name@),
        decreases headers.len() - i,
    {
        let ghost rest = all.skip(i as int);
        assert(rest[0] == headers@[i as int]@);
        assert(rest.drop_first() == all.skip(i + 1));
        if same_text(headers[i].field.as_str(), name) {
            return Some(headers[i].value.clone());
        }
        i = i + 1;
    }
    assert(all.skip(i as int).len() == 0);
    None
}

fn reply(status_code: u16, body: String, json: bool) -> (response: Response)
    ensures
        response@ == (ResponseView {
            status_code,
            body: Some(body@),
            headers: reply_headers(json),
        }),
{
    let mut headers: Vec<Header> = Vec::new();
    headers.push(Header::new("Access-Control-Allow-Origin", "*"));
    if json {
        headers.push(Header::new("Content-Type", "application/json"));
    }
    assert(headers@.map_values(|header: Header| header@) == reply_headers(json));
    Response { status_code, body: Some(body), headers }
}

fn fail(words: &str, json: bool) -> (response: Response)
    ensures
        response@ == failure(words@, json),
{
    let mut body = String::from_str("{ \"status\": \"error\", \"message\": \"");
    body.append(words);
    body.append("\" }");
    reply(400, body, json)
}

fn succeed(body: String) -> (response: Response)
    ensures
        response@ == success(body@),
{
    reply(200, body, true)
}

/// The body that shows a listing.
pub fn render_list(entries: &Vec<(&Id, &Data)>) -> (body: String)
    ensures
        body@ == list_body(entries_view(entries@)),
{
    let ghost shown = entries_view(entries@);
    let mut body = String::from_str("[");
    let mut i: usize = 0;
    assert(shown.take(0).len() == 0);
    assert(body@ == "["@ + entries_text(shown.take(0)));
    while i < entries.len()
        invariant
            i <= entries.len(),
            shown == entries_view(entries@),
            body@ == "["@ + entries_text(shown.take(i as int)),
        decreases entries.len() - i,
    {
        let ghost before = shown.take(i as int);
        let ghost after = shown.take(i + 1);
        let ghost entry = shown[i as int];
        assert(after.drop_last() == before);
        assert(after.last() == entry);
        let ghost start = body@;
        if i > 0 {
            body.append(",");
        }
        body.append("{ \"id\": ");
        push_decimal(&mut body, *entries[i].0);
        body.append(", \"data\": ");
        entries[i].1.value.push_rendered(&mut body);
        body.append(" } ");
        assert(body@ == start + (if i > 0 {
            ","@
        } else {
            Seq::<char>::empty()
        }) + entry_text(entry));
        assert(body@ == "["@ + entries_text(after));
        i = i + 1;
    }
    assert(shown.take(i as int) == shown);
    body.append("]");
    body
}

/// Serves a create request: stores the value that came in the header `Data`.
pub fn handle_create(request: Request, db: &mut Db) -> (response: Response)
    ensures
        response@ == create_reply(request@),
        create_effect(old(db)@, request@, final(db)@),
{
    match request.data {
        None => fail("Header: Data is required", false),
        Some(raw) => {
            let id = db.create(raw.into_value());
            assert(db@[id].value == request@.data->0.value());
            succeed(String::from_str("{ \"status\": \"ok\" }"))
        },
    }
}

/// Serves a read request: shows the value of the record that the header
/// `Data-Id` names.
pub fn handle_read(request: Request, db: &Db) -> (response: Response)
    ensures
        response@ == read_reply(db@, request@),
{
    let text = match request.data_id {
        Some(text) => text,
        None => {
            return fail("Header: Data-Id is required", false);
        },
    };
    let id: Id = match parse_u64(text.as_str()) {
        Some(id) => id,
        None => {
            return fail("Invalid Id", false);
        },
    };
    match db.read(id) {
        Some(data) => {
            let mut body = String::from_str("{ \"status\": \"ok\", \"data\": ");
            data.value.push_rendered(&mut body);
            body.append(" }");
            succeed(body)
        },
        None => fail("Cannot read data with that id", false),
    }
}

/// Serves a list request: shows every live record.
pub fn handle_list(db: &Db) -> (response: Response)
    ensures
        list_reply(db@, response@),
{
    let entries = db.list();
    let response = succeed(render_list(&entries));
    assert(response@ == success(list_body(entries_view(entries@))));
    response
}

/// Serves an update request: replaces the record that the header `Data-Id`
/// names by one of the value that came in the header `New-Data`.
pub fn handle_update(request: Request, db: &mut Db) -> (response: Response)
    ensures
        response@ == update_reply(old(db)@, request@),
        update_effect(old(db)@, request@, final(db)@),
{
    let text = match request.data_id {
        Some(text) => text,
        None => {
            return fail("Header: Data-Id is required", true);
        },
    };
    let id: Id = match parse_u64(text.as_str()) {
        Some(id) => id,
        None => {
            return fail("Invalid Id", true);
        },
    };
    let raw = match request.new_data {
        Some(raw) => raw,
        None => {
            return fail("Header: New-Data is required", true);
        },
    };
    match db.update(id, raw.into_value()) {
        Ok(_) => succeed(String::from_str("{ \"status\": \"ok\" }")),
        Err(error) => reply(400, error.message(), true),
    }
}

/// Serves a delete request: removes the record that the header `Data-Id`
/// names.
pub fn handle_delete(request: Request, db: &mut Db) -> (response: Response)
    ensures
        response@ == delete_reply(old(db)@, request@),
        final(db)@ == delete_effect(old(db)@, request@),
{
    let text = match request.data_id {
        Some(text) => text,
        None => {
            return fail("Header: Data-Id is required", true);
        },
    };
    let id: Id = match parse_u64(text.as_str()) {
        Some(id) => id,
        None => {
            return fail("Invalid Id", true);
        },
    };
    match db.delete(id) {
        Ok(_) => succeed(String::from_str("{ \"status\": \"ok\" }")),
        Err(error) => reply(400, error.message(), true),
    }
}

/// Serves a request to the store, by its method. A request for another path
/// than the store's is turned away; one with a method that the store does not
/// know gets no reply.
pub fn handle_request(request: Request, db: &mut Db) -> (response: Option<Response>)
    ensures
        handled(
            old(db)@,
            request@,
            final(db)@,
            match response {
                Some(reply) => Some(reply@),
                None => None,
            },
        ),
{
    if !starts_with(request.url.as_str(), "/db") {
        let mut body = String::from_str("{ \"status\": \"error\", \"message\": \"go to /db pls\" }");
        let response = Response { status_code: 400, body: Some(body), headers: Vec::new() };
        assert(response@.headers == Seq::<HeaderView>::empty());
        return Some(response);
    }
    if same_text(request.method.as_str(), "CREATE") {
        Some(handle_create(request, db))
    } else if same_text(request.method.as_str(), "READ") {
        Some(handle_read(request, db))
    } else if same_text(request.method.as_str(), "LIST") {
        Some(handle_list(db))
    } else if same_text(request.method.as_str(), "UPDATE") {
        Some(handle_update(request, db))
    } else if same_text(request.method.as_str(), "DELETE") {
        Some(handle_delete(request, db))
    } else {
        None
    }
}

/// Answers a browser's question of what it may send, without a look at the
/// store. Any other request gets `None` here and goes on to
/// [`handle_request`].
pub fn answer_early(request: &Request) -> (response: Option<Response>)
    ensures
        early_reply(request@) == match response {
            Some(reply) => Some(reply@),
            None => None,
        },
{
    if same_text(request.method.as_str(), "OPTIONS") {
        let mut headers: Vec<Header> = Vec::new();
        headers.push(Header::new("Access-Control-Allow-Origin", "*"));
        headers.push(Header::new("Access-Control-Allow-Methods", "*"));
        headers.push(Header::new("Access-Control-Allow-Headers", "*"));
        let response = Response { status_code: 200, body: None, headers };
        assert(response@.headers == preflight().headers);
        Some(response)
    } else {
        None
    }
}

} // verus!
