use forgetful_db::adapter::{
    answer_early, handle_create, handle_delete, handle_list, handle_read, handle_request,
    handle_update, header_value, render_list, Header, RawValue, Request, Response,
};
use forgetful_db::{Binary64, Data, DataValue, Db, CHANCE_SCALE};

fn raw(text: &str) -> RawValue {
    RawValue {
        text: text.to_string(),
        number: text.parse::<f64>().ok().map(|v| Binary64::from_bits(v.to_bits())),
    }
}

fn request(method: &str, url: &str) -> Request {
    Request {
        method: method.to_string(),
        url: url.to_string(),
        data: None,
        data_id: None,
        new_data: None,
    }
}

fn with_id(mut request: Request, id: &str) -> Request {
    request.data_id = Some(id.to_string());
    request
}

fn header(field: &str, value: &str) -> Header {
    Header { field: field.to_string(), value: value.to_string() }
}

fn plain(status_code: u16, body: &str) -> Response {
    Response {
        status_code,
        body: Some(body.to_string()),
        headers: vec![header("Access-Control-Allow-Origin", "*")],
    }
}

fn json(status_code: u16, body: &str) -> Response {
    Response {
        status_code,
        body: Some(body.to_string()),
        headers: vec![
            header("Access-Control-Allow-Origin", "*"),
            header("Content-Type", "application/json"),
        ],
    }
}

fn store() -> Db {
    let mut db = Db::new();
    db.create_with(1, Data { value: DataValue::Int(42), chance: 7 });
    db
}

#[test]
fn a_header_is_made_of_field_and_value() {
    assert_eq!(Header::new("Data", "5"), header("Data", "5"));
}

#[test]
fn the_first_header_of_the_name_counts() {
    let headers = vec![
        header("Host", "example"),
        header("data", "lower"),
        header("Data", "first"),
        header("Data", "second"),
        header("Data-Id", "9"),
    ];
    assert_eq!(header_value(&headers, "Data"), Some("first".to_string()));
    assert_eq!(header_value(&headers, "Data-Id"), Some("9".to_string()));
    assert_eq!(header_value(&headers, "New-Data"), None);
    assert_eq!(header_value(&headers, "DATA"), None);
    assert_eq!(header_value(&Vec::new(), "Data"), None);
}

#[test]
fn a_raw_value_becomes_a_value() {
    assert_eq!(raw("42").into_value(), DataValue::Int(42));
    assert_eq!(raw("true").into_value(), DataValue::Bool(true));
    assert_eq!(raw("x").into_value(), DataValue::String("x".to_string()));
}

#[test]
fn a_preflight_question_is_answered_at_once() {
    let reply = answer_early(&request("OPTIONS", "/anything"));
    assert_eq!(
        reply,
        Some(Response {
            status_code: 200,
            body: None,
            headers: vec![
                header("Access-Control-Allow-Origin", "*"),
                header("Access-Control-Allow-Methods", "*"),
                header("Access-Control-Allow-Headers", "*"),
            ],
        })
    );
    assert_eq!(answer_early(&request("READ", "/db")), None);
    assert_eq!(answer_early(&request("options", "/db")), None);
}

#[test]
fn a_request_for_another_path_is_turned_away() {
    let mut db = store();
    let reply = handle_request(request("READ", "/other"), &mut db);
    assert_eq!(
        reply,
        Some(Response {
            status_code: 400,
            body: Some("{ \"status\": \"error\", \"message\": \"go to /db pls\" }".to_string()),
            headers: Vec::new(),
        })
    );
    assert!(handle_request(request("CREATE", "/d"), &mut db).is_some());
    assert!(handle_request(request("CREATE", ""), &mut db).is_some());
    assert_eq!(db.len(), 1);
}

#[test]
fn a_path_that_starts_like_the_stores_is_served() {
    let mut db = store();
    let reply = handle_request(with_id(request("READ", "/dbx/y?z"), "1"), &mut db);
    assert_eq!(reply, Some(json(200, "{ \"status\": \"ok\", \"data\": 42 }")));
}

#[test]
fn an_unknown_method_gets_no_reply() {
    let mut db = store();
    assert_eq!(handle_request(request("GET", "/db"), &mut db), None);
    assert_eq!(handle_request(request("create", "/db"), &mut db), None);
    assert_eq!(handle_request(request("", "/db"), &mut db), None);
    assert_eq!(db.len(), 1);
}

#[test]
fn a_request_goes_to_the_handler_of_its_method() {
    let mut db = Db::new();
    let mut create = request("CREATE", "/db");
    create.data = Some(raw("hello"));
    assert_eq!(handle_request(create, &mut db), Some(json(200, "{ \"status\": \"ok\" }")));
    assert_eq!(db.len(), 1);
    let id = *db.list()[0].0;
    let shown = format!("[{{ \"id\": {}, \"data\": \"hello\" }} ]", id);
    assert_eq!(handle_request(request("LIST", "/db"), &mut db), Some(json(200, &shown)));
    let mut update = with_id(request("UPDATE", "/db"), &id.to_string());
    update.new_data = Some(raw("2.5"));
    assert_eq!(handle_request(update, &mut db), Some(json(200, "{ \"status\": \"ok\" }")));
    let read = with_id(request("READ", "/db"), &id.to_string());
    assert_eq!(
        handle_request(read, &mut db),
        Some(json(200, "{ \"status\": \"ok\", \"data\": 2.500 }"))
    );
    let delete = with_id(request("DELETE", "/db"), &id.to_string());
    assert_eq!(handle_request(delete, &mut db), Some(json(200, "{ \"status\": \"ok\" }")));
    assert_eq!(db.len(), 0);
}

#[test]
fn create_stores_the_value() {
    let mut db = Db::new();
    let mut create = request("CREATE", "/db");
    create.data = Some(raw("3.5"));
    assert_eq!(handle_create(create, &mut db), json(200, "{ \"status\": \"ok\" }"));
    let entries = db.list();
    assert_eq!(entries.len(), 1);
    assert_eq!(entries[0].1.value, DataValue::Float(Binary64::from_bits(3.5f64.to_bits())));
    assert!(entries[0].1.chance < CHANCE_SCALE);
}

#[test]
fn create_needs_a_value() {
    let mut db = Db::new();
    let reply = handle_create(with_id(request("CREATE", "/db"), "1"), &mut db);
    assert_eq!(
        reply,
        plain(400, "{ \"status\": \"error\", \"message\": \"Header: Data is required\" }")
    );
    assert_eq!(db.len(), 0);
}

#[test]
fn read_shows_the_value() {
    let mut db = store();
    db.create_with(2, Data { value: DataValue::String("a \"b\"".to_string()), chance: 0 });
    db.create_with(3, Data { value: DataValue::Bool(false), chance: 0 });
    assert_eq!(
        handle_read(with_id(request("READ", "/db"), "1"), &db),
        json(200, "{ \"status\": \"ok\", \"data\": 42 }")
    );
    assert_eq!(
        handle_read(with_id(request("READ", "/db"), "+2"), &db),
        json(200, "{ \"status\": \"ok\", \"data\": \"a \"b\"\" }")
    );
    assert_eq!(
        handle_read(with_id(request("READ", "/db"), "003"), &db),
        json(200, "{ \"status\": \"ok\", \"data\": false }")
    );
}

#[test]
fn read_needs_an_identifier() {
    let db = store();
    assert_eq!(
        handle_read(request("READ", "/db"), &db),
        plain(400, "{ \"status\": \"error\", \"message\": \"Header: Data-Id is required\" }")
    );
    for id in ["", "one", "-1", "1.0", " 1", "18446744073709551616"] {
        assert_eq!(
            handle_read(with_id(request("READ", "/db"), id), &db),
            plain(400, "{ \"status\": \"error\", \"message\": \"Invalid Id\" }"),
            "{:?}",
            id
        );
    }
}

#[test]
fn read_of_nothing_fails() {
    let db = store();
    assert_eq!(
        handle_read(with_id(request("READ", "/db"), "2"), &db),
        plain(400, "{ \"status\": \"error\", \"message\": \"Cannot read data with that id\" }")
    );
}

#[test]
fn an_empty_listing() {
    let db = Db::new();
    assert_eq!(handle_list(&db), json(200, "[]"));
    assert_eq!(render_list(&Vec::new()), "[]");
}

#[test]
fn a_listing_of_one() {
    let db = store();
    assert_eq!(handle_list(&db), json(200, "[{ \"id\": 1, \"data\": 42 } ]"));
}

#[test]
fn a_listing_of_several() {
    let ids = [5u64, 3, 18446744073709551615];
    let records = [
        Data { value: DataValue::Int(-1), chance: 1 },
        Data { value: DataValue::String("x".to_string()), chance: 2 },
        Data { value: DataValue::Bool(true), chance: 3 },
    ];
    let entries = vec![(&ids[0], &records[0]), (&ids[1], &records[1]), (&ids[2], &records[2])];
    assert_eq!(
        render_list(&entries),
        "[{ \"id\": 5, \"data\": -1 } ,{ \"id\": 3, \"data\": \"x\" } ,\
         { \"id\": 18446744073709551615, \"data\": true } ]"
    );
}

#[test]
fn a_listing_shows_every_record_in_some_order() {
    let mut db = store();
    db.create_with(2, Data { value: DataValue::Bool(true), chance: 0 });
    let reply = handle_list(&db);
    let one_way = json(200, "[{ \"id\": 1, \"data\": 42 } ,{ \"id\": 2, \"data\": true } ]");
    let other_way = json(200, "[{ \"id\": 2, \"data\": true } ,{ \"id\": 1, \"data\": 42 } ]");
    assert!(reply == one_way || reply == other_way, "{:?}", reply);
}

#[test]
fn update_replaces_the_value() {
    let mut db = store();
    let mut update = with_id(request("UPDATE", "/db"), "1");
    update.new_data = Some(raw("true"));
    assert_eq!(handle_update(update, &mut db), json(200, "{ \"status\": \"ok\" }"));
    let found = db.read(1).expect("the record is live");
    assert_eq!(found.value, DataValue::Bool(true));
    assert!(found.chance < CHANCE_SCALE);
    assert_eq!(db.len(), 1);
}

#[test]
fn update_needs_an_identifier_and_a_value() {
    let mut db = store();
    let mut no_id = request("UPDATE", "/db");
    no_id.new_data = Some(raw("1"));
    assert_eq!(
        handle_update(no_id, &mut db),
        json(400, "{ \"status\": \"error\", \"message\": \"Header: Data-Id is required\" }")
    );
    let mut bad_id = with_id(request("UPDATE", "/db"), "x");
    bad_id.new_data = Some(raw("1"));
    assert_eq!(
        handle_update(bad_id, &mut db),
        json(400, "{ \"status\": \"error\", \"message\": \"Invalid Id\" }")
    );
    assert_eq!(
        handle_update(with_id(request("UPDATE", "/db"), "x"), &mut db),
        json(400, "{ \"status\": \"error\", \"message\": \"Invalid Id\" }")
    );
    assert_eq!(
        handle_update(with_id(request("UPDATE", "/db"), "1"), &mut db),
        json(400, "{ \"status\": \"error\", \"message\": \"Header: New-Data is required\" }")
    );
    assert_eq!(
        handle_update(with_id(request("UPDATE", "/db"), "2"), &mut db),
        json(400, "{ \"status\": \"error\", \"message\": \"Header: New-Data is required\" }")
    );
    assert_eq!(db.read(1), Some(&Data { value: DataValue::Int(42), chance: 7 }));
    assert_eq!(db.len(), 1);
}

#[test]
fn update_of_nothing_fails_and_creates_nothing() {
    let mut db = store();
    let mut update = with_id(request("UPDATE", "/db"), "2");
    update.new_data = Some(raw("1"));
    assert_eq!(handle_update(update, &mut db), json(400, "no data with id 2"));
    assert_eq!(db.read(2), None);
    assert_eq!(db.len(), 1);
}

#[test]
fn delete_removes_the_record() {
    let mut db = store();
    assert_eq!(
        handle_delete(with_id(request("DELETE", "/db"), "1"), &mut db),
        json(200, "{ \"status\": \"ok\" }")
    );
    assert_eq!(db.len(), 0);
    assert_eq!(
        handle_delete(with_id(request("DELETE", "/db"), "1"), &mut db),
        json(400, "no data with id 1")
    );
}

#[test]
fn delete_needs_an_identifier() {
    let mut db = store();
    assert_eq!(
        handle_delete(request("DELETE", "/db"), &mut db),
        json(400, "{ \"status\": \"error\", \"message\": \"Header: Data-Id is required\" }")
    );
    assert_eq!(
        handle_delete(with_id(request("DELETE", "/db"), "1x"), &mut db),
        json(400, "{ \"status\": \"error\", \"message\": \"Invalid Id\" }")
    );
    assert_eq!(db.len(), 1);
}
