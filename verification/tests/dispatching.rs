use rusty_stub_api::data::app::{AppState, EndpointHandler};
use rusty_stub_api::data::cli_args::Args;
use rusty_stub_api::data::reply::{EndpointListing, EndpointSummary, Resolution};
use rusty_stub_api::document::{Declared, Operation, PathItem, Response, SpecDocument};
use rusty_stub_api::status::{read_status, status_of};
use rusty_stub_api::transactions::{
    api_redirect, compile_document, dispatch, dynamic_handler, list_endpoints, reply,
    strip_api_prefix,
};

fn endpoint(path: &str, method: &str, code: &str, body: &str, params: &[&str]) -> EndpointHandler {
    EndpointHandler {
        path: path.to_string(),
        method: method.to_string(),
        response_code: code.to_string(),
        response_body: body.to_string(),
        path_params: params.iter().map(|name| name.to_string()).collect(),
    }
}

fn served(status_code: u16, body: &str) -> Resolution {
    Resolution::Reply { status_code, body: body.to_string() }
}

fn missing(path: &str, method: &str) -> Resolution {
    Resolution::NotFound { path: path.to_string(), method: method.to_string() }
}

fn inline(example: Option<&str>) -> Declared<Response> {
    Declared::Inline(Response {
        content: vec![("application/json".to_string(), example.map(|text| text.to_string()))],
    })
}

fn path_with(method: &str, responses: Vec<(&str, Declared<Response>)>) -> PathItem {
    let declared = Some(Operation {
        responses: responses
            .into_iter()
            .map(|(code, response)| (code.to_string(), response))
            .collect(),
    });
    let mut item = PathItem {
        get: None,
        put: None,
        post: None,
        delete: None,
        options: None,
        head: None,
        patch: None,
        trace: None,
    };
    match method {
        "get" => item.get = declared,
        "put" => item.put = declared,
        "post" => item.post = declared,
        "delete" => item.delete = declared,
        "patch" => item.patch = declared,
        other => panic!("no such method: {}", other),
    }
    item
}

fn pet_store() -> SpecDocument {
    SpecDocument {
        paths: vec![(
            "/pets/{petId}".to_string(),
            Declared::Inline(path_with("get", vec![("200", inline(Some("{\"name\":\"Rex\"}")))])),
        )],
    }
}

#[test]
fn pet_is_served_and_the_rest_is_not_found() {
    let table = compile_document(&pet_store());
    assert_eq!(dispatch(&table, "get", "/pets/42"), served(200, "{\"name\":\"Rex\"}"));
    assert_eq!(dispatch(&table, "get", "/pets"), missing("/pets", "get"));
    assert_eq!(dispatch(&table, "post", "/pets/42"), missing("/pets/42", "post"));
}

#[test]
fn method_is_taken_in_lowercase() {
    let table = compile_document(&pet_store());
    assert_eq!(dispatch(&table, "GET", "/pets/42"), served(200, "{\"name\":\"Rex\"}"));
    assert_eq!(dispatch(&table, "Get", "/pets/42"), served(200, "{\"name\":\"Rex\"}"));
    assert_eq!(dispatch(&table, "POST", "/pets/42"), missing("/pets/42", "post"));
    assert_eq!(dispatch(&table, "DÉLÈTE", "/x"), missing("/x", "délète"));
}

#[test]
fn record_method_is_compared_as_stored() {
    let table = vec![endpoint("/pets", "GET", "200", "1", &[])];
    assert_eq!(dispatch(&table, "GET", "/pets"), missing("/pets", "get"));
    assert_eq!(dispatch(&table, "get", "/pets"), missing("/pets", "get"));
}

#[test]
fn first_declared_status_wins() {
    let document = SpecDocument {
        paths: vec![(
            "/users/{id}".to_string(),
            Declared::Inline(path_with(
                "get",
                vec![
                    ("200", inline(Some("{\"ok\":true}"))),
                    ("404", inline(Some("{\"ok\":false}"))),
                ],
            )),
        )],
    };
    let table = compile_document(&document);
    assert_eq!(table.len(), 2);
    for path in ["/users/1", "/users/none", "/users/404", "/users/%20"] {
        assert_eq!(dispatch(&table, "get", path), served(200, "{\"ok\":true}"));
    }
    let reversed = SpecDocument {
        paths: vec![(
            "/users/{id}".to_string(),
            Declared::Inline(path_with(
                "get",
                vec![
                    ("404", inline(Some("{\"ok\":false}"))),
                    ("200", inline(Some("{\"ok\":true}"))),
                ],
            )),
        )],
    };
    assert_eq!(
        dispatch(&compile_document(&reversed), "get", "/users/1"),
        served(404, "{\"ok\":false}")
    );
}

#[test]
fn earlier_record_wins_over_a_later_one() {
    let table = vec![
        endpoint("/pets/{id}", "get", "200", "\"any\"", &["id"]),
        endpoint("/pets/mine", "get", "200", "\"mine\"", &[]),
        endpoint("/pets/{id}", "post", "201", "\"made\"", &["id"]),
    ];
    assert_eq!(dispatch(&table, "get", "/pets/mine"), served(200, "\"any\""));
    assert_eq!(dispatch(&table, "post", "/pets/mine"), served(201, "\"made\""));
    let other_order = vec![table[1].clone(), table[0].clone()];
    assert_eq!(dispatch(&other_order, "get", "/pets/mine"), served(200, "\"mine\""));
    assert_eq!(dispatch(&other_order, "get", "/pets/yours"), served(200, "\"any\""));
}

#[test]
fn patch_only_operation_is_never_found() {
    let document = SpecDocument {
        paths: vec![(
            "/pets".to_string(),
            Declared::Inline(path_with("patch", vec![("200", inline(Some("1")))])),
        )],
    };
    let table = compile_document(&document);
    assert!(table.is_empty());
    assert_eq!(dispatch(&table, "patch", "/pets"), missing("/pets", "patch"));
    assert_eq!(dispatch(&table, "PATCH", "/pets"), missing("/pets", "patch"));
    assert_eq!(dispatch(&table, "get", "/pets"), missing("/pets", "get"));
}

#[test]
fn empty_table_finds_nothing() {
    assert_eq!(dispatch(&Vec::new(), "get", "/"), missing("/", "get"));
    assert_eq!(dispatch(&Vec::new(), "", ""), missing("", ""));
}

#[test]
fn record_with_a_refused_pattern_is_passed_over() {
    let table = vec![
        endpoint("/pets/{", "get", "200", "\"broken\"", &[]),
        endpoint("/pets/{id}", "get", "200", "\"fine\"", &["id"]),
    ];
    assert_eq!(dispatch(&table, "get", "/pets/{"), served(200, "\"fine\""));
}

#[test]
fn repeated_dispatch_gives_the_same_answer() {
    let table = compile_document(&pet_store());
    for (method, path) in [("get", "/pets/42"), ("get", "/pets"), ("put", "/pets/42")] {
        let first = dispatch(&table, method, path);
        for _ in 0..5 {
            assert_eq!(dispatch(&table, method, path), first);
        }
    }
}

#[test]
fn status_code_that_is_no_number_is_served_as_200() {
    let table = vec![
        endpoint("/a", "get", "2XX", "1", &[]),
        endpoint("/b", "get", "default", "2", &[]),
    ];
    assert_eq!(dispatch(&table, "get", "/a"), served(200, "1"));
    assert_eq!(dispatch(&table, "get", "/b"), served(200, "2"));
    assert_eq!(reply(&endpoint("/c", "get", "503", "3", &[])), served(503, "3"));
    assert_eq!(reply(&endpoint("/c", "get", "", "3", &[])), served(200, "3"));
}

#[test]
fn status_numbers() {
    assert_eq!(read_status("200"), Some(200));
    assert_eq!(read_status("404"), Some(404));
    assert_eq!(read_status("0"), Some(0));
    assert_eq!(read_status("007"), Some(7));
    assert_eq!(read_status("+201"), Some(201));
    assert_eq!(read_status("65535"), Some(65535));
    assert_eq!(read_status("0000065535"), Some(65535));
    assert_eq!(read_status("65536"), None);
    assert_eq!(read_status("99999999999999999999999"), None);
    assert_eq!(read_status(""), None);
    assert_eq!(read_status("+"), None);
    assert_eq!(read_status("-1"), None);
    assert_eq!(read_status("++1"), None);
    assert_eq!(read_status("2XX"), None);
    assert_eq!(read_status(" 200"), None);
    assert_eq!(read_status("200 "), None);
    assert_eq!(read_status("２００"), None);
    assert_eq!(status_of("418"), 418);
    assert_eq!(status_of("4XX"), 200);
    assert_eq!(status_of("70000"), 200);
}

#[test]
fn status_numbers_agree_with_the_standard_parser() {
    let samples = [
        "", "+", "-", "0", "+0", "-0", "00", "1", "12", "123", "1234", "12345", "123456", "65535",
        "65536", "65534", "+65535", "+65536", "099", "1e3", "0x10", "1_000", "١٢٣", "200\n",
        "\t200", "+-1", "4294967296", "18446744073709551616",
    ];
    for sample in samples {
        assert_eq!(read_status(sample), sample.parse::<u16>().ok(), "{:?}", sample);
    }
    for number in 0..=u16::MAX {
        assert_eq!(read_status(&number.to_string()), Some(number));
    }
}

#[test]
fn api_prefix_is_taken_off() {
    assert_eq!(strip_api_prefix("/api/pets/1"), "/pets/1");
    assert_eq!(strip_api_prefix("/api"), "");
    assert_eq!(strip_api_prefix("/api/api/pets"), "/pets");
    assert_eq!(strip_api_prefix("/api/apiary"), "ary");
    assert_eq!(strip_api_prefix("/api/pi"), "/pi");
    assert_eq!(strip_api_prefix("/apiapi"), "api");
    assert_eq!(strip_api_prefix("/pets/api"), "/pets/api");
    assert_eq!(strip_api_prefix("/ap"), "/ap");
    assert_eq!(strip_api_prefix(""), "");
    let paths = ["/api/pets", "/api/api", "/API/x", "/api//api", "api/x", "/apI/api", "/api/apiary"];
    for path in paths {
        assert_eq!(strip_api_prefix(path), path.trim_start_matches("/api"));
    }
}

#[test]
fn request_under_the_api_prefix() {
    let table = compile_document(&pet_store());
    assert_eq!(api_redirect(&table, "/api/pets/42", "GET"), served(200, "{\"name\":\"Rex\"}"));
    assert_eq!(api_redirect(&table, "/api/api/pets/42", "get"), served(200, "{\"name\":\"Rex\"}"));
    assert_eq!(api_redirect(&table, "/api/pets", "GET"), missing("/pets", "get"));
    assert_eq!(api_redirect(&table, "/api/owners/1", "DELETE"), missing("/owners/1", "delete"));
}

#[test]
fn request_with_path_and_method_from_its_address() {
    let table = compile_document(&pet_store());
    assert_eq!(dynamic_handler(&table, "/pets/42", "GET"), served(200, "{\"name\":\"Rex\"}"));
    assert_eq!(dynamic_handler(&table, "pets/42", "get"), missing("pets/42", "get"));
}

#[test]
fn listing_has_every_endpoint_without_its_body() {
    let table = vec![
        endpoint("/pets/{id}", "get", "200", "{\"name\":\"Rex\"}", &["id"]),
        endpoint("/pets/{id}", "get", "404", "{}", &["id"]),
        endpoint("/owners", "post", "2XX", "[]", &[]),
    ];
    let summary = |path: &str, method: &str, code: &str| EndpointSummary {
        path: path.to_string(),
        method: method.to_string(),
        status_code: code.to_string(),
    };
    assert_eq!(
        list_endpoints(&table),
        EndpointListing {
            endpoints: vec![
                summary("/pets/{id}", "get", "200"),
                summary("/pets/{id}", "get", "404"),
                summary("/owners", "post", "2XX"),
            ],
            count: 3,
        }
    );
    assert_eq!(list_endpoints(&Vec::new()), EndpointListing { endpoints: Vec::new(), count: 0 });
}

#[test]
fn state_holds_what_it_was_given() {
    let document = pet_store();
    let table = compile_document(&document);
    let state = AppState::new(table.clone(), document.clone());
    assert_eq!(state.endpoints, table);
    assert_eq!(state.get_spec(), &document);
}

#[test]
fn default_settings() {
    let args = Args::default();
    assert_eq!(args.spec, "api-spec.yaml");
    assert_eq!(args.port, 8080);
    assert_eq!(args.host, "127.0.0.1");
}
