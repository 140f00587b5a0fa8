use reqx::cli::export::{
    export_openapi, export_openapi_paths, export_path, export_postman, export_postman_item,
    NamedDescriptor,
};
use reqx::json::JsonValue;
use reqx::parser::{ReqxFile, RequestSection};
use reqx::strmap::StringMap;

fn descriptor(method: &str, url: &str, headers: &[(&str, &str)]) -> ReqxFile {
    let mut map = StringMap::new();
    for (name, text) in headers {
        map.insert(name.to_string(), text.to_string());
    }
    ReqxFile {
        request: RequestSection { method: method.to_string(), url: url.to_string() },
        headers: map,
        query: StringMap::new(),
        body: None,
        assertions: vec![],
        post_response: vec![],
    }
}

#[test]
fn postman_item_of_a_descriptor() {
    let file = descriptor("POST", "{{base_url}}/users", &[("Accept", "json"), ("X-A", "1")]);
    let item = export_postman_item("create", &file);
    assert_eq!(
        item.compact_text(),
        "{\"name\":\"create\",\"request\":{\"header\":[{\"key\":\"Accept\",\"value\":\"json\"},{\"key\":\"X-A\",\"value\":\"1\"}],\"method\":\"POST\",\"url\":{\"raw\":\"{{base_url}}/users\"}}}"
    );
}

#[test]
fn postman_collection_of_descriptors() {
    let a = descriptor("GET", "http://h/a", &[]);
    let b = descriptor("PUT", "http://h/b", &[("K", "v")]);
    let collection = export_postman(&vec![
        NamedDescriptor { name: "a".to_string(), descriptor: &a },
        NamedDescriptor { name: "b".to_string(), descriptor: &b },
    ]);
    let expected = JsonValue::parse(
        "{\"info\": {\"name\": \"Exported from reqx\", \"schema\": \"https://schema.getpostman.com/json/collection/v2.1.0/collection.json\"}, \"item\": [\
            {\"name\": \"a\", \"request\": {\"method\": \"GET\", \"header\": [], \"url\": {\"raw\": \"http://h/a\"}}},\
            {\"name\": \"b\", \"request\": {\"method\": \"PUT\", \"header\": [{\"key\": \"K\", \"value\": \"v\"}], \"url\": {\"raw\": \"http://h/b\"}}}\
        ]}",
    )
    .unwrap();
    assert_eq!(collection.compact_text(), expected.compact_text());
    assert_eq!(
        export_postman(&vec![]).pretty_text(),
        "{\n  \"info\": {\n    \"name\": \"Exported from reqx\",\n    \"schema\": \"https://schema.getpostman.com/json/collection/v2.1.0/collection.json\"\n  },\n  \"item\": []\n}"
    );
}

#[test]
fn path_of_a_url() {
    assert_eq!(export_path("https://api.example.com/users/1"), "/users");
    assert_eq!(export_path("https://api.example.com/users"), "/users");
    assert_eq!(export_path("https://api.example.com/"), "/");
    assert_eq!(export_path("https://api.example.com"), "/");
    assert_eq!(export_path("{{base_url}}/items/{{id}}"), "/items");
    assert_eq!(export_path("{{base_url}}"), "/");
    assert_eq!(export_path(""), "/");
    assert_eq!(export_path("a://b://c/d/e"), "/d");
    assert_eq!(export_path("http://h//x"), "/");
    assert_eq!(export_path("/only/path"), "/only");
    assert_eq!(export_path("://"), "/");
}

#[test]
fn openapi_paths_group_operations() {
    let a = descriptor("GET", "http://h/users", &[]);
    let b = descriptor("post", "http://h/users/1", &[]);
    let c = descriptor("GET", "http://h/health", &[]);
    let d = descriptor("GET", "{{base_url}}/users", &[]);
    let paths = export_openapi_paths(&vec![
        NamedDescriptor { name: "list".to_string(), descriptor: &a },
        NamedDescriptor { name: "create".to_string(), descriptor: &b },
        NamedDescriptor { name: "health".to_string(), descriptor: &c },
        NamedDescriptor { name: "again".to_string(), descriptor: &d },
    ]);
    assert_eq!(paths.len(), 2);
    assert_eq!(paths[0].0, "/users");
    assert_eq!(paths[1].0, "/health");
    assert_eq!(
        paths[0].1.compact_text(),
        "{\"get\":{\"responses\":{\"200\":{\"description\":\"Successful response\"}},\"summary\":\"again\"},\"post\":{\"responses\":{\"200\":{\"description\":\"Successful response\"}},\"summary\":\"create\"}}"
    );
}

#[test]
fn openapi_document_of_descriptors() {
    let a = descriptor("DELETE", "http://h/users/1", &[]);
    let document = export_openapi(&vec![NamedDescriptor { name: "remove".to_string(), descriptor: &a }]);
    let expected = JsonValue::parse(
        "{\"openapi\": \"3.0.0\", \"info\": {\"title\": \"Exported from reqx\", \"version\": \"1.0.0\"}, \"servers\": [{\"url\": \"{{base_url}}\"}], \"paths\": {\"/users\": {\"delete\": {\"summary\": \"remove\", \"responses\": {\"200\": {\"description\": \"Successful response\"}}}}}}",
    )
    .unwrap();
    assert_eq!(document.compact_text(), expected.compact_text());
    assert_eq!(
        export_openapi(&vec![]).compact_text(),
        "{\"info\":{\"title\":\"Exported from reqx\",\"version\":\"1.0.0\"},\"openapi\":\"3.0.0\",\"paths\":{},\"servers\":[{\"url\":\"{{base_url}}\"}]}"
    );
}
