use reqx::cli::import::{
    extract_url, import_curl, import_openapi, import_postman, is_method, sanitize_filename,
    ImportError, ImportedFile,
};
use reqx::json::JsonValue;

fn descriptor(comment: &str, method: &str, url: &str, headers: &str) -> String {
    format!(
        "# Imported from {}\n\n[request]\nmethod = \"{}\"\nurl = \"{}\"\n\n[headers]\n{}\n\n[assert]\nstatus = 200\n",
        comment, method, url, headers
    )
}

const JSON_TYPE: &str = "Content-Type = \"application/json\"";

#[test]
fn sanitize_keeps_letters_numbers_dash_and_underscore() {
    assert_eq!(sanitize_filename("Get Users"), "get-users");
    assert_eq!(sanitize_filename("a_b-c1"), "a_b-c1");
    assert_eq!(sanitize_filename("List /users?page=1"), "list--users-page-1");
    assert_eq!(sanitize_filename(""), "");
    assert_eq!(sanitize_filename("ÄÖ ü"), "äö-ü");
    assert_eq!(sanitize_filename("..//"), "----");
}

#[test]
fn url_of_a_postman_request() {
    let text = JsonValue::String("http://h/x".to_string());
    assert_eq!(extract_url(Some(&text)), "http://h/x");
    let object = JsonValue::parse("{\"raw\": \"http://h/raw\", \"host\": [\"h\"]}").unwrap();
    assert_eq!(extract_url(Some(&object)), "http://h/raw");
    let no_raw = JsonValue::parse("{\"host\": [\"h\"]}").unwrap();
    assert_eq!(extract_url(Some(&no_raw)), "{{base_url}}");
    let raw_number = JsonValue::parse("{\"raw\": 5}").unwrap();
    assert_eq!(extract_url(Some(&raw_number)), "{{base_url}}");
    assert_eq!(extract_url(Some(&JsonValue::Null)), "{{base_url}}");
    assert_eq!(extract_url(None), "{{base_url}}");
}

#[test]
fn postman_collection_becomes_descriptors() {
    let collection = "{\"info\": {\"name\": \"c\"}, \"item\": [\
        {\"name\": \"Get Users\", \"request\": {\"method\": \"GET\", \"url\": \"http://h/users\"}},\
        {\"name\": \"folder\", \"item\": []},\
        {\"request\": {\"url\": {\"raw\": \"{{host}}/x\"}}},\
        {\"name\": \"Create\", \"request\": {\"method\": \"POST\"}}\
    ]}";
    let files = import_postman(collection).unwrap();
    assert_eq!(
        files,
        vec![
            ImportedFile {
                file_name: "get-users.reqx".to_string(),
                content: descriptor("Postman: Get Users", "GET", "http://h/users", JSON_TYPE),
            },
            ImportedFile {
                file_name: "request.reqx".to_string(),
                content: descriptor("Postman: request", "GET", "{{host}}/x", JSON_TYPE),
            },
            ImportedFile {
                file_name: "create.reqx".to_string(),
                content: descriptor("Postman: Create", "POST", "{{base_url}}", JSON_TYPE),
            },
        ]
    );
}

#[test]
fn postman_errors() {
    assert_eq!(import_postman("not json"), Err(ImportError::CollectionNotJson));
    assert_eq!(import_postman("{}"), Err(ImportError::CollectionWithoutItems));
    assert_eq!(import_postman("{\"item\": {}}"), Err(ImportError::CollectionWithoutItems));
    assert_eq!(import_postman("[]"), Err(ImportError::CollectionWithoutItems));
    assert_eq!(import_postman("{\"item\": []}"), Ok(vec![]));
}

#[test]
fn import_error_messages() {
    assert_eq!(ImportError::CollectionNotJson.message(), "Failed to parse Postman collection");
    assert_eq!(ImportError::CollectionWithoutItems.message(), "Invalid Postman collection format");
    assert_eq!(ImportError::SpecNotJson.message(), "Failed to parse OpenAPI spec");
    assert_eq!(ImportError::SpecWithoutPaths.message(), "Invalid OpenAPI spec: missing paths");
    assert_eq!(ImportError::CurlWithoutUrl.message(), "Could not parse URL from curl command");
}

#[test]
fn methods_of_descriptors() {
    for method in ["GET", "POST", "PUT", "PATCH", "DELETE", "HEAD", "OPTIONS"] {
        assert!(is_method(method));
    }
    for other in ["get", "TRACE", "CONNECT", "", "PARAMETERS", "GET "] {
        assert!(!is_method(other));
    }
}

#[test]
fn openapi_document_becomes_descriptors() {
    let document = "{\"servers\": [{\"url\": \"https://api.example.com\"}, {\"url\": \"other\"}], \"paths\": {\
        \"/users/{id}\": {\"get\": {}, \"parameters\": [], \"delete\": {}},\
        \"/health\": {\"Head\": {}},\
        \"/odd\": \"not an object\"\
    }}";
    let files = import_openapi(document).unwrap();
    assert_eq!(
        files,
        vec![
            ImportedFile {
                file_name: "head-health.reqx".to_string(),
                content: descriptor(
                    "OpenAPI: HEAD /health",
                    "HEAD",
                    "https://api.example.com/health",
                    JSON_TYPE
                ),
            },
            ImportedFile {
                file_name: "delete-users--id-.reqx".to_string(),
                content: descriptor(
                    "OpenAPI: DELETE /users/{id}",
                    "DELETE",
                    "https://api.example.com/users/{id}",
                    JSON_TYPE
                ),
            },
            ImportedFile {
                file_name: "get-users--id-.reqx".to_string(),
                content: descriptor(
                    "OpenAPI: GET /users/{id}",
                    "GET",
                    "https://api.example.com/users/{id}",
                    JSON_TYPE
                ),
            },
        ]
    );
}

#[test]
fn openapi_without_servers_uses_a_placeholder() {
    let files = import_openapi("{\"paths\": {\"/a\": {\"post\": {}}}}").unwrap();
    assert_eq!(files.len(), 1);
    assert_eq!(files[0].file_name, "post-a.reqx");
    assert_eq!(
        files[0].content,
        descriptor("OpenAPI: POST /a", "POST", "{{base_url}}/a", JSON_TYPE)
    );
    let files = import_openapi("{\"servers\": [], \"paths\": {\"//a/b\": {\"put\": {}}}}").unwrap();
    assert_eq!(files[0].file_name, "put-a-b.reqx");
    assert!(files[0].content.contains("url = \"{{base_url}}//a/b\""));
}

#[test]
fn openapi_errors() {
    assert_eq!(import_openapi("openapi: 3.0.0"), Err(ImportError::SpecNotJson));
    assert_eq!(import_openapi("{}"), Err(ImportError::SpecWithoutPaths));
    assert_eq!(import_openapi("{\"paths\": []}"), Err(ImportError::SpecWithoutPaths));
    assert_eq!(import_openapi("{\"paths\": {}}"), Ok(vec![]));
}

#[test]
fn curl_command_becomes_a_descriptor() {
    let file = import_curl(
        "curl -X POST https://api.example.com/users -H \"Accept:application/json\" --header X-Token:abc",
    )
    .unwrap();
    assert_eq!(file.file_name, "imported-curl.reqx");
    assert_eq!(
        file.content,
        descriptor(
            "curl",
            "POST",
            "https://api.example.com/users",
            "Accept = \"application/json\"\nX-Token = \"abc\""
        )
    );
}

#[test]
fn curl_defaults() {
    let file = import_curl("curl http://h/x").unwrap();
    assert_eq!(file.content, descriptor("curl", "GET", "http://h/x", JSON_TYPE));
    let file = import_curl("  curl\n\thttps://h/y'\"  ").unwrap();
    assert_eq!(file.content, descriptor("curl", "GET", "https://h/y", JSON_TYPE));
}

#[test]
fn curl_words_are_split_at_white_space() {
    let file = import_curl("curl -H \"Content-Type: application/json\" http://h").unwrap();
    assert_eq!(file.content, descriptor("curl", "GET", "http://h", "Content-Type = \"\""));
    let file = import_curl("curl -H NoColon --request PUT http://a http://b -X").unwrap();
    assert_eq!(file.content, descriptor("curl", "PUT", "http://b", JSON_TYPE));
    let file = import_curl("curl -X -H http://h").unwrap();
    assert_eq!(file.content, descriptor("curl", "-H", "http://h", JSON_TYPE));
}

#[test]
fn curl_without_url_is_an_error() {
    assert_eq!(import_curl(""), Err(ImportError::CurlWithoutUrl));
    assert_eq!(import_curl("curl -X POST ftp://h"), Err(ImportError::CurlWithoutUrl));
    assert_eq!(import_curl("curl -X http://h"), Err(ImportError::CurlWithoutUrl));
    assert_eq!(import_curl("curl \"http://h\""), Err(ImportError::CurlWithoutUrl));
}
