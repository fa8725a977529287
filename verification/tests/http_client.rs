//! The REST surface: composed URLs, query parameters, headers, bodies,
//! and the response policy.

use smalld::http::{interpret_response, Http};
use smalld::urls::ParsedUrl;
use smalld::{Error, Json, SmallD, SmallDBuilder};

const DUMMY_TOKEN: &str = "DuMmY.ToKeN";
const HTTP_BIN: &str = "http://httpbin.org";

fn subject() -> SmallD {
    SmallDBuilder::new()
        .token(DUMMY_TOKEN)
        .base_url(HTTP_BIN)
        .build()
        .unwrap()
}

fn http_bin(path: &str) -> String {
    format!("{}{}", HTTP_BIN, path)
}

fn foo_bar() -> Json {
    Json::Obj(vec![(String::from("foo"), Json::Str(String::from("bar")))])
}

#[test]
fn it_makes_get_request() {
    let plan = subject().resource("/get").get().unwrap();
    assert_eq!(plan.method, "GET");
    assert_eq!(plan.url, http_bin("/get"));
    assert!(plan.body.is_none());
}

#[test]
fn it_makes_get_request_with_parameters() {
    let plan = subject()
        .resource("/get")
        .query("key1", "value1")
        .query("key2", "value2")
        .get()
        .unwrap();

    assert_eq!(plan.url, http_bin("/get?key1=value1&key2=value2"));
}

#[test]
fn it_makes_post_request() {
    let plan = subject().resource("/post").post(foo_bar()).unwrap();
    assert_eq!(plan.method, "POST");
    assert_eq!(plan.url, http_bin("/post"));
    assert_eq!(plan.body.as_deref(), Some("{\"foo\":\"bar\"}"));
}

#[test]
fn it_makes_put_request() {
    let plan = subject().resource("/put").put(foo_bar()).unwrap();
    assert_eq!(plan.method, "PUT");
    assert_eq!(plan.url, http_bin("/put"));
    assert_eq!(plan.body.as_deref(), Some("{\"foo\":\"bar\"}"));
}

#[test]
fn it_makes_patch_request() {
    let plan = subject().resource("/patch").patch(foo_bar()).unwrap();
    assert_eq!(plan.method, "PATCH");
    assert_eq!(plan.url, http_bin("/patch"));
    assert_eq!(plan.body.as_deref(), Some("{\"foo\":\"bar\"}"));
}

#[test]
fn it_makes_delete_request() {
    let plan = subject().resource("/delete").delete().unwrap();
    assert_eq!(plan.method, "DELETE");
    assert_eq!(plan.url, http_bin("/delete"));
    assert!(plan.body.is_none());
}

#[test]
fn it_sends_user_agent() {
    let plan = subject().resource("/user-agent").get().unwrap();
    assert_eq!(
        plan.user_agent,
        "DiscordBot (https://github.com/princesslana/smalld_rust, 0.0.0-dev)"
    );
}

#[test]
fn it_sends_auth_header() {
    let plan = subject().resource("/headers").get().unwrap();
    assert_eq!(plan.authorization, format!("Bot {}", DUMMY_TOKEN));
}

#[test]
fn it_handles_204_response() {
    let rsp = interpret_response(204, "").unwrap();
    assert_eq!(rsp, Json::Obj(Vec::new()));
}

#[test]
fn it_errors_on_404_response() {
    let rsp = interpret_response(404, "not found");
    assert!(matches!(rsp, Err(Error::HttpError(_))));
}

#[test]
fn two_xx_parses_body_as_json() {
    let rsp = interpret_response(200, "{\"url\":\"http://httpbin.org/get\"}").unwrap();
    match rsp {
        Json::Obj(m) => {
            assert_eq!(m.len(), 1);
            assert_eq!(m[0].0, "url");
            assert_eq!(m[0].1, Json::Str(String::from("http://httpbin.org/get")));
        }
        other => panic!("expected an object, got {:?}", other),
    }
}

#[test]
fn two_xx_with_bad_body_is_an_io_error() {
    let rsp = interpret_response(200, "not json");
    assert!(matches!(rsp, Err(Error::IOError(_))));
}

#[test]
fn http_error_message_carries_the_status() {
    match interpret_response(429, "") {
        Err(Error::HttpError(m)) => assert_eq!(m, "HTTP status 429"),
        other => panic!("expected an HTTP error, got {:?}", other),
    }
}

#[test]
fn base_without_trailing_slash_composes() {
    let plan = subject().resource("channels/123/messages").get().unwrap();
    assert_eq!(plan.url, http_bin("/channels/123/messages"));
}

#[test]
fn leading_slashes_are_absorbed() {
    let plan = subject().resource("//doubled").get().unwrap();
    assert_eq!(plan.url, http_bin("/doubled"));
}

#[test]
fn query_pairs_are_form_urlencoded() {
    let plan = subject()
        .resource("/get")
        .query("q", "a b&c=d")
        .query("safe", "A-Z_0.9*")
        .get()
        .unwrap();
    assert_eq!(plan.url, http_bin("/get?q=a+b%26c%3Dd&safe=A-Z_0.9*"));
}

#[test]
fn path_segments_are_percent_encoded() {
    let plan = subject().resource("/a b/c%7/d?e").get().unwrap();
    assert_eq!(plan.url, http_bin("/a%20b/c%257/d%3Fe"));
}

#[test]
fn non_ascii_is_percent_encoded_as_utf8() {
    let plan = subject().resource("/caf\u{e9}").query("s", "\u{1F600}").get().unwrap();
    assert_eq!(plan.url, http_bin("/caf%C3%A9?s=%F0%9F%98%80"));
}

#[test]
fn base_query_stays_behind_the_path() {
    let smalld = SmallDBuilder::new()
        .token(DUMMY_TOKEN)
        .base_url("http://httpbin.org/anything?x=1")
        .build()
        .unwrap();
    let plan = smalld.resource("/get").get().unwrap();
    assert_eq!(plan.url, "http://httpbin.org/anything/get?x=1");

    let plan = smalld.resource("/get").query("key", "value").get().unwrap();
    assert_eq!(plan.url, "http://httpbin.org/anything/get?x=1&key=value");
}

#[test]
fn base_fragment_stays_behind_the_path() {
    let smalld = SmallDBuilder::new()
        .token(DUMMY_TOKEN)
        .base_url("http://httpbin.org/anything#frag")
        .build()
        .unwrap();
    let plan = smalld.resource("/get").get().unwrap();
    assert_eq!(plan.url, "http://httpbin.org/anything/get#frag");
}

#[test]
fn opaque_base_is_rejected_at_build() {
    let built = SmallDBuilder::new()
        .token(DUMMY_TOKEN)
        .base_url("mailto:someone@example.com")
        .build();
    assert!(matches!(built, Err(Error::ConfigurationError(_))));
}

#[test]
fn invalid_base_is_rejected_at_build() {
    let built = SmallDBuilder::new().token(DUMMY_TOKEN).base_url("not a url").build();
    assert!(matches!(built, Err(Error::ConfigurationError(_))));
}

#[test]
fn opaque_base_rejects_paths() {
    let http = Http::new(
        DUMMY_TOKEN,
        ParsedUrl { text: String::from("mailto:someone@example.com"), opaque: true },
    );
    let r = http.build_url("/get");
    assert!(matches!(r, Err(Error::IllegalArgumentError(_))));
}

#[test]
fn missing_token_is_a_configuration_error() {
    let built = SmallDBuilder::new().build();
    assert!(matches!(built, Err(Error::ConfigurationError(_))));
}
