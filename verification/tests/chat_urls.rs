use steersman_core::chat::to_ws_url;

#[test]
fn to_ws_url_converts_http_to_ws() {
    assert_eq!(to_ws_url("http://1.2.3.4:8642"), "ws://1.2.3.4:8642");
}

#[test]
fn to_ws_url_converts_https_to_wss() {
    assert_eq!(
        to_ws_url("https://remote.example.com:9000"),
        "wss://remote.example.com:9000"
    );
}

#[test]
fn to_ws_url_preserves_path_and_query() {
    assert_eq!(
        to_ws_url("http://127.0.0.1:9421/api/ws?token=abc"),
        "ws://127.0.0.1:9421/api/ws?token=abc"
    );
}

#[test]
fn to_ws_url_idempotent_if_already_ws() {
    assert_eq!(to_ws_url("ws://host:1/path"), "ws://host:1/path");
    assert_eq!(to_ws_url("wss://host:1/path"), "wss://host:1/path");
}

#[test]
fn to_ws_url_ssh_tunnel_localhost() {
    assert_eq!(to_ws_url("http://127.0.0.1:18642"), "ws://127.0.0.1:18642");
}

#[test]
fn to_ws_url_trims_surrounding_whitespace() {
    assert_eq!(to_ws_url("  https://h:1/x \n"), "wss://h:1/x");
}

#[test]
fn to_ws_url_twice_is_once() {
    let once = to_ws_url("http://a.b:2/c");
    assert_eq!(to_ws_url(&once), once);
}
