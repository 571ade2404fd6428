use apisvr::auth::{
    bearer_matches, handle_unauthorized, navigate_unauthorized, rssbox_android, unauthorized,
    Auth, Method, Request,
};
use apisvr::config::{self, AuthToken, Config, Socket5, Timer};
use apisvr::controller::{com_select, com_write, latest};
use apisvr::db::table::{ComEntry, StoreError};
use apisvr::fetch::FetchError;
use apisvr::response::{ContentType, Data, Status};
use apisvr::scheduler::Source;

fn request(method: Method, path: &str, header: Option<&str>) -> Request {
    Request {
        method,
        path: path.to_string(),
        authorization: header.map(|h| h.to_string()),
    }
}

fn tokens() -> AuthToken {
    AuthToken {
        rssbox_android: "client".to_string(),
        admin: "root".to_string(),
    }
}

#[test]
fn unauthorized_route_status() {
    assert_eq!(unauthorized(), Status::Unauthorized);
    assert_eq!(unauthorized().code(), 401);
}

#[test]
fn verdict_on_unprotected_path() {
    let r = request(Method::Get, "/market/latest", None);
    assert_eq!(rssbox_android(&r, &vec!["/rssbox/android/recover"], "client"), (false, false));
}

#[test]
fn verdict_with_empty_token() {
    let r = request(Method::Get, "/rssbox/android/recover?x=1", None);
    assert_eq!(rssbox_android(&r, &vec!["/rssbox/android/recover"], ""), (true, true));
}

#[test]
fn verdict_checks_bearer_token() {
    let p = vec!["/rssbox/android/recover"];
    let ok = request(Method::Get, "/rssbox/android/recover", Some("Bearer client"));
    assert_eq!(rssbox_android(&ok, &p, "client"), (true, true));
    let spaced = request(Method::Get, "/rssbox/android/recover", Some("  Bearer   client "));
    assert_eq!(rssbox_android(&spaced, &p, "client"), (true, true));
    let wrong = request(Method::Get, "/rssbox/android/recover", Some("Bearer other"));
    assert_eq!(rssbox_android(&wrong, &p, "client"), (true, false));
    let bare = request(Method::Get, "/rssbox/android/recover", Some("Bearer"));
    assert_eq!(rssbox_android(&bare, &p, "client"), (true, false));
    let none = request(Method::Get, "/rssbox/android/recover", None);
    assert_eq!(rssbox_android(&none, &p, "client"), (true, false));
}

#[test]
fn bearer_words() {
    let w = vec!["Bearer".to_string(), "t".to_string()];
    assert!(bearer_matches(&w, "t"));
    assert!(!bearer_matches(&w, "u"));
    let basic = vec!["Basic".to_string(), "t".to_string()];
    assert!(!bearer_matches(&basic, "t"));
}

#[test]
fn denied_request_is_redirected() {
    let mut r = request(Method::Delete, "/rssbox/android/feedback/1", Some("Bearer nope"));
    assert!(!handle_unauthorized(&mut r, &vec!["/rssbox/android/feedback"], "root"));
    assert_eq!(r.method, Method::Get);
    assert_eq!(r.path, "/unauthorized");
    let mut n = request(Method::Post, "/x", None);
    navigate_unauthorized(&mut n);
    assert_eq!(n.method, Method::Get);
    assert_eq!(n.path, "/unauthorized");
}

#[test]
fn on_request_by_method() {
    let auth = Auth;
    let t = tokens();
    let mut del = request(Method::Delete, "/rssbox/rss/list/cn/42", Some("Bearer root"));
    auth.on_request(&mut del, &t);
    assert_eq!(del.path, "/rssbox/rss/list/cn/42");
    let mut del_bad = request(Method::Delete, "/rssbox/rss/list/en/42", Some("Bearer client"));
    auth.on_request(&mut del_bad, &t);
    assert_eq!(del_bad.path, "/unauthorized");
    let mut post = request(Method::Post, "/rssbox/android/backup", Some("Bearer client"));
    auth.on_request(&mut post, &t);
    assert_eq!(post.path, "/rssbox/android/backup");
    assert_eq!(post.method, Method::Post);
    let mut post_bad = request(Method::Post, "/latest/version", Some("Bearer client"));
    auth.on_request(&mut post_bad, &t);
    assert_eq!(post_bad.path, "/unauthorized");
    let mut other = request(Method::Other, "/rssbox/android/backup", None);
    auth.on_request(&mut other, &t);
    assert_eq!(other.path, "/rssbox/android/backup");
}

#[test]
fn config_defaults() {
    let c = Config::default();
    assert_eq!(c.server.listen_address, "0.0.0.0");
    assert_eq!(c.server.listen_port, 8004);
    assert_eq!(c.socket5.ip, "127.0.0.1");
    assert_eq!(c.socket5.port, 1084);
    assert_eq!(c.timer.coinmarketcap_latest, 1800);
    assert_eq!(c.timer.awtmt_market, 30);
    assert!(c.api_key.coinmarketcap.is_empty());
}

#[test]
fn config_init_and_getters() {
    let mut c = Config::default();
    let mut loaded = Config::default();
    loaded.server.listen_port = 9000;
    loaded.timer = Timer { coinmarketcap_latest: 600, awtmt_market: 15 };
    loaded.api_key.coinmarketcap = "key".to_string();
    loaded.auth_token.admin = "from-file".to_string();
    c.auth_token.admin = "kept".to_string();
    c.init("/etc/apisvr.conf".to_string(), "/var/apisvr.db".to_string(), Some(loaded));
    assert_eq!(config::db_path(&c), "/var/apisvr.db");
    assert_eq!(config::server(&c).listen_port, 9000);
    assert_eq!(config::timer(&c).coinmarketcap_latest, 600);
    assert_eq!(config::api_key(&c).coinmarketcap, "key");
    assert_eq!(config::socket5(&c).port, 1084);
    assert_eq!(config::auth_token(&c).admin, "kept");
    let mut d = Config::default();
    d.init("a".to_string(), "b".to_string(), None);
    assert_eq!(config::server(&d).listen_port, 8004);
    assert_eq!(d.config_path, "a");
    let mut e = Config::default();
    config::save(&mut e, c);
    assert_eq!(config::server(&e).listen_port, 9000);
    assert_eq!(config::auth_token(&e).admin, "kept");
}

#[test]
fn proxy_per_source() {
    let mut s = Socket5::default();
    assert_eq!(config::proxy_url(&s, Source::CryptoLatest), None);
    s.coinmarketcap = true;
    s.ethscan = true;
    assert_eq!(
        config::proxy_url(&s, Source::CryptoLatest),
        Some("socks5://127.0.0.1:1084".to_string())
    );
    assert_eq!(config::proxy_url(&s, Source::BitcoinGasFee), None);
    assert_eq!(
        config::proxy_url(&s, Source::EthereumGasFee),
        Some("socks5://127.0.0.1:1084".to_string())
    );
    s.ethscan = false;
    s.blockstream = true;
    assert_eq!(
        config::proxy_url(&s, Source::BitcoinGasFee),
        Some("socks5://127.0.0.1:1084".to_string())
    );
    assert_eq!(config::proxy_url(&s, Source::EthereumGasFee), None);
    assert_eq!(config::proxy_url(&s, Source::Market), None);
    assert_eq!(config::decimal_string(0), "0");
    assert_eq!(config::decimal_string(65535), "65535");
}

#[test]
fn data_constructors() {
    let d = Data::new(b"{}".to_vec(), ContentType::JSON);
    assert_eq!(d.data(), &b"{}".to_vec());
    assert_eq!(d.content_type(), ContentType::JSON);
    assert_eq!(d.status, Status::Success);
    let e = Data::new_with_status(b"x".to_vec(), ContentType::Plain, Status::NotFound);
    assert_eq!(e.status.code(), 404);
    let f = Data::default();
    assert!(f.data().is_empty());
    assert_eq!(f.status.code(), 200);
    assert_eq!(Status::InternalServerError.code(), 500);
}

#[test]
fn store_outcome_responses() {
    let ok = com_write(Ok(()));
    assert!(ok.data().is_empty());
    assert_eq!(ok.status, Status::Success);
    let err = com_write(Err(StoreError::NotFound));
    assert_eq!(err.data(), &b"not found".to_vec());
    assert_eq!(err.status, Status::InternalServerError);
    assert_eq!(err.content_type(), ContentType::Plain);
    let io = com_write(Err(StoreError::Io("disk".to_string())));
    assert_eq!(io.data(), &b"disk".to_vec());
    let sel = com_select(Ok(ComEntry::new("u", "{\"a\":1}")));
    assert_eq!(sel.data(), &b"{\"a\":1}".to_vec());
    assert_eq!(sel.content_type(), ContentType::JSON);
    let miss = com_select(Err(StoreError::ConstraintViolation));
    assert_eq!(miss.data(), &b"constraint violation".to_vec());
}

#[test]
fn cached_source_responses() {
    let hit = latest(Ok("[1]".to_string()), Status::NotFound);
    assert_eq!(hit.data(), &b"[1]".to_vec());
    assert_eq!(hit.status, Status::Success);
    let miss = latest(Err(FetchError::Network("timeout".to_string())), Status::NotFound);
    assert_eq!(miss.data(), &b"timeout".to_vec());
    assert_eq!(miss.status, Status::NotFound);
    assert_eq!(miss.content_type(), ContentType::Plain);
}
