use axum::http::{HeaderMap, HeaderValue};
use freeplay_stats::auth::{
    bearer_token, check_api_key, header_value, request_token, verify_jwt, Claims,
};
use freeplay_stats::config::{Config, ConfigError};
use freeplay_stats::discord::Discord;
use freeplay_stats::handlers::upload_ghost;
use freeplay_stats::state::{storage_base, storage_dir};
use freeplay_stats::status::StatusCode;
use freeplay_stats::text::{decimal_text, parse_u32, text_equal, text_less, trim};
use jsonwebtoken::{encode, Algorithm, EncodingKey, Header};
use serde_json::Value;

fn payload(exp: u64) -> serde_json::Map<String, Value> {
    let mut claims = serde_json::Map::new();
    claims.insert("sub".to_string(), Value::from("42"));
    claims.insert("username".to_string(), Value::from("alice"));
    claims.insert("exp".to_string(), Value::from(exp));
    claims
}

fn signed(claims: serde_json::Map<String, Value>, secret: &str, algorithm: Algorithm) -> String {
    let key = EncodingKey::from_secret(secret.as_bytes());
    encode(&Header::new(algorithm), &Value::Object(claims), &key).unwrap()
}

fn bearing(token: &str) -> HeaderMap {
    let mut headers = HeaderMap::new();
    let value = format!("Bearer {}", token);
    headers.insert("authorization", HeaderValue::from_str(&value).unwrap());
    headers
}

const FAR: u64 = 4_000_000_000;

#[test]
fn the_api_key_is_compared_whole() {
    let mut headers = HeaderMap::new();
    assert_eq!(check_api_key(&headers, "dev"), Err(StatusCode::Unauthorized));
    headers.insert("X-API-Key", HeaderValue::from_static("dev"));
    assert_eq!(check_api_key(&headers, "dev"), Ok(()));
    assert_eq!(check_api_key(&headers, "Dev"), Err(StatusCode::Unauthorized));
    assert_eq!(check_api_key(&headers, "devel"), Err(StatusCode::Unauthorized));
    headers.insert("X-API-Key", HeaderValue::from_bytes(b"d\xe9v").unwrap());
    assert_eq!(check_api_key(&headers, "dev"), Err(StatusCode::Unauthorized));
    assert_eq!(header_value(&headers, "x-api-key"), "");
}

fn alice() -> Option<Claims> {
    Some(Claims { sub: "42".to_string(), username: "alice".to_string(), exp: FAR as usize })
}

#[test]
fn a_signed_token_names_its_holder() {
    let token = signed(payload(FAR), "secret", Algorithm::HS256);
    assert_eq!(request_token(&bearing(&token)), token);
    let claims = verify_jwt(&bearing(&token), Some("secret"), alice()).ok().unwrap();
    assert_eq!(claims.sub, "42");
    assert_eq!(claims.username, "alice");
    assert_eq!(claims.exp, FAR as usize);
}

#[test]
fn other_tokens_are_refused() {
    let token = signed(payload(FAR), "secret", Algorithm::HS256);
    let refused = Some(StatusCode::Unauthorized);
    assert_eq!(verify_jwt(&bearing(&token), Some("other"), alice()).err(), refused);
    assert_eq!(verify_jwt(&bearing("garbage"), Some("secret"), alice()).err(), refused);
    assert_eq!(verify_jwt(&bearing(""), Some("secret"), alice()).err(), refused);
    assert_eq!(verify_jwt(&HeaderMap::new(), Some("secret"), alice()).err(), refused);
    let expired = signed(payload(1_000_000_000), "secret", Algorithm::HS256);
    assert_eq!(verify_jwt(&bearing(&expired), Some("secret"), alice()).err(), refused);
    let longer = signed(payload(FAR), "secret", Algorithm::HS512);
    assert_eq!(verify_jwt(&bearing(&longer), Some("secret"), alice()).err(), refused);
    let mut endless = payload(FAR);
    endless.remove("exp");
    let endless = signed(endless, "secret", Algorithm::HS256);
    assert_eq!(verify_jwt(&bearing(&endless), Some("secret"), alice()).err(), refused);
    // A payload without claims.
    assert_eq!(verify_jwt(&bearing(&token), Some("secret"), None).err(), refused);
}

#[test]
fn without_a_secret_no_token_is_accepted() {
    let token = signed(payload(FAR), "secret", Algorithm::HS256);
    let unavailable = Some(StatusCode::ServiceUnavailable);
    assert_eq!(verify_jwt(&bearing(&token), None, alice()).err(), unavailable);
    assert_eq!(upload_ghost(&bearing(&token), None, alice(), &[1]).err(), unavailable);
    assert_eq!(upload_ghost(&HeaderMap::new(), None, None, &[]).err(), unavailable);
}

#[test]
fn uploads_need_a_token_before_anything_else() {
    let token = signed(payload(FAR), "secret", Algorithm::HS256);
    let mut headers = bearing(&token);
    assert_eq!(
        upload_ghost(&headers, Some("secret"), alice(), &[1]).err(),
        Some(StatusCode::BadRequest)
    );
    let refused = Some(StatusCode::Unauthorized);
    assert_eq!(upload_ghost(&headers, Some("other"), alice(), &[1]).err(), refused);
    assert_eq!(upload_ghost(&headers, Some("secret"), None, &[1]).err(), refused);
    headers.insert("x-freeplay-ghost-id", HeaderValue::from_static("g1"));
    let upload = upload_ghost(&headers, Some("secret"), alice(), &[1]).ok().unwrap();
    assert_eq!(upload.discord_id, "42");
    assert_eq!(upload.username, "alice");
    assert_eq!(upload.ghost_id, "g1");
}

#[test]
fn the_token_follows_the_scheme() {
    assert_eq!(bearer_token("Bearer abc"), "abc");
    assert_eq!(bearer_token("Bearer  abc "), " abc ");
    assert_eq!(bearer_token("bearer abc"), "");
    assert_eq!(bearer_token("Bearer"), "");
    assert_eq!(bearer_token(""), "");
    assert_eq!(bearer_token("Basic abcdefgh"), "");
}

#[test]
fn statuses_have_their_numbers() {
    assert_eq!(StatusCode::BadRequest.as_u16(), 400);
    assert_eq!(StatusCode::Unauthorized.as_u16(), 401);
    assert_eq!(StatusCode::NotFound.as_u16(), 404);
    assert_eq!(StatusCode::InternalServerError.as_u16(), 500);
    assert_eq!(StatusCode::ServiceUnavailable.as_u16(), 503);
}

#[test]
fn settings_come_from_the_environment() {
    let text = |s: &str| Some(s.to_string());
    assert_eq!(
        Config::from_env(None, None, None, None).err(),
        Some(ConfigError::MissingApiKey)
    );
    let config = Config::from_env(text("key"), None, None, text("")).ok().unwrap();
    assert_eq!(config.stats_api_key, "key");
    assert_eq!(config.discord_webhook_url, None);
    assert_eq!(config.db_path, "stats.db");
    assert_eq!(config.jwt_secret, None);
    let config = Config::from_env(text(""), text("url"), text("/db/x"), text("s")).ok().unwrap();
    assert_eq!(config.stats_api_key, "");
    assert_eq!(config.discord_webhook_url, text("url"));
    assert_eq!(config.db_path, "/db/x");
    assert_eq!(config.jwt_secret, text("s"));
}

#[test]
fn files_lie_beside_the_database() {
    assert_eq!(storage_base(Some("/var/lib")), "/var/lib");
    assert_eq!(storage_base(Some("")), "");
    assert_eq!(storage_base(None), "/db");
    assert_eq!(storage_dir("/db/stats.db"), "/db");
    assert_eq!(storage_dir("var/lib/stats.db"), "var/lib");
    assert_eq!(storage_dir("stats.db"), "");
    assert_eq!(storage_dir("./stats.db"), ".");
    assert_eq!(storage_dir("../stats.db"), "..");
    assert_eq!(storage_dir("/srv/v1.2/.hidden"), "/srv/v1.2");
    assert_eq!(storage_dir("./a/../b.c/x"), "./a/../b.c");
    assert_eq!(storage_dir("/stats.db"), "/");
    assert_eq!(storage_dir("a/.."), "a");
    assert_eq!(storage_dir("."), "");
    assert_eq!(storage_dir("/"), "/db");
    assert_eq!(storage_dir(""), "/db");
}

#[test]
fn a_match_is_summed_up() {
    let discord = Discord::new(Some("https://example.org/hook".to_string()));
    let post = discord.notify_match("alice", "bob", 10, 0, "1512", "1488").unwrap();
    assert_eq!(post.url, "https://example.org/hook");
    assert_eq!(
        post.content,
        ":trophy: **alice** (10) beats **bob** (0)\nalice: **1512** rating\nbob: **1488** rating"
    );
    assert!(Discord::new(None).notify_match("a", "b", 1, 0, "1", "2").is_none());
    assert!(Discord::new(Some(String::new())).notify_match("a", "b", 1, 0, "1", "2").is_none());
}

#[test]
fn numbers_are_read_and_written_in_decimal() {
    for n in [0u16, 1, 9, 10, 99, 100, 12345, u16::MAX] {
        assert_eq!(decimal_text(n), format!("{}", n));
    }
    for s in [
        "0", "7", "007", "+5", "4294967295", "4294967296", "99999999999999999999", "", "+", "-1",
        "++1", " 1", "1 ", "1a", "\u{661}",
    ] {
        assert_eq!(parse_u32(s), s.parse::<u32>().ok(), "{:?}", s);
    }
}

#[test]
fn texts_are_ordered_by_code_point() {
    let texts = ["", "a", "ab", "b", "B", "\u{e4}", "\u{ffff}", "\u{1f600}", "2024-01-01"];
    for a in texts {
        for b in texts {
            assert_eq!(text_less(a, b), a < b, "{:?} < {:?}", a, b);
            assert_eq!(text_equal(a, b), a == b);
        }
    }
}

#[test]
fn white_space_is_taken_off_both_ends() {
    for s in [
        "", " ", "a", " a ", "\t\n a b \r\u{b}\u{c}", "\u{85}\u{a0}x\u{1680}", "\u{2000}x\u{200a}",
        "\u{2028}x\u{2029}", "\u{202f}x\u{205f}\u{3000}", "\u{200b}x\u{feff}", "\u{1f}x\u{180e}",
        "\u{e4} \u{1f600}\n",
    ] {
        assert_eq!(trim(s), s.trim(), "{:?}", s);
    }
}
