use post_store::json::{decode_post, encode_post, encode_posts, DecodeError};
use post_store::ids::uuid_string;
use post_store::models::Post;

const SAMPLE_ID: u128 = 0x550e8400e29b41d4a716446655440000;

#[test]
fn uuid_text_is_canonical() {
    assert_eq!(uuid_string(SAMPLE_ID), "550e8400-e29b-41d4-a716-446655440000");
    assert_eq!(uuid_string(1), "00000000-0000-0000-0000-000000000001");
    assert_eq!(uuid_string(u128::MAX), "ffffffff-ffff-ffff-ffff-ffffffffffff");
}

#[test]
fn uuid_text_parses_back_through_the_uuid_crate() {
    let u = uuid::Uuid::parse_str(&uuid_string(SAMPLE_ID)).expect("canonical text parses");
    assert_eq!(u.as_u128(), SAMPLE_ID);
}

#[test]
fn encode_post_exact_text() {
    let p = Post::new("T", "B", "@a", "2024-01-01T00:00:00Z", 1);
    assert_eq!(
        encode_post(&p),
        "{\"title\":\"T\",\"body\":\"B\",\"author\":\"@a\",\"created_at\":\"2024-01-01T00:00:00Z\",\"id\":\"00000000-0000-0000-0000-000000000001\"}"
    );
}

#[test]
fn encode_escapes_quotes_and_controls() {
    let p = Post::new("a\"b", "c\\d", "e\nf", "2024-01-01T00:00:00Z", 1);
    let text = encode_post(&p);
    assert!(text.starts_with("{\"title\":\"a\\\"b\",\"body\":\"c\\\\d\",\"author\":\"e\\nf\","));
}

#[test]
fn encode_posts_empty_and_pair() {
    let posts: Vec<Post> = Vec::new();
    assert_eq!(encode_posts(&posts), "[]");
    let mut posts = Vec::new();
    posts.push(Post::new("T", "B", "@a", "2024-01-01T00:00:00Z", 1));
    posts.push(Post::new("U", "C", "@b", "2024-01-02T00:00:00Z", 2));
    let one = encode_post(&posts[0]);
    let two = encode_post(&posts[1]);
    assert_eq!(encode_posts(&posts), format!("[{},{}]", one, two));
}

#[test]
fn decode_reads_the_sample_payload() {
    let body = "{\"title\":\"T\",\"body\":\"B\",\"author\":\"@a\",\"created_at\":\"2024-01-01T00:00:00Z\",\"id\":\"550e8400-e29b-41d4-a716-446655440000\"}";
    let p = decode_post(body).expect("well-formed payload decodes");
    assert_eq!(p.title, "T");
    assert_eq!(p.body, "B");
    assert_eq!(p.author, "@a");
    assert_eq!(p.created_at, "2024-01-01T00:00:00Z");
    assert_eq!(p.id, SAMPLE_ID);
}

#[test]
fn decode_allows_whitespace_between_tokens() {
    let body = " {\n  \"title\" : \"T\" ,\n  \"body\" : \"B\" ,\n  \"author\" : \"@a\" ,\n  \"created_at\" : \"2024-01-01T00:00:00Z\" ,\n  \"id\" : \"550e8400-e29b-41d4-a716-446655440000\"\n} ";
    let p = decode_post(body).expect("whitespace is insignificant");
    assert_eq!(p.title, "T");
    assert_eq!(p.id, SAMPLE_ID);
}

#[test]
fn decode_reads_escapes() {
    let body = "{\"title\":\"a\\\"b\",\"body\":\"c\\\\d\",\"author\":\"e\\nf\",\"created_at\":\"2024-01-01T00:00:00Z\",\"id\":\"550e8400-e29b-41d4-a716-446655440000\"}";
    let p = decode_post(body).expect("escapes decode");
    assert_eq!(p.title, "a\"b");
    assert_eq!(p.body, "c\\d");
    assert_eq!(p.author, "e\nf");
}

#[test]
fn decode_round_trips_an_encoded_post() {
    let p = Post::new("ti\"tle\n", "bo\\dy\t", "@some\u{8}one", "2024-01-01T00:00:00Z", SAMPLE_ID);
    let q = decode_post(&encode_post(&p)).expect("an encoded post decodes");
    assert_eq!(q.title, p.title);
    assert_eq!(q.body, p.body);
    assert_eq!(q.author, p.author);
    assert_eq!(q.created_at, p.created_at);
    assert_eq!(q.id, p.id);
}

#[test]
fn decode_rejects_invalid_json() {
    assert_eq!(decode_post("{invalid").unwrap_err(), DecodeError::Syntax);
    assert_eq!(decode_post("").unwrap_err(), DecodeError::Syntax);
    assert_eq!(decode_post("[]").unwrap_err(), DecodeError::Syntax);
}

#[test]
fn decode_rejects_a_missing_field() {
    let body = "{\"title\":\"T\",\"body\":\"B\",\"author\":\"@a\",\"created_at\":\"2024-01-01T00:00:00Z\"}";
    assert_eq!(decode_post(body).unwrap_err(), DecodeError::Syntax);
}

#[test]
fn decode_rejects_reordered_fields() {
    let body = "{\"body\":\"B\",\"title\":\"T\",\"author\":\"@a\",\"created_at\":\"2024-01-01T00:00:00Z\",\"id\":\"550e8400-e29b-41d4-a716-446655440000\"}";
    assert_eq!(decode_post(body).unwrap_err(), DecodeError::Syntax);
}

#[test]
fn decode_rejects_trailing_text() {
    let body = "{\"title\":\"T\",\"body\":\"B\",\"author\":\"@a\",\"created_at\":\"2024-01-01T00:00:00Z\",\"id\":\"550e8400-e29b-41d4-a716-446655440000\"} x";
    assert_eq!(decode_post(body).unwrap_err(), DecodeError::Syntax);
}

#[test]
fn decode_rejects_a_bad_id() {
    let body = "{\"title\":\"T\",\"body\":\"B\",\"author\":\"@a\",\"created_at\":\"2024-01-01T00:00:00Z\",\"id\":\"not-a-uuid\"}";
    assert_eq!(decode_post(body).unwrap_err(), DecodeError::BadId);
}

#[test]
fn decode_rejects_a_bad_timestamp() {
    let body = "{\"title\":\"T\",\"body\":\"B\",\"author\":\"@a\",\"created_at\":\"yesterday\",\"id\":\"550e8400-e29b-41d4-a716-446655440000\"}";
    assert_eq!(decode_post(body).unwrap_err(), DecodeError::BadTimestamp);
}

#[test]
fn timestamps_follow_the_chrono_parser() {
    let good = "2024-01-01T00:00:00+05:30";
    assert!(chrono::DateTime::parse_from_rfc3339(good).is_ok());
    let body = format!(
        "{{\"title\":\"T\",\"body\":\"B\",\"author\":\"@a\",\"created_at\":\"{}\",\"id\":\"550e8400-e29b-41d4-a716-446655440000\"}}",
        good
    );
    assert!(decode_post(&body).is_ok());
}

#[test]
fn error_descriptions_name_the_failure() {
    assert_eq!(DecodeError::Syntax.description(), "malformed post object");
    assert_eq!(DecodeError::BadId.description(), "malformed id");
    assert_eq!(
        DecodeError::BadTimestamp.description(),
        "malformed created_at timestamp"
    );
}
