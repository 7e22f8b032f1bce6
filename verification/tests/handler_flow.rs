use post_store::database::Database;
use post_store::handlers::{Handlers, JsonAfterMiddleware, RouteParam};
use post_store::models::Post;

const SAMPLE: &str = "{\"title\":\"T\",\"body\":\"B\",\"author\":\"@a\",\"created_at\":\"2024-01-01T00:00:00Z\",\"id\":\"550e8400-e29b-41d4-a716-446655440000\"}";
const SAMPLE_UUID: &str = "550e8400-e29b-41d4-a716-446655440000";

#[test]
fn create_show_list_scenario() {
    let mut h = Handlers::new(Database::new());

    let created = h.create_post.handle(&mut h.database, SAMPLE);
    assert_eq!(created.status, 201);
    assert_eq!(created.body, SAMPLE);

    let shown = h
        .show_post
        .handle(&h.database, &RouteParam::Value(String::from(SAMPLE_UUID)));
    assert_eq!(shown.status, 200);
    assert_eq!(
        shown.body,
        "{\"title\":\"T\",\"body\":\"B\",\"author\":\"@a\",\"created_at\":\"2024-01-01T00:00:00Z\",\"id\":\"550e8400-e29b-41d4-a716-446655440000\"}"
    );

    let listed = h.list_post.handle(&h.database);
    assert_eq!(listed.status, 200);
    assert_eq!(listed.body, format!("[{}]", shown.body));
}

#[test]
fn show_unassigned_id_is_404_with_empty_body() {
    let mut h = Handlers::new(Database::new());
    h.create_post.handle(&mut h.database, SAMPLE);
    let r = h.show_post.handle(
        &h.database,
        &RouteParam::Value(String::from("123e4567-e89b-12d3-a456-426614174000")),
    );
    assert_eq!(r.status, 404);
    assert_eq!(r.body, "");
}

#[test]
fn show_malformed_id_is_400() {
    let mut h = Handlers::new(Database::new());
    h.create_post.handle(&mut h.database, SAMPLE);
    let r = h
        .show_post
        .handle(&h.database, &RouteParam::Value(String::from("not-a-uuid")));
    assert_eq!(r.status, 400);
    assert_eq!(r.body, "");
}

#[test]
fn show_missing_param_is_400_and_missing_context_is_500() {
    let h = Handlers::new(Database::new());
    let r = h.show_post.handle(&h.database, &RouteParam::MissingParam);
    assert_eq!(r.status, 400);
    assert_eq!(r.body, "");
    let r = h.show_post.handle(&h.database, &RouteParam::MissingContext);
    assert_eq!(r.status, 500);
    assert_eq!(r.body, "");
}

#[test]
fn create_malformed_body_is_400_and_leaves_the_store_unchanged() {
    let mut h = Handlers::new(Database::new());
    let before = h.list_post.handle(&h.database);
    let r = h.create_post.handle(&mut h.database, "{not json");
    assert_eq!(r.status, 400);
    assert_eq!(r.body, "malformed post object");
    let after = h.list_post.handle(&h.database);
    assert_eq!(after.body, before.body);
    assert_eq!(after.body, "[]");
}

#[test]
fn create_bad_timestamp_is_400() {
    let mut h = Handlers::new(Database::new());
    let body = "{\"title\":\"T\",\"body\":\"B\",\"author\":\"@a\",\"created_at\":\"yesterday\",\"id\":\"550e8400-e29b-41d4-a716-446655440000\"}";
    let r = h.create_post.handle(&mut h.database, body);
    assert_eq!(r.status, 400);
    assert_eq!(r.body, "malformed created_at timestamp");
    assert_eq!(h.list_post.handle(&h.database).body, "[]");
}

#[test]
fn create_echoes_the_raw_payload() {
    let mut h = Handlers::new(Database::new());
    let spaced = " { \"title\" : \"T\" , \"body\" : \"B\" , \"author\" : \"@a\" , \"created_at\" : \"2024-01-01T00:00:00Z\" , \"id\" : \"550e8400-e29b-41d4-a716-446655440000\" } ";
    let r = h.create_post.handle(&mut h.database, spaced);
    assert_eq!(r.status, 201);
    assert_eq!(r.body, spaced);
}

#[test]
fn listing_two_creates_keeps_their_order() {
    let mut h = Handlers::new(Database::new());
    let first = "{\"title\":\"one\",\"body\":\"B\",\"author\":\"@a\",\"created_at\":\"2024-01-01T00:00:00Z\",\"id\":\"00000000-0000-0000-0000-000000000001\"}";
    let second = "{\"title\":\"two\",\"body\":\"B\",\"author\":\"@a\",\"created_at\":\"2024-01-01T00:00:00Z\",\"id\":\"00000000-0000-0000-0000-000000000002\"}";
    assert_eq!(h.create_post.handle(&mut h.database, first).status, 201);
    assert_eq!(h.create_post.handle(&mut h.database, second).status, 201);
    let listed = h.list_post.handle(&h.database);
    assert_eq!(listed.body, format!("[{},{}]", first, second));
}

#[test]
fn after_middleware_stamps_the_json_content_type() {
    let h = Handlers::new(Database::new());
    let r = h.list_post.handle(&h.database);
    assert_eq!(r.content_type, "");
    let r = JsonAfterMiddleware {}.after(r);
    assert_eq!(r.status, 200);
    assert_eq!(r.body, "[]");
    assert_eq!(r.content_type, "application/json");
}

#[test]
fn handlers_share_one_store() {
    let mut db = Database::new();
    db.add_post(Post::new("seed", "B", "@a", "2024-01-01T00:00:00Z", 5));
    let mut h = Handlers::new(db);
    assert_eq!(h.create_post.handle(&mut h.database, SAMPLE).status, 201);
    let listed = h.list_post.handle(&h.database);
    assert!(listed.body.contains("\"seed\""));
    assert!(listed.body.contains("\"T\""));
}
