use post_store::database::Database;
use post_store::models::Post;

#[test]
fn empty_store_lists_nothing() {
    let db = Database::new();
    assert_eq!(db.list().len(), 0);
}

#[test]
fn listing_keeps_insertion_order() {
    let mut db = Database::new();
    db.add_post(Post::new("first", "b1", "@a", "2024-01-01T00:00:00Z", 1));
    db.add_post(Post::new("second", "b2", "@a", "2024-01-02T00:00:00Z", 2));
    db.add_post(Post::new("third", "b3", "@a", "2024-01-03T00:00:00Z", 3));
    let posts = db.list();
    assert_eq!(posts.len(), 3);
    assert_eq!(posts[0].title, "first");
    assert_eq!(posts[1].title, "second");
    assert_eq!(posts[2].title, "third");
    assert_eq!(posts[0].id, 1);
    assert_eq!(posts[1].id, 2);
    assert_eq!(posts[2].id, 3);
}

#[test]
fn find_returns_the_matching_post() {
    let mut db = Database::new();
    db.add_post(Post::new("one", "b1", "@a", "2024-01-01T00:00:00Z", 10));
    db.add_post(Post::new("two", "b2", "@b", "2024-01-02T00:00:00Z", 20));
    let p = db.find_post(20).expect("post 20 is stored");
    assert_eq!(p.title, "two");
    assert_eq!(p.body, "b2");
    assert_eq!(p.author, "@b");
    assert_eq!(p.created_at, "2024-01-02T00:00:00Z");
    assert_eq!(p.id, 20);
}

#[test]
fn find_never_returns_another_posts_data() {
    let mut db = Database::new();
    db.add_post(Post::new("one", "b1", "@a", "2024-01-01T00:00:00Z", 10));
    db.add_post(Post::new("two", "b2", "@b", "2024-01-02T00:00:00Z", 20));
    let p1 = db.find_post(10).expect("post 10 is stored");
    assert_eq!(p1.title, "one");
    let p2 = db.find_post(20).expect("post 20 is stored");
    assert_eq!(p2.title, "two");
    assert!(p1.id != p2.id);
}

#[test]
fn find_misses_an_unassigned_id() {
    let mut db = Database::new();
    db.add_post(Post::new("one", "b1", "@a", "2024-01-01T00:00:00Z", 10));
    assert!(db.find_post(99).is_none());
}

#[test]
fn find_returns_the_first_match_when_an_id_repeats() {
    let mut db = Database::new();
    db.add_post(Post::new("first", "b1", "@a", "2024-01-01T00:00:00Z", 10));
    db.add_post(Post::new("second", "b2", "@b", "2024-01-02T00:00:00Z", 10));
    let p = db.find_post(10).expect("a post with id 10 is stored");
    assert_eq!(p.title, "first");
}

#[test]
fn round_trip_add_then_find() {
    let mut db = Database::new();
    let p = Post::new("T", "B", "@a", "2024-01-01T00:00:00Z", 7);
    db.add_post(p);
    let got = db.find_post(7).expect("the post just added is found");
    assert_eq!(got.title, "T");
    assert_eq!(got.body, "B");
    assert_eq!(got.author, "@a");
    assert_eq!(got.created_at, "2024-01-01T00:00:00Z");
    assert_eq!(got.id, 7);
}
