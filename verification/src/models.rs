//! The post entity: a titled, authored, timestamped text record with a
//! 128-bit unique identifier.

use vstd::prelude::*;

verus! {

/// Mathematical model of a post: the field texts and the identifier value.
pub struct PostView {
    pub title: Seq<char>,
    pub body: Seq<char>,
    pub author: Seq<char>,
    pub created_at: Seq<char>,
    pub id: u128,
}

/// One stored post. The identifier and timestamp are assigned by the client
/// at creation and never change afterwards.
#[derive(Debug)]
pub struct Post {
    pub title: String,
    pub body: String,
    pub author: String,
    pub created_at: String,
    pub id: u128,
}

impl View for Post {
    type V = PostView;

    open spec fn view(&self) -> PostView {
        PostView {
            title: self.title@,
            body: self.body@,
            author: self.author@,
            created_at: self.created_at@,
            id: self.id,
        }
    }
}

impl Post {
    pub fn new(title: &str, body: &str, author: &str, created_at: &str, id: u128) -> (p: Post)
        ensures
            p@ == (PostView { title: title@, body: body@, author: author@, created_at: created_at@, id }),
    {
        Post {
            title: String::from_str(title),
            body: String::from_str(body),
            author: String::from_str(author),
            created_at: String::from_str(created_at),
            id,
        }
    }

    /// A field-for-field copy of this post.
    pub fn duplicate(&self) -> (p: Post)
        ensures
            p@ == self@,
    {
        Post {
            title: self.title.clone(),
            body: self.body.clone(),
            author: self.author.clone(),
            created_at: self.created_at.clone(),
            id: self.id,
        }
    }
}

} // verus!
