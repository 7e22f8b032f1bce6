//! Request handlers: thin adapters that translate list/create/show requests
//! into store operations and the JSON wire representation.
//!
//! Every failure is request-scoped: the store itself never fails, so errors
//! only arise at the decoding and parameter-parsing boundary.

use vstd::prelude::*;
use crate::database::{Database, spec_find};
use crate::json::{
    error_text, spec_decode, spec_encode_post, spec_encode_posts, decode_post, encode_post,
    encode_posts,
};
use crate::ids::{parsed_uuid, parse_uuid};

verus! {

/// An HTTP-style response: a status code, a body, and the content type that
/// the after-middleware stamps on it.
pub struct Response {
    pub status: u16,
    pub body: String,
    pub content_type: String,
}

/// What the routing layer handed the show handler for the `id` path
/// parameter.
pub enum RouteParam {
    /// The routing context itself was absent: an internal wiring fault.
    MissingContext,
    /// The routing context carried no `id` parameter.
    MissingParam,
    /// The parameter's text.
    Value(String),
}

/// Answers a listing request.
pub struct ListPost {
}

impl ListPost {
    pub fn new() -> ListPost {
        ListPost {  }
    }

    /// Responds 200 with the JSON array of all stored posts, in insertion
    /// order. Encoding well-formed data never fails, so no error path is
    /// left.
    pub fn handle(&self, db: &Database) -> (r: Response)
        ensures
            r.status == 200,
            r.body@ == spec_encode_posts(db@),
            r.content_type@ == Seq::<char>::empty(),
    {
        let posts = db.list();
        Response { status: 200, body: encode_posts(&posts), content_type: String::new() }
    }
}

/// Answers a creation request.
pub struct CreatePost {
}

impl CreatePost {
    pub fn new() -> CreatePost {
        CreatePost {  }
    }

    /// Decodes the request body into a post. On success the post is appended
    /// to the store and the raw request payload is echoed back under 201; on
    /// a malformed payload the store is left untouched and the failure is
    /// described under 400.
    pub fn handle(&self, db: &mut Database, payload: &str) -> (r: Response)
        ensures
            match spec_decode(payload@) {
                Ok(p) => r.status == 201 && r.body@ == payload@
                    && final(db)@ == old(db)@.push(p),
                Err(e) => r.status == 400 && r.body@ == error_text(e)
                    && final(db)@ == old(db)@,
            },
            r.content_type@ == Seq::<char>::empty(),
    {
        match decode_post(payload) {
            Ok(post) => {
                db.add_post(post);
                Response {
                    status: 201,
                    body: String::from_str(payload),
                    content_type: String::new(),
                }
            },
            Err(e) => Response { status: 400, body: e.description(), content_type: String::new() },
        }
    }
}

/// Answers a read request for one post.
pub struct ShowPost {
}

impl ShowPost {
    pub fn new() -> ShowPost {
        ShowPost {  }
    }

    /// Responds 500 on a missing routing context, 400 on a missing or
    /// unparseable `id` parameter, 404 with an empty body when no post
    /// carries the id, and 200 with the post's JSON text on a hit.
    pub fn handle(&self, db: &Database, param: &RouteParam) -> (r: Response)
        ensures
            match *param {
                RouteParam::MissingContext => r.status == 500
                    && r.body@ == Seq::<char>::empty(),
                RouteParam::MissingParam => r.status == 400 && r.body@ == Seq::<char>::empty(),
                RouteParam::Value(ref s) => match parsed_uuid(s@) {
                    None => r.status == 400 && r.body@ == Seq::<char>::empty(),
                    Some(v) => match spec_find(db@, v) {
                        Some(p) => r.status == 200 && r.body@ == spec_encode_post(p),
                        None => r.status == 404 && r.body@ == Seq::<char>::empty(),
                    },
                },
            },
            r.content_type@ == Seq::<char>::empty(),
    {
        match param {
            RouteParam::MissingContext => Response {
                status: 500,
                body: String::new(),
                content_type: String::new(),
            },
            RouteParam::MissingParam => Response {
                status: 400,
                body: String::new(),
                content_type: String::new(),
            },
            RouteParam::Value(s) => match parse_uuid(s.as_str()) {
                None => Response { status: 400, body: String::new(), content_type: String::new() },
                Some(v) => match db.find_post(v) {
                    Some(p) => Response {
                        status: 200,
                        body: encode_post(&p),
                        content_type: String::new(),
                    },
                    None => Response {
                        status: 404,
                        body: String::new(),
                        content_type: String::new(),
                    },
                },
            },
        }
    }
}

/// Stamps the JSON media type on every finished response, whatever its
/// status.
pub struct JsonAfterMiddleware {
}

impl JsonAfterMiddleware {
    /// Returns the response unchanged but for its content type, which is set
    /// to the JSON media type.
    pub fn after(&self, res: Response) -> (r: Response)
        ensures
            r.status == res.status,
            r.body@ == res.body@,
            r.content_type@ == "application/json"@,
    {
        Response {
            status: res.status,
            body: res.body,
            content_type: String::from_str("application/json"),
        }
    }
}

/// The three handlers over one shared store.
pub struct Handlers {
    pub list_post: ListPost,
    pub create_post: CreatePost,
    pub show_post: ShowPost,
    pub database: Database,
}

impl Handlers {
    pub fn new(db: Database) -> (h: Handlers)
        ensures
            h.database@ == db@,
    {
        Handlers {
            list_post: ListPost::new(),
            create_post: CreatePost::new(),
            show_post: ShowPost::new(),
            database: db,
        }
    }
}

} // verus!
