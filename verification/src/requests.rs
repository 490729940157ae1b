//! Plain request and payload shapes handed into the core by its callers,
//! and the default tag set created for a fresh account.

use vstd::prelude::*;
use vstd::string::*;

verus! {

/// A login attempt.
pub struct UserLoginRequest {
    pub email: String,
    pub password: String,
}

/// The fields of a registration completion.
pub struct UserCreateRequest {
    pub user_id: String,
    pub email: String,
    pub display_name: Option<String>,
    pub password: String,
}

/// A self-service profile update; absent fields stay unchanged.
pub struct UserUpdateRequest {
    pub email: Option<String>,
    pub display_name: Option<String>,
    pub password: Option<String>,
}

/// A batch of memo ids.
pub struct MemoRequest {
    pub memo_id: Vec<String>,
}

/// A request to create a memo.
pub struct MemoCreateRequest {
    pub user_id: String,
    pub tag_id: Option<Vec<String>>,
    pub content: String,
}

/// A request to update a memo.
pub struct MemoUpdateRequest {
    pub memo_id: String,
    pub tag_id: Option<Vec<String>>,
    pub content: String,
}

/// A request to summarize a set of memos.
pub struct SummarizeRequest {
    pub memo_ids: Vec<String>,
}

/// A request to create a tag.
pub struct CreateTagRequest {
    pub name: String,
    pub color_code: String,
}

/// A request to rename or recolor a tag.
pub struct UpdateTagRequest {
    pub name: String,
    pub color_code: String,
}

/// The default tags created best-effort for a new account.
pub fn default_tag_requests() -> (r: Vec<CreateTagRequest>)
    ensures
        r@.len() == 5,
{
    let mut r: Vec<CreateTagRequest> = Vec::new();
    r.push(CreateTagRequest { name: "Work".to_owned(), color_code: "#3B82F6".to_owned() });
    r.push(CreateTagRequest { name: "Life".to_owned(), color_code: "#10B981".to_owned() });
    r.push(CreateTagRequest { name: "Plans".to_owned(), color_code: "#EF4444".to_owned() });
    r.push(CreateTagRequest { name: "Ideas".to_owned(), color_code: "#F59E0B".to_owned() });
    r.push(CreateTagRequest { name: "Hobby".to_owned(), color_code: "#8B5CF6".to_owned() });
    r
}

} // verus!
