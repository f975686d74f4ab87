//! Plain data carried between the transport layer and the core: the token
//! payload, the rows the surrounding store serves, and the request bodies
//! of the mutating endpoints.

use vstd::prelude::*;

verus! {

/// A token's payload: who is acting, until when the token holds, and
/// whether the holder is an administrator (`is_admin == 1`).
#[derive(Clone, Copy, Debug, PartialEq, Eq, Structural)]
pub struct Claims {
    pub uid: i64,
    pub exp: u64,
    pub is_admin: i64,
}

#[derive(Clone, Debug)]
pub struct Post {
    pub post_id: i64,
    pub user_id: i64,
    pub date: i64,
    pub body: String,
    pub likes: i64,
    pub user_name: String,
    pub display_name: String,
    pub pfp_image: String,
    pub like_count: i64,
}

#[derive(Clone, Debug)]
pub struct Comment {
    pub post_id: i64,
    pub comment_id: i64,
    pub user_id: i64,
    pub body: String,
    pub date: i64,
    pub user_name: String,
    pub display_name: String,
    pub pfp_image: String,
}

#[derive(Clone, Debug)]
pub struct Profile {
    pub user_id: i64,
    pub user_name: String,
    pub display_name: String,
    pub description: String,
    pub pfp_image: String,
}

#[derive(Clone, Debug)]
pub struct PostList {
    pub post_list: Vec<Post>,
}

#[derive(Clone, Debug)]
pub struct ProfileList {
    pub profile_list: Vec<Profile>,
}

#[derive(Clone, Debug)]
pub struct TagList {
    pub tag_list: Vec<String>,
}

#[derive(Clone, Debug)]
pub struct CommentList {
    pub comment_list: Vec<Comment>,
}

#[derive(Clone, Debug)]
pub struct ImageList {
    pub image_list: Vec<String>,
}

#[derive(Clone, Copy, Debug, PartialEq, Eq, Structural)]
pub struct LikeCount {
    pub like_count: i64,
}

#[derive(Clone, Debug)]
pub struct LoginRequest {
    pub user_name: String,
    pub passwd: String,
    pub remember_password: bool,
}

#[derive(Clone, Debug)]
pub struct SignupRequest {
    pub user_name: String,
    pub passwd: String,
    pub remember_password: bool,
}

#[derive(Clone, Debug)]
pub struct PostCreateRequest {
    pub body: String,
    pub tags: Vec<String>,
}

#[derive(Clone, Debug)]
pub struct CommentCreateRequest {
    pub post_id: i64,
    pub body: String,
}

#[derive(Clone, Copy, Debug, PartialEq, Eq, Structural)]
pub struct LikeRequest {
    pub post_id: i64,
}

#[derive(Clone, Copy, Debug, PartialEq, Eq, Structural)]
pub struct UnlikeRequest {
    pub post_id: i64,
}

#[derive(Clone, Copy, Debug, PartialEq, Eq, Structural)]
pub struct UserDeleteRequest {
    pub user_id: i64,
}

#[derive(Clone, Copy, Debug, PartialEq, Eq, Structural)]
pub struct PostDeleteRequest {
    pub post_id: i64,
}

#[derive(Clone, Copy, Debug, PartialEq, Eq, Structural)]
pub struct UserUpgradeRequest {
    pub user_id: i64,
}

#[derive(Clone, Debug)]
pub struct UserBanRequest {
    pub user_id: i64,
    pub ban_length: i64,
    pub ban_message: String,
}

#[derive(Clone, Copy, Debug, PartialEq, Eq, Structural)]
pub struct UserUnbanRequest {
    pub user_id: i64,
}

#[derive(Clone, Debug)]
pub struct DisplayNameChangeRequest {
    pub new_display_name: String,
}

#[derive(Clone, Debug)]
pub struct UserNameChangeRequest {
    pub new_user_name: String,
}

#[derive(Clone, Debug)]
pub struct DescriptionChangeRequest {
    pub new_description: String,
}

#[derive(Clone, Copy, Debug, PartialEq, Eq, Structural)]
pub struct AddImageToPostRequest {
    pub image_id: i64,
    pub post_id: i64,
}

#[derive(Clone, Copy, Debug, PartialEq, Eq, Structural)]
pub struct SetPFPRequest {
    pub image_id: i64,
    pub user_id: i64,
}

#[derive(Clone, Copy, Debug, PartialEq, Eq, Structural)]
pub struct RemovePFPRequest {
    pub user_id: i64,
}

} // verus!
