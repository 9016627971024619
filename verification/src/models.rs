//! The content model: post types, posts, and posts with their type attached.

use vstd::prelude::*;
use vstd::std_specs::convert::FromSpecImpl;

verus! {

/// A kind of post, such as pages or blog posts.
#[derive(Debug, Clone)]
pub struct PostType {
    pub id: String,
    pub singular: String,
    pub plural: String,
    /// The path under which posts of this type are served, if they have one
    /// of their own.
    pub path_prefix: Option<String>,
}

/// A post as it is stored: its type is held by id.
#[derive(Debug, Clone)]
pub struct Post {
    pub id: String,
    pub title: String,
    pub content: String,
    pub slug: String,
    pub status: String,
    pub post_type: String,
}

/// A post with its type fetched along.
#[derive(Debug, Clone)]
pub struct PostWithPostType {
    pub id: String,
    pub title: String,
    pub content: String,
    pub slug: String,
    pub status: String,
    pub post_type: PostType,
}

impl From<PostWithPostType> for Post {
    /// Drops the attached type and keeps its id.
    fn from(post_with_post_type: PostWithPostType) -> (post: Post) {
        Post {
            id: post_with_post_type.id,
            title: post_with_post_type.title,
            content: post_with_post_type.content,
            slug: post_with_post_type.slug,
            status: post_with_post_type.status,
            post_type: post_with_post_type.post_type.id,
        }
    }
}

impl FromSpecImpl<PostWithPostType> for Post {
    open spec fn obeys_from_spec() -> bool {
        true
    }

    open spec fn from_spec(post_with_post_type: PostWithPostType) -> Post {
        Post {
            id: post_with_post_type.id,
            title: post_with_post_type.title,
            content: post_with_post_type.content,
            slug: post_with_post_type.slug,
            status: post_with_post_type.status,
            post_type: post_with_post_type.post_type.id,
        }
    }
}

} // verus!
