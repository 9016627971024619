//! What the site's request handlers decide: which post type a request path
//! belongs to, which slug it asks for, and the statements that go to the
//! database.
//!
//! The handlers themselves, the database and the flash cookies are outside
//! this library. What is here takes plain values and gives plain values.

use crate::models::PostType;
use crate::path::{
    replace_all, replaced, starts_with, trim_separators, trim_trailing_separators,
};
use vstd::prelude::*;

verus! {

/// The post type that is listed where a request names none.
pub const DEFAULT_POST_TYPE: &'static str = "postType:post";

/// The post type of pages, which are served where no prefix matches.
pub const PAGE_POST_TYPE: &'static str = "postType:page";

/// The prefix under which pages are served.
pub const PAGE_PREFIX: &'static str = "/";

/// The statement that lists every post type.
pub const POST_TYPES_STATEMENT: &'static str = "SELECT * FROM postType";

/// The statement that creates the post type of pages.
pub const SEED_PAGES_STATEMENT: &'static str =
    "CREATE postType:page SET singular = 'Page', plural = 'Pages'";

/// The statement that creates the post type of blog posts.
pub const SEED_POSTS_STATEMENT: &'static str =
    "CREATE postType:post SET singular = 'Post', plural = 'Posts', path_prefix = '/posts/'";

/// Where a visitor is sent after a post was created.
pub const POSTS_LOCATION: &'static str = "/admin/posts";

/// Where a visitor is sent back to after creating a post failed.
pub const CREATE_LOCATION: &'static str = "/admin/posts/create";

/// What a visitor is told after creating a post failed.
pub const CREATE_FAILURE: &'static str = "Error creating post";

/// Whether posts of `post_type` are served under `path`: the type has a
/// prefix of its own, and the path begins with it.
pub open spec fn serves(post_type: PostType, path: Seq<char>) -> bool {
    match post_type.path_prefix {
        Some(prefix) => prefix@.is_prefix_of(path),
        None => false,
    }
}

/// `text` with every occurrence of `pattern` taken out, found from the left
/// and without overlap. An empty pattern takes nothing out.
pub open spec fn without(text: Seq<char>, pattern: Seq<char>) -> Seq<char> {
    replaced(text, pattern, Seq::empty())
}

/// The slug that `path` asks for under `prefix`: the path without the prefix
/// and without the separators it ends in.
pub open spec fn slug_of(path: Seq<char>, prefix: Seq<char>) -> Seq<char> {
    trim_separators(without(path, prefix))
}

/// The statement that finds the published post with `slug` among the posts
/// of type `post_type`.
pub open spec fn page_statement(slug: Seq<char>, post_type: Seq<char>) -> Seq<char> {
    "SELECT * FROM post WHERE slug = '"@ + slug + "' AND type = '"@ + post_type
        + "' AND status = 'published'"@
}

/// The statement that fetches the record `id`.
pub open spec fn record_statement(id: Seq<char>) -> Seq<char> {
    "SELECT * FROM "@ + id
}

/// The statement that lists the posts of type `post_type`.
pub open spec fn posts_statement(post_type: Seq<char>) -> Seq<char> {
    "SELECT * FROM post WHERE type = "@ + post_type
}

/// The statement that creates a published post.
pub open spec fn create_statement(
    title: Seq<char>,
    content: Seq<char>,
    slug: Seq<char>,
    post_type: Seq<char>,
) -> Seq<char> {
    "\n        CREATE post SET\n        title = '"@ + title + "', \n        content = '"@ + content
        + "', \n        slug = '"@ + slug
        + "',\n        created_at = time::now(),\n        status = 'published',\n        type = "@
        + post_type + "\n        "@
}

/// The slug that `slugify::slugify` makes of `text`: lower-case ASCII words
/// joined by the first character of `separator`, without the stop words and
/// no longer than `max_length`.
pub uninterp spec fn slugified(
    text: Seq<char>,
    stop_words: Seq<char>,
    separator: Seq<char>,
    max_length: Option<usize>,
) -> Seq<char>;

/// The slug of a title: with no stop words, `-` between the words and no
/// limit on length.
pub open spec fn title_slug(title: Seq<char>) -> Seq<char> {
    slugified(title, Seq::empty(), "-"@, None)
}

/// Turns `text` into a slug.
///
/// Trusted: the body calls `slugify::slugify`, and the contract only names
/// its result, which depends on the arguments alone. The call takes the first
/// character of the separator and writes it out as one byte, so the
/// separator must begin with an ASCII character.
#[verifier::external_body]
fn make_slug(text: &str, stop_words: &str, separator: &str, max_length: Option<usize>) -> (out:
    String)
    requires
        separator@.len() > 0,
        separator@[0] as u32 <= 0x7f,
    ensures
        out@ == slugified(text@, stop_words@, separator@, max_length),
{
    slugify::slugify(text, stop_words, separator, max_length)
}

/// Whether posts of `post_type` are served under `path`.
pub fn serves_path(post_type: &PostType, path: &str) -> (yes: bool)
    ensures
        yes == serves(*post_type, path@),
{
    match &post_type.path_prefix {
        Some(prefix) => starts_with(path, prefix.as_str()),
        None => false,
    }
}

/// The first of `post_types` whose posts are served under `path`.
pub fn find_post_type(post_types: &Vec<PostType>, path: &str) -> (found: Option<usize>)
    ensures
        match found {
            Some(at) => {
                &&& at < post_types.len()
                &&& serves(post_types[at as int], path@)
                &&& forall|k: int| 0 <= k < at ==> !serves(#[trigger] post_types[k], path@)
            },
            None => forall|k: int|
                0 <= k < post_types.len() ==> !serves(#[trigger] post_types[k], path@),
        },
{
    let mut i: usize = 0;
    while i < post_types.len()
        invariant
            i <= post_types.len(),
            forall|k: int| 0 <= k < i ==> !serves(#[trigger] post_types[k], path@),
        decreases post_types.len() - i,
    {
        if serves_path(&post_types[i], path) {
            return Some(i);
        }
        i = i + 1;
    }
    None
}

/// `text` with every occurrence of `pattern` taken out.
pub fn remove_all(text: &str, pattern: &str) -> (out: String)
    ensures
        out@ == without(text@, pattern@),
{
    proof {
        reveal_strlit("");
        assert(""@ =~= Seq::<char>::empty());
    }
    replace_all(text, pattern, "")
}

/// The slug that `path` asks for under `prefix`.
pub fn slug_for(path: &str, prefix: &str) -> (slug: String)
    ensures
        slug@ == slug_of(path@, prefix@),
{
    let bare = remove_all(path, prefix);
    trim_trailing_separators(bare.as_str())
}

/// The statement that finds the published post with `slug` among the posts
/// of type `post_type`.
pub fn page_lookup(slug: &str, post_type: &str) -> (statement: String)
    ensures
        statement@ == page_statement(slug@, post_type@),
{
    let mut statement = "SELECT * FROM post WHERE slug = '".to_string();
    statement.append(slug);
    statement.append("' AND type = '");
    statement.append(post_type);
    statement.append("' AND status = 'published'");
    statement
}

/// The statement that finds the post that request `path` asks for: under
/// the first post type that serves the path, or else among the pages.
pub fn page_request(post_types: &Vec<PostType>, path: &str) -> (statement: String)
    ensures
        statement@ == match find_post_type_spec(post_types@, path@) {
            Some(at) => page_statement(
                slug_of(path@, post_types[at].path_prefix.unwrap()@),
                post_types[at].id@,
            ),
            None => page_statement(slug_of(path@, PAGE_PREFIX@), PAGE_POST_TYPE@),
        },
{
    proof {
        lemma_find_post_type(post_types@, path@);
    }
    match find_post_type(post_types, path) {
        Some(at) => {
            let post_type = &post_types[at];
            match &post_type.path_prefix {
                Some(prefix) => {
                    let slug = slug_for(path, prefix.as_str());
                    page_lookup(slug.as_str(), post_type.id.as_str())
                },
                None => {
                    let slug = slug_for(path, PAGE_PREFIX);
                    page_lookup(slug.as_str(), PAGE_POST_TYPE)
                },
            }
        },
        None => {
            let slug = slug_for(path, PAGE_PREFIX);
            page_lookup(slug.as_str(), PAGE_POST_TYPE)
        },
    }
}

/// The place of the first of `post_types` whose posts are served under
/// `path`.
pub open spec fn find_post_type_spec(post_types: Seq<PostType>, path: Seq<char>) -> Option<int>
    decreases post_types.len(),
{
    if post_types.len() == 0 {
        None
    } else {
        match find_post_type_spec(post_types.drop_last(), path) {
            Some(at) => Some(at),
            None => if serves(post_types.last(), path) {
                Some(post_types.len() - 1)
            } else {
                None
            },
        }
    }
}

/// The place found is the first that serves the path, and none is found only
/// where no post type serves it.
pub proof fn lemma_find_post_type(post_types: Seq<PostType>, path: Seq<char>)
    ensures
        match find_post_type_spec(post_types, path) {
            Some(at) => {
                &&& 0 <= at < post_types.len()
                &&& serves(post_types[at], path)
                &&& forall|k: int| 0 <= k < at ==> !serves(#[trigger] post_types[k], path)
            },
            None => forall|k: int|
                0 <= k < post_types.len() ==> !serves(#[trigger] post_types[k], path),
        },
    decreases post_types.len(),
{
    if post_types.len() > 0 {
        let front = post_types.drop_last();
        lemma_find_post_type(front, path);
        assert forall|k: int| 0 <= k < front.len() implies front[k] == post_types[k] by {}
        match find_post_type_spec(front, path) {
            Some(at) => {
                assert forall|k: int| 0 <= k < at implies !serves(
                    #[trigger] post_types[k],
                    path,
                ) by {
                    assert(front[k] == post_types[k]);
                }
            },
            None => {
                assert forall|k: int| 0 <= k < front.len() implies !serves(
                    #[trigger] post_types[k],
                    path,
                ) by {
                    assert(front[k] == post_types[k]);
                }
            },
        }
    }
}

/// The post type that a listing is for: the one asked for, or the default.
pub fn listed_post_type(asked: Option<String>) -> (post_type: String)
    ensures
        post_type@ == match asked {
            Some(id) => id@,
            None => DEFAULT_POST_TYPE@,
        },
{
    match asked {
        Some(id) => id,
        None => DEFAULT_POST_TYPE.to_string(),
    }
}

/// The statement that fetches the record `id`.
pub fn record_lookup(id: &str) -> (statement: String)
    ensures
        statement@ == record_statement(id@),
{
    let mut statement = "SELECT * FROM ".to_string();
    statement.append(id);
    statement
}

/// The statement that lists the posts of type `post_type`.
pub fn posts_lookup(post_type: &str) -> (statement: String)
    ensures
        statement@ == posts_statement(post_type@),
{
    let mut statement = "SELECT * FROM post WHERE type = ".to_string();
    statement.append(post_type);
    statement
}

/// The statement that creates a published post with the given slug.
pub fn create_with_slug(title: &str, content: &str, slug: &str, post_type: &str) -> (statement:
    String)
    ensures
        statement@ == create_statement(title@, content@, slug@, post_type@),
{
    let mut statement = "\n        CREATE post SET\n        title = '".to_string();
    statement.append(title);
    statement.append("', \n        content = '");
    statement.append(content);
    statement.append("', \n        slug = '");
    statement.append(slug);
    statement.append(
        "',\n        created_at = time::now(),\n        status = 'published',\n        type = ",
    );
    statement.append(post_type);
    statement.append("\n        ");
    statement
}

/// The statement that creates a published post, under the slug of its title.
pub fn create_post_statement(title: &str, content: &str, post_type: &str) -> (statement: String)
    ensures
        statement@ == create_statement(title@, content@, title_slug(title@), post_type@),
{
    proof {
        reveal_strlit("-");
    }
    let slug = make_slug(title, "", "-", None);
    assert(""@ =~= Seq::<char>::empty()) by {
        reveal_strlit("");
    }
    create_with_slug(title, content, slug.as_str(), post_type)
}

/// Where a visitor goes after an attempt to create a post, and what they are
/// told on the way.
pub struct AfterCreate {
    /// The error to flash, if creating failed.
    pub flash: Option<String>,
    /// The location to redirect to.
    pub location: String,
}

/// Decides what follows an attempt to create a post: on success the list of
/// posts, on failure the form again with an error.
pub fn after_create(created: bool) -> (next: AfterCreate)
    ensures
        match next.flash {
            Some(text) => !created && text@ == CREATE_FAILURE@,
            None => created,
        },
        next.location@ == if created {
            POSTS_LOCATION@
        } else {
            CREATE_LOCATION@
        },
{
    if created {
        AfterCreate { flash: None, location: POSTS_LOCATION.to_string() }
    } else {
        AfterCreate {
            flash: Some(CREATE_FAILURE.to_string()),
            location: CREATE_LOCATION.to_string(),
        }
    }
}

/// Whether the post types are still to be created: always, unless the first
/// row of their listing is there and counts as true.
pub fn needs_seeding(first_row: Option<bool>) -> (yes: bool)
    ensures
        yes == !(first_row == Some(true)),
{
    match first_row {
        Some(truthy) => !truthy,
        None => true,
    }
}

/// The results that succeeded, in the order in which they came.
pub open spec fn successes<T, E>(results: Seq<Result<T, E>>) -> Seq<T>
    decreases results.len(),
{
    if results.len() == 0 {
        Seq::empty()
    } else {
        let front = successes(results.drop_last());
        match results.last() {
            Ok(value) => front.push(value),
            Err(_) => front,
        }
    }
}

/// Keeps the results that succeeded and drops the failures.
pub fn keep_successes<T, E>(results: Vec<Result<T, E>>) -> (kept: Vec<T>)
    ensures
        kept@ == successes(results@),
{
    let ghost all = results@;
    let mut results = results;
    let mut reversed: Vec<T> = Vec::new();
    while results.len() > 0
        invariant
            successes(results@) + reversed@.reverse() == successes(all),
        decreases results.len(),
    {
        let last = results.pop().unwrap();
        match last {
            Ok(value) => {
                reversed.push(value);
            },
            Err(_) => {},
        }
    }
    let mut kept: Vec<T> = Vec::new();
    while reversed.len() > 0
        invariant
            kept@ + reversed@.reverse() == successes(all),
        decreases reversed.len(),
    {
        let value = reversed.pop().unwrap();
        kept.push(value);
    }
    kept
}

/// How loud a flash message is.
#[derive(Clone, Copy, Debug, PartialEq, Eq, Structural)]
pub enum Level {
    Debug,
    Info,
    Success,
    Warning,
    Error,
}

/// A message for the visitor, as templates get it.
#[derive(Debug, PartialEq, Eq)]
pub struct TemplateError {
    pub level: Level,
    pub message: String,
}

/// The messages for the visitor, as templates get them.
#[derive(Debug, PartialEq, Eq)]
pub struct TemplateErrors {
    pub errors: Vec<TemplateError>,
}

impl TemplateErrors {
    /// Wraps a list of messages.
    pub fn new(errors: Vec<TemplateError>) -> (out: TemplateErrors)
        ensures
            out.errors == errors,
    {
        TemplateErrors { errors }
    }

    /// The messages of the incoming flashes, one for one and in their order.
    pub fn from(flashes: Vec<(Level, String)>) -> (out: TemplateErrors)
        ensures
            out.errors.len() == flashes.len(),
            forall|i: int|
                0 <= i < flashes.len() ==> (#[trigger] out.errors[i]).level == flashes[i].0
                    && out.errors[i].message == flashes[i].1,
    {
        let mut errors: Vec<TemplateError> = Vec::new();
        let mut i: usize = 0;
        while i < flashes.len()
            invariant
                i <= flashes.len(),
                errors.len() == i,
                forall|k: int|
                    0 <= k < i ==> (#[trigger] errors[k]).level == flashes[k].0
                        && errors[k].message == flashes[k].1,
            decreases flashes.len() - i,
        {
            errors.push(TemplateError { level: flashes[i].0, message: flashes[i].1.clone() });
            i = i + 1;
        }
        TemplateErrors { errors }
    }
}

} // verus!
