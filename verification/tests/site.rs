use experimental_cms::models::PostType;
use experimental_cms::site::{
    after_create, create_post_statement, create_with_slug, find_post_type, keep_successes,
    listed_post_type, needs_seeding, page_lookup, page_request, posts_lookup, record_lookup,
    remove_all, serves_path, slug_for, Level, TemplateError, TemplateErrors, CREATE_FAILURE,
    CREATE_LOCATION, DEFAULT_POST_TYPE, PAGE_POST_TYPE, PAGE_PREFIX, POSTS_LOCATION,
    POST_TYPES_STATEMENT, SEED_PAGES_STATEMENT, SEED_POSTS_STATEMENT,
};

fn post_type(id: &str, prefix: Option<&str>) -> PostType {
    PostType {
        id: id.to_string(),
        singular: "One".to_string(),
        plural: "Many".to_string(),
        path_prefix: prefix.map(|p| p.to_string()),
    }
}

fn site_types() -> Vec<PostType> {
    vec![
        post_type("postType:page", None),
        post_type("postType:post", Some("/posts/")),
        post_type("postType:note", Some("/posts/notes/")),
        post_type("postType:doc", Some("/docs/")),
    ]
}

#[test]
fn a_post_type_serves_the_paths_under_its_prefix() {
    assert!(serves_path(&post_type("t", Some("/posts/")), "/posts/hello"));
    assert!(serves_path(&post_type("t", Some("/posts/")), "/posts/"));
    assert!(!serves_path(&post_type("t", Some("/posts/")), "/posts"));
    assert!(!serves_path(&post_type("t", Some("/posts/")), "/docs/posts/"));
    assert!(!serves_path(&post_type("t", None), "/posts/hello"));
    assert!(serves_path(&post_type("t", Some("")), "/anything"));
}

#[test]
fn the_first_serving_post_type_is_found() {
    let types = site_types();
    assert_eq!(find_post_type(&types, "/posts/hello"), Some(1));
    assert_eq!(find_post_type(&types, "/posts/notes/today"), Some(1));
    assert_eq!(find_post_type(&types, "/docs/intro"), Some(3));
    assert_eq!(find_post_type(&types, "/about"), None);
    assert_eq!(find_post_type(&Vec::new(), "/about"), None);
}

#[test]
fn remove_all_takes_out_every_occurrence() {
    assert_eq!(remove_all("banana", "an"), "ba");
    assert_eq!(remove_all("aaa", "aa"), "a");
    assert_eq!(remove_all("/a/b/", "/"), "ab");
    assert_eq!(remove_all("abc", ""), "abc");
    assert_eq!(remove_all("", "x"), "");
    assert_eq!(remove_all("abc", "abcd"), "abc");
    assert_eq!(remove_all("abcabc", "abc"), "");
    assert_eq!(remove_all("xéyéz", "é"), "xyz");
}

#[test]
fn a_slug_is_the_path_without_prefix_and_trailing_separators() {
    assert_eq!(slug_for("/posts/hello-world/", "/posts/"), "hello-world");
    assert_eq!(slug_for("/posts/hello-world", "/posts/"), "hello-world");
    assert_eq!(slug_for("/posts/a/b//", "/posts/"), "a/b");
    assert_eq!(slug_for("/about/", "/"), "about");
    assert_eq!(slug_for("/", "/"), "");
}

#[test]
fn page_lookup_names_slug_and_type() {
    assert_eq!(
        page_lookup("hello", "postType:post"),
        "SELECT * FROM post WHERE slug = 'hello' AND type = 'postType:post' AND status = 'published'"
    );
}

#[test]
fn a_request_under_a_prefix_asks_for_that_post_type() {
    assert_eq!(
        page_request(&site_types(), "/posts/hello-world/"),
        "SELECT * FROM post WHERE slug = 'hello-world' AND type = 'postType:post' AND status = 'published'"
    );
    assert_eq!(
        page_request(&site_types(), "/docs/intro"),
        "SELECT * FROM post WHERE slug = 'intro' AND type = 'postType:doc' AND status = 'published'"
    );
}

#[test]
fn a_request_under_no_prefix_asks_for_a_page() {
    assert_eq!(
        page_request(&site_types(), "/about/"),
        "SELECT * FROM post WHERE slug = 'about' AND type = 'postType:page' AND status = 'published'"
    );
    assert_eq!(
        page_request(&Vec::new(), "/"),
        "SELECT * FROM post WHERE slug = '' AND type = 'postType:page' AND status = 'published'"
    );
    assert_eq!(PAGE_PREFIX, "/");
    assert_eq!(PAGE_POST_TYPE, "postType:page");
}

#[test]
fn listings_default_to_posts() {
    assert_eq!(listed_post_type(None), "postType:post");
    assert_eq!(listed_post_type(Some("postType:page".to_string())), "postType:page");
    assert_eq!(DEFAULT_POST_TYPE, "postType:post");
    assert_eq!(record_lookup("postType:post"), "SELECT * FROM postType:post");
    assert_eq!(posts_lookup("postType:post"), "SELECT * FROM post WHERE type = postType:post");
}

#[test]
fn a_post_is_created_under_the_slug_of_its_title() {
    let expected = "\n        CREATE post SET\n        title = 'Hello World!', \n        content = 'Body', \n        slug = 'hello-world',\n        created_at = time::now(),\n        status = 'published',\n        type = postType:post\n        ";
    assert_eq!(create_post_statement("Hello World!", "Body", "postType:post"), expected);
    assert_eq!(create_with_slug("Hello World!", "Body", "hello-world", "postType:post"), expected);
}

#[test]
fn slugs_are_lower_case_words_joined_by_hyphens() {
    let statement = create_post_statement("  The 101 Dalmatians  ", "", "t");
    assert!(statement.contains("slug = 'the-101-dalmatians',"));
    let statement = create_post_statement("alice@bob.com", "", "t");
    assert!(statement.contains("slug = 'alice-bob-com',"));
}

#[test]
fn after_a_created_post_comes_the_list() {
    let next = after_create(true);
    assert_eq!(next.flash, None);
    assert_eq!(next.location, "/admin/posts");
    assert_eq!(POSTS_LOCATION, "/admin/posts");
}

#[test]
fn after_a_failed_post_comes_the_form_with_an_error() {
    let next = after_create(false);
    assert_eq!(next.flash, Some("Error creating post".to_string()));
    assert_eq!(next.location, "/admin/posts/create");
    assert_eq!(CREATE_FAILURE, "Error creating post");
    assert_eq!(CREATE_LOCATION, "/admin/posts/create");
}

#[test]
fn post_types_are_seeded_unless_they_are_there() {
    assert!(needs_seeding(None));
    assert!(needs_seeding(Some(false)));
    assert!(!needs_seeding(Some(true)));
    assert_eq!(POST_TYPES_STATEMENT, "SELECT * FROM postType");
    assert_eq!(SEED_PAGES_STATEMENT, "CREATE postType:page SET singular = 'Page', plural = 'Pages'");
    assert_eq!(
        SEED_POSTS_STATEMENT,
        "CREATE postType:post SET singular = 'Post', plural = 'Posts', path_prefix = '/posts/'"
    );
}

#[test]
fn only_successes_are_kept_in_order() {
    let results: Vec<Result<u32, String>> =
        vec![Ok(1), Err("a".to_string()), Ok(2), Ok(3), Err("b".to_string())];
    assert_eq!(keep_successes(results), vec![1, 2, 3]);
    let none: Vec<Result<u32, String>> = vec![Err("a".to_string())];
    assert!(keep_successes(none).is_empty());
    let empty: Vec<Result<u32, String>> = Vec::new();
    assert!(keep_successes(empty).is_empty());
}

#[test]
fn flashes_become_template_errors_one_for_one() {
    let flashes = vec![
        (Level::Error, "Error creating post".to_string()),
        (Level::Info, "Saved".to_string()),
    ];
    let errors = TemplateErrors::from(flashes);
    assert_eq!(
        errors,
        TemplateErrors::new(vec![
            TemplateError { level: Level::Error, message: "Error creating post".to_string() },
            TemplateError { level: Level::Info, message: "Saved".to_string() },
        ])
    );
    assert!(TemplateErrors::from(Vec::new()).errors.is_empty());
}
