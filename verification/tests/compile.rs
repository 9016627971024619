use experimental_cms::compile::{
    inject_context, plan_compile, plan_compile_as, BundleOptions, EntryTable, CONTEXT_GLOBAL, DEBUG_ARTIFACT,
    ENTRY_NAME, NEWLINE, PROJECT_ROOT,
};
use experimental_cms::models::{Post, PostType, PostWithPostType};
use experimental_cms::resolver::FileIdentity;

fn source(path: &str) -> FileIdentity {
    FileIdentity::Real(path.to_string())
}

#[test]
fn a_compile_bundles_one_entry_from_the_project_root() {
    let plan = plan_compile("app.tsx");
    assert_eq!(plan.entries.get("main"), Some(&source("./js/app.tsx")));
    assert_eq!(plan.entries.entries().len(), 1);
    assert_eq!(plan.entries.entries()[0].name, ENTRY_NAME);
    let nested = plan_compile("admin/posts.tsx");
    assert_eq!(nested.entries.get(ENTRY_NAME), Some(&source("./js/admin/posts.tsx")));
    assert_eq!(nested.entries.get("admin"), None);
}

#[test]
fn a_compile_is_minified_and_follows_require() {
    let plan = plan_compile("app.tsx");
    assert_eq!(plan.bundle, BundleOptions { require: true, disable_inliner: false });
    assert!(plan.emit.minify);
    assert!(!plan.emit.comments);
    assert_eq!(plan.emit.newline, "\n");
    assert_eq!(plan.artifact, "out.js");
    let readable = plan_compile_as("app.tsx", false);
    assert!(!readable.emit.minify);
    assert!(!readable.emit.comments);
    assert_eq!(readable.entries.get("main"), Some(&source("./js/app.tsx")));
    assert_eq!(readable.bundle, BundleOptions { require: true, disable_inliner: false });
}

#[test]
fn fixed_names() {
    assert_eq!(PROJECT_ROOT, "./js");
    assert_eq!(ENTRY_NAME, "main");
    assert_eq!(DEBUG_ARTIFACT, "out.js");
    assert_eq!(NEWLINE, "\n");
    assert_eq!(CONTEXT_GLOBAL, "context");
}

#[test]
fn an_entry_name_stands_for_one_file() {
    let table = EntryTable::new()
        .insert("main".to_string(), source("a.ts"))
        .insert("admin".to_string(), source("b.ts"))
        .insert("main".to_string(), source("c.ts"));
    assert_eq!(table.get("main"), Some(&source("c.ts")));
    assert_eq!(table.get("admin"), Some(&source("b.ts")));
    assert_eq!(table.get("other"), None);
    assert_eq!(table.entries().len(), 2);
}

#[test]
fn an_empty_table_has_no_entries() {
    let table = EntryTable::new();
    assert_eq!(table.get("main"), None);
    assert!(table.entries().is_empty());
}

#[test]
fn context_data_precedes_the_program() {
    assert_eq!(
        inject_context("render();", "{\"name\":\"world\"}"),
        "globalThis.context = {\"name\":\"world\"};\nrender();"
    );
    assert_eq!(inject_context("", "null"), "globalThis.context = null;\n");
}

#[test]
fn a_post_keeps_the_id_of_its_type() {
    let full = PostWithPostType {
        id: "post:1".to_string(),
        title: "Hello".to_string(),
        content: "First post".to_string(),
        slug: "hello".to_string(),
        status: "published".to_string(),
        post_type: PostType {
            id: "postType:post".to_string(),
            singular: "Post".to_string(),
            plural: "Posts".to_string(),
            path_prefix: Some("/posts/".to_string()),
        },
    };
    let post = Post::from(full.clone());
    assert_eq!(post.id, "post:1");
    assert_eq!(post.title, "Hello");
    assert_eq!(post.content, "First post");
    assert_eq!(post.slug, "hello");
    assert_eq!(post.status, "published");
    assert_eq!(post.post_type, "postType:post");
    assert_eq!(full.post_type.path_prefix, Some("/posts/".to_string()));
}
