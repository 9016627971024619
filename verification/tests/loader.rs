use experimental_cms::hook::{Hook, MetaProp, MetaValue, ModuleRecord};
use experimental_cms::loader::{
    decorator_lowering, detect_jsx, pipeline_passes, LoadAction, LoadError, LoadStage, Loader, ParseOptions,
    Pass, ES_TARGET,
};

#[test]
fn jsx_flavour_follows_the_extension() {
    assert!(detect_jsx("./js/app.tsx"));
    assert!(detect_jsx("widget.jsx"));
    assert!(!detect_jsx("./js/util.ts"));
    assert!(!detect_jsx("legacy.js"));
    assert!(!detect_jsx("app.tsx.bak"));
    assert!(!detect_jsx(""));
}

#[test]
fn a_load_runs_its_steps_in_order() {
    let mut loader = Loader::begin("./js/app.tsx");
    let mut actions = Vec::new();
    for _ in 0..8 {
        actions.push(loader.action());
        loader = loader.advance(Ok(()));
    }
    assert_eq!(
        actions,
        vec![
            LoadAction::Read("./js/app.tsx".to_string()),
            LoadAction::Parse(ParseOptions { jsx: true, decorators: true, target: 2020 }),
            LoadAction::Apply(Pass::ScopeMarking),
            LoadAction::Apply(Pass::DecoratorLowering),
            LoadAction::Apply(Pass::JsxLowering),
            LoadAction::Apply(Pass::TypeErasure),
            LoadAction::Apply(Pass::HelperInjection),
            LoadAction::Deliver,
        ]
    );
    assert_eq!(loader.action(), LoadAction::Deliver);
}

#[test]
fn plain_typescript_is_parsed_without_jsx() {
    let loader = Loader::begin("util.ts").advance(Ok(()));
    assert_eq!(
        loader.action(),
        LoadAction::Parse(ParseOptions { jsx: false, decorators: true, target: ES_TARGET })
    );
}

#[test]
fn a_parse_failure_ends_the_load() {
    let loader = Loader::begin("bad.ts").advance(Ok(())).advance(Err("unexpected token".to_string()));
    let failure = LoadAction::Fail(LoadError {
        file: "bad.ts".to_string(),
        stage: LoadStage::Parse,
        detail: "unexpected token".to_string(),
    });
    assert_eq!(loader.action(), failure);
    let loader = loader.advance(Ok(())).advance(Err("again".to_string())).advance(Ok(()));
    assert_eq!(loader.action(), failure);
}

#[test]
fn a_read_failure_names_the_file() {
    let loader = Loader::begin("gone.ts").advance(Err("no such file".to_string()));
    assert_eq!(
        loader.action(),
        LoadAction::Fail(LoadError {
            file: "gone.ts".to_string(),
            stage: LoadStage::Read,
            detail: "no such file".to_string(),
        })
    );
}

#[test]
fn a_transform_failure_names_the_pass() {
    let loader = Loader::begin("a.ts")
        .advance(Ok(()))
        .advance(Ok(()))
        .advance(Ok(()))
        .advance(Ok(()))
        .advance(Err("bad element".to_string()));
    assert_eq!(
        loader.action(),
        LoadAction::Fail(LoadError {
            file: "a.ts".to_string(),
            stage: LoadStage::Transform(Pass::JsxLowering),
            detail: "bad element".to_string(),
        })
    );
}

#[test]
fn a_delivered_load_ignores_outcomes() {
    let mut loader = Loader::begin("a.ts");
    for _ in 0..7 {
        loader = loader.advance(Ok(()));
    }
    assert_eq!(loader.action(), LoadAction::Deliver);
    let loader = loader.advance(Err("late".to_string()));
    assert_eq!(loader.action(), LoadAction::Deliver);
}

#[test]
fn the_pipeline_has_five_passes() {
    assert_eq!(
        pipeline_passes(),
        vec![
            Pass::ScopeMarking,
            Pass::DecoratorLowering,
            Pass::JsxLowering,
            Pass::TypeErasure,
            Pass::HelperInjection,
        ]
    );
}

#[test]
fn decorators_are_lowered_the_legacy_way() {
    let options = decorator_lowering();
    assert!(options.legacy);
    assert!(!options.emit_metadata);
    assert!(!options.use_define_for_class_fields);
}

#[test]
fn entry_metadata_refers_to_import_meta() {
    let record = ModuleRecord { file_name: "js/app.tsx".to_string(), is_entry: true };
    assert_eq!(
        Hook.get_import_meta_props(&record),
        vec![
            MetaProp { key: "url".to_string(), value: MetaValue::Text("js/app.tsx".to_string()) },
            MetaProp { key: "main".to_string(), value: MetaValue::ImportMeta("main".to_string()) },
        ]
    );
}

#[test]
fn other_modules_are_never_main() {
    let record = ModuleRecord { file_name: "js/util.ts".to_string(), is_entry: false };
    assert_eq!(
        Hook.get_import_meta_props(&record),
        vec![
            MetaProp { key: "url".to_string(), value: MetaValue::Text("js/util.ts".to_string()) },
            MetaProp { key: "main".to_string(), value: MetaValue::Flag(false) },
        ]
    );
}

#[test]
fn main_differs_between_entry_and_other_modules() {
    let entry = Hook.get_import_meta_props(&ModuleRecord {
        file_name: "js/app.tsx".to_string(),
        is_entry: true,
    });
    let other = Hook.get_import_meta_props(&ModuleRecord {
        file_name: "js/app.tsx".to_string(),
        is_entry: false,
    });
    assert_eq!(entry[1].key, other[1].key);
    assert_ne!(entry[1].value, other[1].value);
    assert_eq!(entry[0], other[0]);
}
