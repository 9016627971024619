use std::collections::HashMap;
use std::path::PathBuf;
use std::sync::{Arc, Mutex};

use anyhow::Error;
use experimental_cms::compile::{inject_context, plan_compile, plan_compile_as, CompilePlan};
use experimental_cms::hook::{Hook, MetaProp, MetaValue, ModuleRecord};
use experimental_cms::loader::{decorator_lowering, LoadAction, Loader, Pass};
use experimental_cms::resolver::FileIdentity;
use experimental_cms::search::{Probe, Search, Step};
use experimental_cms::tree::FileTree;
use swc_bundler::{Bundler, Config, Load, ModuleData, Resolve};
use swc_common::comments::SingleThreadedComments;
use swc_common::sync::Lrc;
use swc_common::{FileName, FilePathMapping, Globals, Mark, SourceMap, Span};
use swc_ecma_ast::{
    Bool, EsVersion, Expr, IdentName, KeyValueProp, Lit, MemberExpr, MemberProp, MetaPropExpr,
    MetaPropKind, Program, PropName, Str,
};
use swc_ecma_codegen::text_writer::JsWriter;
use swc_ecma_codegen::Emitter;
use swc_ecma_loader::resolve::Resolution;
use swc_ecma_parser::{parse_file_as_module, Syntax, TsSyntax};
use swc_ecma_transforms_base::helpers::{inject_helpers, Helpers, HELPERS};
use swc_ecma_transforms_base::resolver;
use swc_ecma_transforms_proposal::decorators;
use swc_ecma_transforms_react::react;
use swc_ecma_transforms_typescript::strip;

fn canonical_path(path: &str) -> String {
    match FileIdentity::Real(path.to_string()).canonical() {
        FileIdentity::Real(clean) => clean,
        FileIdentity::Virtual(label) => label,
    }
}

fn identity_of(file: &FileName) -> FileIdentity {
    match file {
        FileName::Real(path) => FileIdentity::Real(path.to_string_lossy().into_owned()),
        other => FileIdentity::Virtual(other.to_string()),
    }
}

struct MemoryLoader {
    cm: Lrc<SourceMap>,
    sources: HashMap<String, String>,
    loads: Arc<Mutex<Vec<String>>>,
}

impl Load for MemoryLoader {
    fn load(&self, file: &FileName) -> Result<ModuleData, Error> {
        let path = match identity_of(file) {
            FileIdentity::Real(path) => path,
            FileIdentity::Virtual(label) => panic!("not a file: {}", label),
        };
        let unresolved_mark = Mark::new();
        let top_level_mark = Mark::new();
        let helpers = Helpers::new(false);
        let mut source_file = None;
        let mut program = None;
        let mut loader = Loader::begin(&path);
        loop {
            let outcome = match loader.action() {
                LoadAction::Read(path) => match self.sources.get(&canonical_path(&path)) {
                    Some(text) => {
                        self.loads.lock().unwrap().push(canonical_path(&path));
                        let name = Lrc::new(file.clone());
                        source_file = Some(self.cm.new_source_file(name, text.clone()));
                        Ok(())
                    }
                    None => Err(format!("no source for {}", path)),
                },
                LoadAction::Parse(options) => {
                    assert_eq!(options.target, 2020);
                    let syntax = Syntax::Typescript(TsSyntax {
                        tsx: options.jsx,
                        decorators: options.decorators,
                        ..Default::default()
                    });
                    let parsed = parse_file_as_module(
                        source_file.as_ref().unwrap(),
                        syntax,
                        EsVersion::Es2020,
                        None,
                        &mut vec![],
                    );
                    match parsed {
                        Ok(module) => {
                            program = Some(Program::Module(module));
                            Ok(())
                        }
                        Err(error) => Err(format!("{:?}", error.kind())),
                    }
                }
                LoadAction::Apply(pass) => {
                    let before = program.take().unwrap();
                    let cm = self.cm.clone();
                    program = Some(HELPERS.set(&helpers, || match pass {
                        Pass::ScopeMarking => {
                            before.apply(resolver(unresolved_mark, top_level_mark, false))
                        }
                        Pass::DecoratorLowering => {
                            let options = decorator_lowering();
                            before.apply(decorators(decorators::Config {
                                legacy: options.legacy,
                                emit_metadata: options.emit_metadata,
                                use_define_for_class_fields: options.use_define_for_class_fields,
                            }))
                        }
                        Pass::JsxLowering => before.apply(react::<SingleThreadedComments>(
                            cm,
                            None,
                            Default::default(),
                            top_level_mark,
                            unresolved_mark,
                        )),
                        Pass::TypeErasure => before.apply(strip(unresolved_mark, top_level_mark)),
                        Pass::HelperInjection => before.apply(inject_helpers(unresolved_mark)),
                    }));
                    Ok(())
                }
                LoadAction::Deliver => {
                    let module = match program.take().unwrap() {
                        Program::Module(module) => module,
                        Program::Script(_) => unreachable!(),
                    };
                    return Ok(ModuleData {
                        fm: source_file.take().unwrap(),
                        module,
                        helpers: Default::default(),
                    });
                }
                LoadAction::Fail(error) => {
                    return Err(Error::msg(format!(
                        "{:?} of {} failed: {}",
                        error.stage, error.file, error.detail
                    )));
                }
            };
            loader = loader.advance(outcome);
        }
    }
}

struct MemoryResolver {
    tree: FileTree,
}

impl Resolve for MemoryResolver {
    fn resolve(&self, base: &FileName, specifier: &str) -> Result<Resolution, Error> {
        let mut search = Search::begin(&identity_of(base), specifier);
        loop {
            let exists = match search.step() {
                Step::Ask(Probe::File(path)) => self.tree.is_file(&path),
                Step::Ask(Probe::Dir(path)) => self.tree.is_dir(&path),
                Step::Resolved(FileIdentity::Real(path)) => {
                    return Ok(Resolution {
                        filename: FileName::Real(PathBuf::from(path)),
                        slug: None,
                    });
                }
                Step::Resolved(FileIdentity::Virtual(label)) => {
                    return Err(Error::msg(format!("not a file: {}", label)));
                }
                Step::Failed(error) => return Err(Error::msg(error.message())),
            };
            search = search.answer(exists);
        }
    }
}

struct MetaHook;

fn meta_expr(value: MetaValue, span: Span) -> Expr {
    match value {
        MetaValue::Text(text) => Expr::Lit(Lit::Str(Str { span, value: text.into(), raw: None })),
        MetaValue::Flag(flag) => Expr::Lit(Lit::Bool(Bool { span, value: flag })),
        MetaValue::ImportMeta(member) => Expr::Member(MemberExpr {
            span,
            obj: Box::new(Expr::MetaProp(MetaPropExpr { span, kind: MetaPropKind::ImportMeta })),
            prop: MemberProp::Ident(IdentName::new(member.into(), span)),
        }),
    }
}

fn meta_prop(prop: MetaProp, span: Span) -> KeyValueProp {
    KeyValueProp {
        key: PropName::Ident(IdentName::new(prop.key.into(), span)),
        value: Box::new(meta_expr(prop.value, span)),
    }
}

impl swc_bundler::Hook for MetaHook {
    fn get_import_meta_props(
        &self,
        span: Span,
        module_record: &swc_bundler::ModuleRecord,
    ) -> Result<Vec<KeyValueProp>, Error> {
        let record = ModuleRecord {
            file_name: module_record.file_name.to_string(),
            is_entry: module_record.is_entry,
        };
        let props = Hook.get_import_meta_props(&record);
        Ok(props.into_iter().map(|prop| meta_prop(prop, span)).collect())
    }
}

struct Compiled {
    text: String,
    loads: Vec<String>,
}

fn compile_with(sources: &[(&str, &str)], plan: CompilePlan) -> Result<Compiled, Error> {
    let mut tree = FileTree::new();
    let mut texts = HashMap::new();
    for (path, text) in sources {
        tree.add_file(path);
        texts.insert(canonical_path(path), text.to_string());
    }
    let loads = Arc::new(Mutex::new(Vec::new()));
    let globals = Globals::new();
    let cm = Lrc::new(SourceMap::new(FilePathMapping::empty()));
    let mut bundler = Bundler::new(
        &globals,
        cm.clone(),
        MemoryLoader { cm: cm.clone(), sources: texts, loads: loads.clone() },
        MemoryResolver { tree },
        Config {
            require: plan.bundle.require,
            disable_inliner: plan.bundle.disable_inliner,
            ..Default::default()
        },
        Box::new(MetaHook),
    );
    let mut entries = HashMap::new();
    for entry in plan.entries.entries() {
        match &entry.file {
            FileIdentity::Real(path) => {
                entries.insert(entry.name.clone(), FileName::Real(PathBuf::from(path)));
            }
            FileIdentity::Virtual(label) => panic!("not a file: {}", label),
        }
    }
    let mut bundles = bundler.bundle(entries)?;
    let bundle = bundles.pop().unwrap();
    let mut buffer = vec![];
    {
        let writer = JsWriter::new(cm.clone(), &plan.emit.newline, &mut buffer, None);
        let mut emitter = Emitter {
            cfg: swc_ecma_codegen::Config::default().with_minify(plan.emit.minify),
            cm: cm.clone(),
            comments: None,
            wr: writer,
        };
        emitter.emit_module(&bundle.module).unwrap();
    }
    let text = String::from_utf8_lossy(&buffer).to_string();
    let loads = loads.lock().unwrap().clone();
    Ok(Compiled { text, loads })
}

fn compile(sources: &[(&str, &str)], entry_file: &str) -> Compiled {
    compile_with(sources, plan_compile(entry_file)).unwrap()
}

fn evaluate(program: String) -> String {
    let runtime = rquickjs::Runtime::new().unwrap();
    let context = rquickjs::Context::full(&runtime).unwrap();
    context.with(|ctx| ctx.eval::<String, String>(program).unwrap())
}

fn count(text: &str, part: &str) -> usize {
    text.matches(part).count()
}

#[test]
fn a_module_imported_twice_is_loaded_once() {
    let sources = [
        ("js/app.ts", "import { a } from './a';\nimport { b } from './b';\nglobalThis.sum = a + b;\n"),
        ("js/a.ts", "import { shared } from './lib/shared';\nexport const a = shared() + 1;\n"),
        ("js/b.ts", "import { shared } from './lib/../lib/shared.js';\nexport const b = shared() + 2;\n"),
        (
            "js/lib/shared.ts",
            "globalThis.loaded = (globalThis.loaded || 0) + 1;\nexport function shared(): number { return globalThis.loaded * 20; }\n",
        ),
    ];
    let compiled = compile(&sources, "app.ts");
    assert_eq!(count(&compiled.loads.join("\n"), "js/lib/shared.ts"), 1);
    assert_eq!(compiled.loads.len(), 4);
    assert_eq!(count(&compiled.text, "globalThis.loaded="), 1);
    let program = format!("{}\n'' + globalThis.loaded + ':' + globalThis.sum", compiled.text);
    assert_eq!(evaluate(program), "1:43");
}

#[test]
fn erasable_typescript_becomes_plain_javascript() {
    let sources = [(
        "js/plain.ts",
        "interface Point { x: number; y: number }\ntype Name = string;\nfunction norm(p: Point): number { return p.x * p.x + p.y * p.y; }\nconst label: Name = 'n';\nglobalThis.out = label + norm({ x: 3, y: 4 } as Point);\n",
    )];
    let compiled = compile_with(&sources, plan_compile_as("plain.ts", false)).unwrap();
    for token in ["interface", "type Name", ": number", ": Point", ": Name", " as Point"] {
        assert_eq!(count(&compiled.text, token), 0);
    }
    let program = format!("{}\nglobalThis.out", compiled.text);
    assert_eq!(evaluate(program), "n25");
}

#[test]
fn main_is_false_outside_the_entry_module() {
    let sources = [
        ("js/app.ts", "import { other } from './other';\nglobalThis.meta = [import.meta.url, other.url, '' + other.main];\n"),
        ("js/other.ts", "export const other = { url: import.meta.url, main: import.meta.main };\n"),
    ];
    let compiled = compile_with(&sources, plan_compile_as("app.ts", false)).unwrap();
    assert_eq!(count(&compiled.text, "main: false"), 1);
    assert_eq!(count(&compiled.text, "main: import.meta.main"), 1);
    assert_eq!(count(&compiled.text, "url: \"js/other.ts\""), 1);
}

#[test]
fn a_bundled_app_renders_its_context() {
    let sources = [
        (
            "js/app.tsx",
            "import { greeting } from './util.ts';\nconst React = {\n  createElement(tag: string, props: object | null, ...children: string[]): string {\n    return '<' + tag + '>' + children.join('') + '</' + tag + '>';\n  },\n};\nfunction App(data: { name: string }): string {\n  return <h1>{greeting}, {data.name}!</h1>;\n}\nApp(globalThis.context);\n",
        ),
        ("js/util.ts", "export const greeting: string = 'Hello';\n"),
    ];
    let compiled = compile(&sources, "app.tsx");
    assert_eq!(compiled.loads, vec!["js/app.tsx".to_string(), "js/util.ts".to_string()]);
    let program = inject_context(&compiled.text, "{\"name\":\"world\"}");
    assert_eq!(evaluate(program), "<h1>Hello, world!</h1>");
}

#[test]
fn a_missing_import_fails_the_whole_compile() {
    let sources = [("js/app.ts", "import { a } from './gone';\nglobalThis.a = a;\n")];
    let failure = compile_with(&sources, plan_compile("app.ts")).err().unwrap();
    let report = format!("{:#}", failure);
    assert!(report.contains("index not found: ./js/./gone"));
}

#[test]
fn a_malformed_source_fails_the_whole_compile() {
    let sources = [
        ("js/app.ts", "import { a } from './bad';\nglobalThis.a = a;\n"),
        ("js/bad.ts", "export const a = ;\n"),
    ];
    let failure = compile_with(&sources, plan_compile("app.ts")).err().unwrap();
    let report = format!("{:#}", failure);
    assert!(report.contains("Parse of js/bad.ts failed"));
}

#[test]
fn modules_that_import_each_other_are_loaded_once() {
    let sources = [
        ("js/app.ts", "import { even } from './even';\nglobalThis.answer = '' + even(10) + even(7);\n"),
        (
            "js/even.ts",
            "import { odd } from './odd';\nexport function even(n: number): boolean { return n === 0 ? true : odd(n - 1); }\n",
        ),
        (
            "js/odd.ts",
            "import { even } from './even.js';\nexport function odd(n: number): boolean { return n === 0 ? false : even(n - 1); }\n",
        ),
    ];
    let compiled = compile(&sources, "app.ts");
    let mut loads = compiled.loads.clone();
    loads.sort();
    assert_eq!(loads, vec!["js/app.ts".to_string(), "js/even.ts".to_string(), "js/odd.ts".to_string()]);
    let program = format!("{}\nglobalThis.answer", compiled.text);
    assert_eq!(evaluate(program), "truefalse");
}
