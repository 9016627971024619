//! Module metadata: the properties that stand for `import.meta` in a bundled
//! module.
//!
//! Every module of a bundle gets two properties: `url`, the name of the file
//! it came from, and `main`, which tells the entry module from the others.

use vstd::prelude::*;

verus! {

/// What the bundler knows of a module when it asks for its metadata.
pub struct ModuleRecord {
    /// The resolved file of the module, as text.
    pub file_name: String,
    /// Whether the bundle was started from this module.
    pub is_entry: bool,
}

/// The value of a metadata property.
#[derive(Debug, PartialEq, Eq)]
pub enum MetaValue {
    /// A string literal.
    Text(String),
    /// A boolean literal.
    Flag(bool),
    /// The named member of the running module's own `import.meta`, which is
    /// true only when the file is run as the program.
    ImportMeta(String),
}

/// A [`MetaValue`] as contracts see it.
pub enum MetaValueView {
    Text(Seq<char>),
    Flag(bool),
    ImportMeta(Seq<char>),
}

impl View for MetaValue {
    type V = MetaValueView;

    open spec fn view(&self) -> MetaValueView {
        match self {
            MetaValue::Text(text) => MetaValueView::Text(text@),
            MetaValue::Flag(flag) => MetaValueView::Flag(*flag),
            MetaValue::ImportMeta(member) => MetaValueView::ImportMeta(member@),
        }
    }
}

/// A metadata property: a key and its value.
#[derive(Debug, PartialEq, Eq)]
pub struct MetaProp {
    pub key: String,
    pub value: MetaValue,
}

/// A [`MetaProp`] as contracts see it.
pub struct MetaPropView {
    pub key: Seq<char>,
    pub value: MetaValueView,
}

impl View for MetaProp {
    type V = MetaPropView;

    open spec fn view(&self) -> MetaPropView {
        MetaPropView { key: self.key@, value: self.value@ }
    }
}

/// The `url` property of the module that came from `file_name`.
pub open spec fn url_prop(file_name: Seq<char>) -> MetaPropView {
    MetaPropView { key: "url"@, value: MetaValueView::Text(file_name) }
}

/// The `main` property: for the entry module its own `import.meta.main`, for
/// every other module the literal `false`.
pub open spec fn main_prop(is_entry: bool) -> MetaPropView {
    MetaPropView {
        key: "main"@,
        value: if is_entry {
            MetaValueView::ImportMeta("main"@)
        } else {
            MetaValueView::Flag(false)
        },
    }
}

/// The metadata properties of a module, in the order in which they are
/// spliced in.
pub open spec fn import_meta_props(file_name: Seq<char>, is_entry: bool) -> Seq<MetaPropView> {
    seq![url_prop(file_name), main_prop(is_entry)]
}

/// The properties of a list as contracts see them.
pub open spec fn prop_views(props: Seq<MetaProp>) -> Seq<MetaPropView> {
    props.map_values(|prop: MetaProp| prop@)
}

/// The `main` property tells the entry module from every other module,
/// whatever files the two came from.
pub proof fn lemma_main_tells_entry(entry_file: Seq<char>, other_file: Seq<char>)
    ensures
        import_meta_props(entry_file, true)[1].key == import_meta_props(other_file, false)[1].key,
        import_meta_props(entry_file, true)[1].value != import_meta_props(
            other_file,
            false,
        )[1].value,
        import_meta_props(other_file, false)[1].value == MetaValueView::Flag(false),
{
}

/// Synthesizes module metadata while a bundle is merged.
pub struct Hook;

impl Hook {
    /// The properties that stand for `import.meta` in the module of
    /// `module_record`.
    pub fn get_import_meta_props(&self, module_record: &ModuleRecord) -> (props: Vec<MetaProp>)
        ensures
            props.len() == 2,
            props[0]@ == url_prop(module_record.file_name@),
            props[1]@ == main_prop(module_record.is_entry),
            prop_views(props@) == import_meta_props(
                module_record.file_name@,
                module_record.is_entry,
            ),
    {
        let main = if module_record.is_entry {
            MetaValue::ImportMeta("main".to_string())
        } else {
            MetaValue::Flag(false)
        };
        let props = vec![
            MetaProp {
                key: "url".to_string(),
                value: MetaValue::Text(module_record.file_name.clone()),
            },
            MetaProp { key: "main".to_string(), value: main },
        ];
        props
    }
}

} // verus!
