//! The state shared while the files of one library are generated, and the
//! values handed to the file, enum, opaque and struct templates.
use vstd::prelude::*;

use crate::fields::FieldInfo;
use crate::imports::{string_views, ImportSet};
use crate::lifetimes::LifetimeEnv;
use crate::methods::MethodInfo;

verus! {

/// Generation context: the imports gathered for the file being written.
pub struct TyGenContext {
    pub imports: ImportSet,
}

/// A request to the formatter for the statement that imports `import`,
/// in the given flavour, from `relative_path`.
pub struct ImportRequest {
    pub import: String,
    pub typescript: bool,
    pub relative_path: &'static str,
}

/// `stmt` is what `fmt` returned for importing `name` from `./`.
pub open spec fn import_formatted<F: Fn(ImportRequest) -> String>(
    fmt: F,
    name: Seq<char>,
    typescript: bool,
    stmt: String,
) -> bool {
    exists|q: ImportRequest|
        q.import@ == name && q.typescript == typescript && q.relative_path == "./" && call_ensures(
            fmt,
            (q,),
            stmt,
        )
}

/// What the file template is given: the body, the language flavour, and
/// the import statements.
pub struct BaseTemplate {
    pub body: String,
    pub typescript: bool,
    pub imports: Vec<String>,
}

/// What an iterator type adds to its class: the JavaScript type of the
/// values it yields, if the type is an iterator.
pub struct SpecialMethodInfo {
    pub iterator: Option<String>,
    pub typescript: bool,
}

/// The methods of a type, with its special methods.
pub struct MethodsInfo {
    pub methods: Vec<MethodInfo>,
    pub special_methods: SpecialMethodInfo,
}

/// A variant of an enum: its name as declared, its discriminant, and its
/// documentation as written for JavaScript.
pub struct EnumVariant {
    pub name: String,
    pub discriminant: isize,
    pub docs: String,
}

/// What the enum template is given.
pub struct EnumTemplate {
    pub ty_name: String,
    pub typescript: bool,
    pub variants: Vec<EnumVariant>,
    pub doc_str: String,
    pub methods: MethodsInfo,
}

/// What the opaque-type template is given.
pub struct OpaqueTemplate {
    pub ty_name: String,
    pub typescript: bool,
    /// The type's lifetimes.
    pub lifetimes: LifetimeEnv,
    /// The C symbol that destroys a value of the type.
    pub destructor: String,
    pub docs: String,
    pub methods: MethodsInfo,
}

/// What the struct template is given. A struct used as an output only is
/// not mutable from JavaScript.
pub struct StructTemplate {
    pub ty_name: String,
    pub typescript: bool,
    pub mutable: bool,
    pub is_out: bool,
    /// The struct's lifetimes.
    pub lifetimes: LifetimeEnv,
    pub fields: Vec<FieldInfo>,
    pub methods: MethodsInfo,
    pub docs: String,
}

impl TyGenContext {
    /// A context for a new file: no imports yet.
    pub fn new() -> (r: Self)
        ensures
            r.imports.wf(),
            r.imports@ == Seq::<Seq<char>>::empty(),
    {
        TyGenContext { imports: ImportSet::new() }
    }

    /// Records that the file imports `import_str`.
    pub fn add_import(&mut self, import_str: String)
        requires
            old(self).imports.wf(),
        ensures
            final(self).imports.wf(),
            final(self).imports.names() == old(self).imports.names().insert(import_str@),
    {
        self.imports.add_import(import_str);
    }

    /// Records that the file does not import `import_str` (a type does not
    /// import itself).
    pub fn remove_import(&mut self, import_str: String)
        requires
            old(self).imports.wf(),
        ensures
            final(self).imports.wf(),
            final(self).imports.names() == old(self).imports.names().remove(import_str@),
    {
        self.imports.remove_import(import_str);
    }

    /// The file around `body`: one import statement for each import, in
    /// increasing order of the imports, each formatted by `fmt` for the
    /// file's flavour and the directory `./`.
    pub fn generate_base<F: Fn(ImportRequest) -> String>(&self, typescript: bool, body: String, fmt: F) -> (r:
        BaseTemplate)
        requires
            self.imports.wf(),
            forall|q: ImportRequest| call_requires(fmt, (q,)),
        ensures
            r.body == body,
            r.typescript == typescript,
            r.imports.len() == self.imports@.len(),
            forall|i: int|
                0 <= i < r.imports.len() ==> import_formatted(
                    fmt,
                    self.imports@[i],
                    typescript,
                    #[trigger] r.imports@[i],
                ),
    {
        let names = self.imports.imports_in_order();
        let n = names.len();
        let mut imports: Vec<String> = Vec::new();
        proof {
            assert(string_views(names@).len() == names@.len());
        }
        for i in 0..n
            invariant
                n == names@.len(),
                string_views(names@) == self.imports@,
                forall|q: ImportRequest| call_requires(fmt, (q,)),
                imports.len() == i,
                forall|k: int|
                    0 <= k < i ==> import_formatted(fmt, self.imports@[k], typescript, #[trigger] imports@[k]),
        {
            let q = ImportRequest { import: names[i].clone(), typescript, relative_path: "./" };
            let ghost gq = q;
            let stmt = fmt(q);
            proof {
                assert(call_ensures(fmt, (gq,), stmt));
                assert(gq.import@ == string_views(names@)[i as int]);
                assert(import_formatted(fmt, self.imports@[i as int], typescript, stmt));
            }
            let ghost before = imports@;
            imports.push(stmt);
            proof {
                assert forall|k: int| 0 <= k < i + 1 implies import_formatted(
                    fmt,
                    self.imports@[k],
                    typescript,
                    #[trigger] imports@[k],
                ) by {
                    if k < i {
                        assert(imports@[k] == before[k]);
                    }
                }
            }
        }
        BaseTemplate { body, typescript, imports }
    }

    /// The enum's template values.
    pub fn gen_enum(
        &self,
        typescript: bool,
        ty_name: String,
        variants: Vec<EnumVariant>,
        doc_str: String,
        methods: MethodsInfo,
    ) -> (r: EnumTemplate)
        ensures
            r == (EnumTemplate { ty_name, typescript, variants, doc_str, methods }),
    {
        EnumTemplate { ty_name, typescript, variants, doc_str, methods }
    }

    /// The opaque type's template values; values are destroyed through `destructor`.
    pub fn gen_opaque(
        &self,
        typescript: bool,
        ty_name: String,
        lifetimes: LifetimeEnv,
        destructor: String,
        docs: String,
        methods: MethodsInfo,
    ) -> (r: OpaqueTemplate)
        ensures
            r == (OpaqueTemplate { ty_name, typescript, lifetimes, destructor, docs, methods }),
    {
        OpaqueTemplate { ty_name, typescript, lifetimes, destructor, docs, methods }
    }

    /// The struct's template values: mutable exactly when it is not an
    /// output-only struct.
    pub fn gen_struct(
        &self,
        typescript: bool,
        ty_name: String,
        lifetimes: LifetimeEnv,
        fields: Vec<FieldInfo>,
        methods: MethodsInfo,
        is_out: bool,
        docs: String,
    ) -> (r: StructTemplate)
        ensures
            r == (StructTemplate {
                ty_name,
                typescript,
                mutable: !is_out,
                is_out,
                lifetimes,
                fields,
                methods,
                docs,
            }),
    {
        StructTemplate { ty_name, typescript, mutable: !is_out, is_out, lifetimes, fields, methods, docs }
    }

    /// The special-method values of a type: the JavaScript type an iterator
    /// yields, given as `iterator` when the type is one.
    pub fn generate_special_method(&self, iterator: Option<String>) -> (r: SpecialMethodInfo)
        ensures
            r.iterator == iterator,
            !r.typescript,
    {
        SpecialMethodInfo { iterator, typescript: false }
    }
}

} // verus!
