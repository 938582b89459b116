use js_typegen::context::{EnumVariant, ImportRequest, MethodsInfo, SpecialMethodInfo, TyGenContext};
use js_typegen::fields::{
    field_alloc, field_deref_name, field_js_to_c, field_padding, field_value_expression,
    iter_fields_with_lifetimes_from_set, padding_expression, CToJsRequest, DerefRequest, FieldInfo,
    FieldType, JsToCRequest, RawField, SliceLifetime, TypeKind,
};
use js_typegen::imports::ImportSet;
use js_typegen::lifetimes::{
    display_lifetime_edge, does_type_use_lifetime_from_set, iter_def_lifetimes_matching_use_lt,
    LifetimeEdge, LifetimeEdgeKind, LifetimeEnv, LifetimesMap, MaybeStatic, StructBorrowInfo,
};
use js_typegen::methods::{
    param_alloc, param_struct_borrow, MethodDesc, ParamBorrowInfo, ParamDesc, ReturnConversion,
    SelfParam, SpecialMethod,
};
use js_typegen::order::{str_equal, str_less};

fn s(x: &str) -> String {
    x.to_string()
}

fn names(set: &ImportSet) -> Vec<String> {
    set.imports_in_order()
}

fn fmt_import(q: ImportRequest) -> String {
    format!("import {} from {}{}{}", q.import, q.relative_path, q.import, if q.typescript { ".d.ts" } else { ".mjs" })
}

fn borrow_info(entries: Vec<(usize, Vec<usize>)>) -> StructBorrowInfo {
    StructBorrowInfo::new(entries).unwrap()
}

fn to_c(q: JsToCRequest) -> String {
    let mut out = format!("conv({})", q.value);
    if let Some(a) = &q.alloc {
        out += &format!("[{a}]");
    }
    if let Some(c) = &q.struct_borrow {
        out += if c.is_method { "{method}" } else { "{struct}" };
    }
    out
}

fn deref(q: DerefRequest) -> String {
    format!("deref({},{},{})", q.index, q.pointer, q.offset)
}

fn to_js(q: CToJsRequest) -> String {
    format!("toJs({},{})", q.index, q.value)
}

#[test]
fn imports_listed_in_order_once() {
    let mut ctx = TyGenContext::new();
    ctx.add_import(s("Bar"));
    ctx.add_import(s("Alpha"));
    ctx.add_import(s("Zed"));
    ctx.add_import(s("Alpha"));
    assert_eq!(names(&ctx.imports), vec![s("Alpha"), s("Bar"), s("Zed")]);
    assert!(ctx.imports.contains("Bar"));
    assert!(!ctx.imports.contains("Ba"));
    assert_eq!(ctx.imports.len(), 3);
}

#[test]
fn remove_import_takes_name_out() {
    let mut ctx = TyGenContext::new();
    ctx.add_import(s("A"));
    ctx.add_import(s("B"));
    ctx.add_import(s("C"));
    ctx.remove_import(s("B"));
    assert_eq!(names(&ctx.imports), vec![s("A"), s("C")]);
    ctx.remove_import(s("Missing"));
    assert_eq!(names(&ctx.imports), vec![s("A"), s("C")]);
    ctx.remove_import(s("A"));
    ctx.remove_import(s("C"));
    assert_eq!(ctx.imports.len(), 0);
}

#[test]
fn law_listing_independent_of_insertion_order() {
    let mut a = TyGenContext::new();
    let mut b = TyGenContext::new();
    for n in ["Foo", "Bar", "Baz", "Qux"] {
        a.add_import(s(n));
    }
    for n in ["Qux", "Baz", "Foo", "Bar", "Foo"] {
        b.add_import(s(n));
    }
    let ba = a.generate_base(true, s("body"), fmt_import);
    let bb = b.generate_base(true, s("body"), fmt_import);
    assert_eq!(ba.imports, bb.imports);
    assert_eq!(
        ba.imports,
        vec![
            s("import Bar from ./Bar.d.ts"),
            s("import Baz from ./Baz.d.ts"),
            s("import Foo from ./Foo.d.ts"),
            s("import Qux from ./Qux.d.ts"),
        ]
    );
}

#[test]
fn law_remove_undoes_add_on_values() {
    let mut ctx = TyGenContext::new();
    ctx.add_import(s("A"));
    ctx.add_import(s("C"));
    let before = names(&ctx.imports);
    ctx.add_import(s("B"));
    assert!(ctx.imports.contains("B"));
    ctx.remove_import(s("B"));
    assert_eq!(names(&ctx.imports), before);
}

#[test]
fn import_order_matches_string_order() {
    let input = ["b", "Z", "ab", "a", "é", "z", "abc", ""];
    let mut ctx = TyGenContext::new();
    for n in input {
        ctx.add_import(s(n));
    }
    let mut expected: Vec<String> = input.iter().map(|x| s(x)).collect();
    expected.sort();
    expected.dedup();
    assert_eq!(names(&ctx.imports), expected);
}

#[test]
fn generate_base_keeps_body_and_flavour() {
    let mut ctx = TyGenContext::new();
    ctx.add_import(s("Opaque"));
    ctx.add_import(s("Enum"));
    let b = ctx.generate_base(false, s("class X {}"), fmt_import);
    assert_eq!(b.body, "class X {}");
    assert!(!b.typescript);
    assert_eq!(b.imports, vec![s("import Enum from ./Enum.mjs"), s("import Opaque from ./Opaque.mjs")]);
}

#[test]
fn string_order_and_equality() {
    assert!(str_less("a", "b"));
    assert!(str_less("ab", "abc"));
    assert!(!str_less("abc", "ab"));
    assert!(str_less("Z", "a"));
    assert!(str_less("z", "é"));
    assert!(!str_less("same", "same"));
    assert!(str_less("", "x"));
    assert!(str_equal("héllo", "héllo"));
    assert!(!str_equal("hello", "hellO"));
}

#[test]
fn lifetime_edges_displayed() {
    let opaque = LifetimeEdge { param_name: s("self"), kind: LifetimeEdgeKind::OpaqueParam };
    assert_eq!(display_lifetime_edge(&opaque), "self");
    let slice = LifetimeEdge { param_name: s("data"), kind: LifetimeEdgeKind::SliceParam };
    assert_eq!(display_lifetime_edge(&slice), "dataSlice");
    let st = LifetimeEdge {
        param_name: s("borrowed"),
        kind: LifetimeEdgeKind::StructLifetime(s("ab")),
    };
    assert_eq!(display_lifetime_edge(&st), "...borrowed._fieldsForLifetimeAB");
}

#[test]
fn def_lifetimes_matching_use() {
    let info = borrow_info(vec![(0, vec![1, 2]), (1, vec![3]), (2, vec![2])]);
    assert_eq!(iter_def_lifetimes_matching_use_lt(2, &info), vec![0, 2]);
    assert_eq!(iter_def_lifetimes_matching_use_lt(3, &info), vec![1]);
    assert_eq!(iter_def_lifetimes_matching_use_lt(7, &info), Vec::<usize>::new());
    assert!(StructBorrowInfo::new(vec![(1, vec![0]), (0, vec![0])]).is_none());
    assert!(StructBorrowInfo::new(vec![(0, vec![2, 1])]).is_none());
    assert!(StructBorrowInfo::new(vec![(0, vec![1]), (0, vec![2])]).is_none());
    assert_eq!(info.entries().len(), 3);
}

#[test]
fn type_lifetime_use() {
    let lts = vec![MaybeStatic::NonStatic(0), MaybeStatic::NonStatic(1), MaybeStatic::Static];
    assert!(does_type_use_lifetime_from_set(&lts, 1));
    assert!(does_type_use_lifetime_from_set(&lts, 0));
    assert!(!does_type_use_lifetime_from_set(&vec![MaybeStatic::NonStatic(4)], 1));
    assert!(!does_type_use_lifetime_from_set(&vec![], 1));
}

#[test]
fn allocators_for_fields() {
    assert_eq!(
        field_alloc(&TypeKind::Slice(SliceLifetime::Named(s("a")))).unwrap(),
        r#"(appendArrayMap["aAppendArray"].length > 0 ? diplomatRuntime.CleanupArena.createWith(appendArrayMap["aAppendArray"]) : functionCleanupArena)"#
    );
    assert_eq!(field_alloc(&TypeKind::Slice(SliceLifetime::Unbounded)), None);
    assert_eq!(field_alloc(&TypeKind::Struct).unwrap(), "functionCleanupArena");
    assert_eq!(field_alloc(&TypeKind::Other), None);
    assert_eq!(field_value_expression("count"), "this.#count");
    assert_eq!(field_deref_name("count"), "countDeref");
}

#[test]
fn padding_written_out() {
    assert_eq!(padding_expression("x", 0), "");
    assert_eq!(padding_expression("x", 1), ",/* Padding for x */ 0 /* End Padding */");
    assert_eq!(
        padding_expression("flag", 3),
        ",/* Padding for flag */ 0, 0, 0 /* End Padding */"
    );
}

#[test]
fn law_padding_closes_gap_on_values() {
    let offsets = vec![0usize, 1, 8, 16];
    assert_eq!(field_padding(&offsets, 0, 1), 0);
    assert_eq!(field_padding(&offsets, 1, 4), 3);
    assert_eq!(field_padding(&offsets, 2, 8), 0);
    assert_eq!(field_padding(&offsets, 3, 4), 0);
    for (i, size) in [(0usize, 1usize), (1, 4), (2, 8)] {
        assert_eq!(offsets[i] + size + field_padding(&offsets, i, size), offsets[i + 1]);
    }
}

#[test]
fn js_to_c_with_spread_and_padding() {
    assert_eq!(field_js_to_c(false, "this.#a", "a", 0), "this.#a");
    assert_eq!(field_js_to_c(true, "conv", "b", 0), "...conv.splat()");
    assert_eq!(
        field_js_to_c(false, "this.#c", "c", 2),
        "this.#c,/* Padding for c */ 0, 0 /* End Padding */"
    );
}

fn raw(name: &str, kind: TypeKind, lts: Vec<MaybeStatic>, size: usize) -> RawField {
    RawField {
        name: s(name),
        field_name: format!("{name}Js"),
        field_type: FieldType { kind, lifetimes: lts },
        js_type_name: s("number"),
        size,
        struct_borrow_info: None,
    }
}

#[test]
fn fields_generated_with_padding() {
    let ctx = TyGenContext::new();
    let fields = vec![
        raw("a", TypeKind::Other, vec![], 1),
        raw("b", TypeKind::Slice(SliceLifetime::Named(s("x"))), vec![MaybeStatic::NonStatic(0)], 8),
        raw("c", TypeKind::Struct, vec![MaybeStatic::NonStatic(1)], 2),
    ];
    let out = ctx.generate_fields(fields, &vec![0, 4, 12], deref, to_js, to_c);
    assert_eq!(out.len(), 3);
    assert_eq!(out[0].field_name, "aJs");
    assert_eq!(out[0].js_to_c, "conv(this.#aJs),/* Padding for a */ 0, 0, 0 /* End Padding */");
    assert!(out[1].js_to_c.starts_with(r#"...conv(this.#bJs)[(appendArrayMap["xAppendArray"]"#));
    assert!(out[1].js_to_c.ends_with(": functionCleanupArena)].splat()"));
    assert_eq!(out[2].js_to_c, "conv(this.#cJs)[functionCleanupArena]");
    assert_eq!(out[2].c_to_js, "toJs(2,cJsDeref)");
    assert_eq!(out[2].c_to_js_deref, "deref(2,ptr,12)");
    assert_eq!(out[1].c_to_js_deref, "deref(1,ptr,4)");
    assert_eq!(out[1].js_type_name, "number");
    assert!(out[0].alloc.is_none());
    assert_eq!(
        out[1].alloc.as_deref(),
        Some(r#"(appendArrayMap["xAppendArray"].length > 0 ? diplomatRuntime.CleanupArena.createWith(appendArrayMap["xAppendArray"]) : functionCleanupArena)"#)
    );
    assert_eq!(out[2].alloc.as_deref(), Some("functionCleanupArena"));
}

#[test]
fn struct_borrow_info_kept_for_struct_fields_only() {
    let ctx = TyGenContext::new();
    let info = || Some(borrow_info(vec![(0, vec![0])]));
    let mut a = raw("a", TypeKind::Other, vec![], 4);
    a.struct_borrow_info = info();
    let mut b = raw("b", TypeKind::Struct, vec![MaybeStatic::NonStatic(0)], 4);
    b.struct_borrow_info = info();
    let out = ctx.generate_fields(vec![a, b], &vec![0, 4], deref, to_js, to_c);
    assert!(out[0].maybe_struct_borrow_info.is_none());
    assert_eq!(out[0].js_to_c, "conv(this.#aJs)");
    assert_eq!(
        *out[1].maybe_struct_borrow_info.as_ref().unwrap().entries(),
        vec![(0, vec![0])]
    );
    assert_eq!(out[1].js_to_c, "conv(this.#bJs)[functionCleanupArena]{struct}");
}

#[test]
fn return_conversion_entries_follow_parameters() {
    let ctx = TyGenContext::new();
    let mut m = method(
        None,
        vec![param("a", TypeKind::Slice(SliceLifetime::Unbounded), ParamBorrowInfo::TemporarySlice)],
        SpecialMethod::Plain,
    );
    m.return_conversion = ReturnConversion {
        alloc_expressions: vec![s("const write = new DiplomatWriteBuf();")],
        param_conversions: vec![s("write.buffer")],
        cleanup_expressions: vec![s("write.free();")],
    };
    let info = ctx.generate_method(m, to_c).unwrap();
    assert_eq!(
        info.param_conversions,
        vec![s("aSlice.ptr"), s("aSlice.size"), s("write.buffer")]
    );
    assert_eq!(info.cleanup_expressions, vec![s("write.free();")]);
    assert_eq!(info.alloc_expressions, vec![s("const write = new DiplomatWriteBuf();")]);
    assert_eq!(info.lifetimes.unwrap().names, vec![s("a")]);
}

fn info(name: &str, lts: Vec<MaybeStatic>) -> FieldInfo {
    FieldInfo {
        field_name: s(name),
        field_type: FieldType { kind: TypeKind::Other, lifetimes: lts },
        js_type_name: s("T"),
        c_to_js: s(""),
        c_to_js_deref: s(""),
        js_to_c: s(""),
        maybe_struct_borrow_info: None,
        alloc: None,
    }
}

#[test]
fn fields_with_lifetime_selected() {
    let fields = vec![
        info("a", vec![MaybeStatic::NonStatic(0)]),
        info("b", vec![MaybeStatic::NonStatic(1)]),
        info("c", vec![MaybeStatic::NonStatic(1), MaybeStatic::NonStatic(0)]),
        info("d", vec![]),
    ];
    let sel: Vec<String> = iter_fields_with_lifetimes_from_set(&fields, 0)
        .into_iter()
        .map(|f| f.field_name.clone())
        .collect();
    assert_eq!(sel, vec![s("a"), s("c")]);
    let sel1 = iter_fields_with_lifetimes_from_set(&fields, 1);
    assert_eq!(sel1.len(), 2);
    assert_eq!(sel1[0].field_name, "b");
}

fn param(name: &str, kind: TypeKind, borrow: ParamBorrowInfo) -> ParamDesc {
    ParamDesc { name: s(name), ty: s("T"), kind, borrow }
}

fn method(self_param: Option<SelfParam>, params: Vec<ParamDesc>, special: SpecialMethod) -> MethodDesc {
    MethodDesc {
        disabled: false,
        abi_name: s("Foo_bar"),
        output_is_ffi_unit: false,
        self_param,
        params,
        js_return_type: s("number"),
        return_expression: Some(s("return result;")),
        return_conversion: ReturnConversion {
            alloc_expressions: vec![],
            param_conversions: vec![],
            cleanup_expressions: vec![],
        },
        lifetimes_map: LifetimesMap::new(vec![]).unwrap(),
        lifetime_env: LifetimeEnv { names: vec![s("a")] },
        special_method: special,
        method_name: s("bar"),
    }
}

#[test]
fn disabled_method_generates_nothing() {
    let ctx = TyGenContext::new();
    let mut m = method(
        None,
        vec![param("odd", TypeKind::Slice(SliceLifetime::Unbounded), ParamBorrowInfo::NotBorrowed)],
        SpecialMethod::Plain,
    );
    m.disabled = true;
    assert!(ctx.generate_method(m, to_c).is_none());
}

#[test]
fn struct_params_converted_with_arena_and_borrow() {
    let ctx = TyGenContext::new();
    let m = method(
        None,
        vec![
            param("p", TypeKind::Struct, ParamBorrowInfo::Struct(borrow_info(vec![(0, vec![0])]))),
            param("o", TypeKind::Other, ParamBorrowInfo::BorrowedOpaque),
        ],
        SpecialMethod::Plain,
    );
    let info = ctx.generate_method(m, to_c).unwrap();
    assert_eq!(
        info.param_conversions,
        vec![s("conv(p)[functionCleanupArena]{method}"), s("conv(o)")]
    );
}

#[test]
fn method_parameters_converted_and_cleaned() {
    let ctx = TyGenContext::new();
    let m = method(
        Some(SelfParam { conversion: s("this.ffiValue"), is_struct: false }),
        vec![
            param("a", TypeKind::Slice(SliceLifetime::Named(s("x"))), ParamBorrowInfo::BorrowedSlice),
            param("b", TypeKind::Slice(SliceLifetime::Named(s("y"))), ParamBorrowInfo::TemporarySlice),
            param("c", TypeKind::Slice(SliceLifetime::Unbounded), ParamBorrowInfo::TemporarySlice),
            param("d", TypeKind::Other, ParamBorrowInfo::NotBorrowed),
        ],
        SpecialMethod::Plain,
    );
    let info = ctx.generate_method(m, to_c).unwrap();
    assert_eq!(
        info.param_conversions,
        vec![
            s("this.ffiValue"),
            s("aSlice.ptr"),
            s("aSlice.size"),
            s("bSlice.ptr"),
            s("bSlice.size"),
            s("cSlice.ptr"),
            s("cSlice.size"),
            s("conv(d)"),
        ]
    );
    assert_eq!(info.cleanup_expressions, vec![s("aSlice.garbageCollect();"), s("bSlice.free();")]);
    assert_eq!(info.slice_params.len(), 3);
    assert_eq!(info.slice_params[1].name, "b");
    assert_eq!(info.slice_params[1].slice_expr, "conv(b)");
    assert_eq!(info.parameters.len(), 4);
    assert_eq!(info.parameters[3].name, "d");
    assert!(!info.needs_slice_cleanup);
    assert_eq!(info.method_decl, "bar");
    assert_eq!(info.return_type, ": number");
    assert_eq!(info.abi_name, "Foo_bar");
    assert_eq!(info.return_expression, Some(s("return result;")));
    assert!(!info.typescript);
    assert!(info.alloc_expressions.is_empty());
}

#[test]
fn struct_params_need_cleanup() {
    let ctx = TyGenContext::new();
    let m = method(None, vec![param("s", TypeKind::Struct, ParamBorrowInfo::NotBorrowed)], SpecialMethod::Plain);
    let info = ctx.generate_method(m, to_c).unwrap();
    assert!(info.needs_slice_cleanup);
    assert_eq!(info.method_decl, "static bar");
    assert_eq!(info.param_conversions, vec![s("conv(s)[functionCleanupArena]")]);
    let m2 = method(
        Some(SelfParam { conversion: s("this"), is_struct: true }),
        vec![],
        SpecialMethod::Plain,
    );
    assert!(ctx.generate_method(m2, to_c).unwrap().needs_slice_cleanup);
}

#[test]
fn special_methods_declared() {
    let ctx = TyGenContext::new();
    let this = || Some(SelfParam { conversion: s("this.ffiValue"), is_struct: false });
    let g = ctx.generate_method(method(this(), vec![], SpecialMethod::Getter(s("len"))), to_c).unwrap();
    assert_eq!(g.method_decl, "get len");
    assert_eq!(g.return_type, ": number");
    let st = ctx
        .generate_method(method(
            this(),
            vec![param("v", TypeKind::Other, ParamBorrowInfo::NotBorrowed)],
            SpecialMethod::Setter(s("len")),
        ), to_c)
        .unwrap();
    assert_eq!(st.method_decl, "set len");
    assert_eq!(st.return_type, "");
    let it = ctx.generate_method(method(this(), vec![], SpecialMethod::Iterable), to_c).unwrap();
    assert_eq!(it.method_decl, "[Symbol.iterator]");
    let nx = ctx.generate_method(method(this(), vec![], SpecialMethod::Iterator), to_c).unwrap();
    assert_eq!(nx.method_decl, "#iteratorNext");
}

#[test]
fn law_argument_count_on_values() {
    let ctx = TyGenContext::new();
    let m = method(
        None,
        vec![
            param("a", TypeKind::Slice(SliceLifetime::Unbounded), ParamBorrowInfo::TemporarySlice),
            param("b", TypeKind::Other, ParamBorrowInfo::BorrowedOpaque),
            param("c", TypeKind::Slice(SliceLifetime::Named(s("l"))), ParamBorrowInfo::BorrowedSlice),
        ],
        SpecialMethod::Plain,
    );
    let info = ctx.generate_method(m, to_c).unwrap();
    assert_eq!(info.param_conversions.len(), info.parameters.len() + info.slice_params.len());
    assert!(info.cleanup_expressions.len() <= info.slice_params.len());
}

#[test]
fn param_allocators_and_borrows() {
    assert_eq!(param_alloc(&TypeKind::Struct), Some("functionCleanupArena"));
    assert_eq!(param_alloc(&TypeKind::Other), None);
    assert_eq!(param_alloc(&TypeKind::Slice(SliceLifetime::Unbounded)), None);
    let b = ParamBorrowInfo::Struct(borrow_info(vec![(0, vec![1])]));
    let c = param_struct_borrow(&b).unwrap();
    assert!(c.is_method);
    assert_eq!(*c.param_info.entries(), vec![(0, vec![1])]);
    assert!(param_struct_borrow(&ParamBorrowInfo::BorrowedOpaque).is_none());
}

#[test]
fn templates_carry_their_values() {
    let ctx = TyGenContext::new();
    let methods = || MethodsInfo {
        methods: vec![],
        special_methods: ctx.generate_special_method(Some(s("number"))),
    };
    let env = || LifetimeEnv { names: vec![s("a"), s("b")] };
    let st = ctx.gen_struct(true, s("Point"), env(), vec![], methods(), true, s("/** doc */"));
    assert_eq!(st.lifetimes.names, vec![s("a"), s("b")]);
    assert!(!st.mutable);
    assert!(st.is_out);
    assert_eq!(st.ty_name, "Point");
    let st2 = ctx.gen_struct(false, s("Point"), env(), vec![], methods(), false, s(""));
    assert!(st2.mutable);
    let op = ctx.gen_opaque(false, s("Handle"), env(), s("Handle_destroy"), s(""), methods());
    assert_eq!(op.destructor, "Handle_destroy");
    assert_eq!(op.lifetimes.names.len(), 2);
    let variants = vec![
        EnumVariant { name: s("Red"), discriminant: 0, docs: s("") },
        EnumVariant { name: s("Blue"), discriminant: 5, docs: s("") },
    ];
    let en = ctx.gen_enum(true, s("Color"), variants, s("docs"), methods());
    assert_eq!(en.variants.len(), 2);
    assert_eq!(en.variants[1].discriminant, 5);
    assert_eq!(en.doc_str, "docs");
    let sp: SpecialMethodInfo = ctx.generate_special_method(None);
    assert!(sp.iterator.is_none());
    assert!(!sp.typescript);
    assert_eq!(en.methods.special_methods.iterator, Some(s("number")));
}
