//! Methods: how each parameter is converted for the C call, which slices
//! are freed or kept alive afterwards, and how the method is declared in
//! the class.
use vstd::prelude::*;

use crate::context::TyGenContext;
use crate::fields::{opt_view, JsToCRequest, SliceLifetime, StructBorrowContext, TypeKind};
use crate::imports::string_views;
use crate::lifetimes::{entries_view, LifetimeEnv, LifetimesMap, StructBorrowInfo};

verus! {

/// How a parameter is borrowed by the method's output.
pub enum ParamBorrowInfo {
    /// Not borrowed, and no temporary borrow is needed.
    NotBorrowed,
    /// A slice that the output does not borrow (it still needs a temporary allocation).
    TemporarySlice,
    /// A slice that the output borrows.
    BorrowedSlice,
    /// A struct that the output borrows.
    Struct(StructBorrowInfo),
    /// A borrowed opaque value.
    BorrowedOpaque,
}

/// The receiver of a method.
pub struct SelfParam {
    /// The conversion of `this` to C.
    pub conversion: String,
    /// The receiver is a struct (converted in full on the JavaScript side).
    pub is_struct: bool,
}

/// A parameter of a method, with what the formatter, the borrow analysis
/// and the type converter made of it.
pub struct ParamDesc {
    /// The parameter's name as written in JavaScript.
    pub name: String,
    /// The parameter's JavaScript type.
    pub ty: String,
    pub kind: TypeKind,
    pub borrow: ParamBorrowInfo,
}

/// Methods that the class declares in a special way. The names are the
/// field names as written in JavaScript.
pub enum SpecialMethod {
    Getter(String),
    Setter(String),
    Iterable,
    Iterator,
    /// Any other method.
    Plain,
}

/// What the conversion of the C result to JavaScript adds to a method's
/// lists, after the receiver's and the parameters' entries: buffers to
/// allocate before the call, arguments passed to it, and statements run
/// after it.
pub struct ReturnConversion {
    pub alloc_expressions: Vec<String>,
    pub param_conversions: Vec<String>,
    pub cleanup_expressions: Vec<String>,
}

/// A method, with what the formatter, the borrow analysis and the type
/// converter made of it.
pub struct MethodDesc {
    /// The method is disabled for this backend.
    pub disabled: bool,
    /// The method's C symbol.
    pub abi_name: String,
    pub output_is_ffi_unit: bool,
    pub self_param: Option<SelfParam>,
    pub params: Vec<ParamDesc>,
    /// The JavaScript type of the method's result.
    pub js_return_type: String,
    /// The conversion of the C result to JavaScript.
    pub return_expression: Option<String>,
    /// What that conversion adds to the method's lists.
    pub return_conversion: ReturnConversion,
    /// For each lifetime of the method that the output borrows, where its
    /// data comes from.
    pub lifetimes_map: LifetimesMap,
    /// The method's lifetimes, by which the map's lifetimes are named.
    pub lifetime_env: LifetimeEnv,
    pub special_method: SpecialMethod,
    /// The method's name as written in JavaScript.
    pub method_name: String,
}

/// A parameter as the method template shows it.
pub struct ParamInfo {
    pub ty: String,
    pub name: String,
}

/// A slice parameter, and how its C slice is built.
pub struct SliceParam {
    pub name: String,
    pub slice_expr: String,
}

/// A method as the method template shows it.
pub struct MethodInfo {
    pub method_output_is_ffi_unit: bool,
    pub method_decl: String,
    pub abi_name: String,
    pub needs_slice_cleanup: bool,
    pub typescript: bool,
    pub parameters: Vec<ParamInfo>,
    pub slice_params: Vec<SliceParam>,
    pub param_conversions: Vec<String>,
    pub return_type: String,
    pub return_expression: Option<String>,
    pub method_lifetimes_map: LifetimesMap,
    pub lifetimes: Option<LifetimeEnv>,
    pub alloc_expressions: Vec<String>,
    pub cleanup_expressions: Vec<String>,
}

/// A slice parameter must be borrowed as a slice.
pub open spec fn param_well_formed(p: ParamDesc) -> bool {
    p.kind is Slice ==> (p.borrow is TemporarySlice || p.borrow is BorrowedSlice)
}

/// What a parameter adds to the arguments of the C call, given its
/// conversion: a slice passes its pointer and its size, any other
/// parameter its conversion.
pub open spec fn param_arguments(p: ParamDesc, conv: Seq<char>) -> Seq<Seq<char>> {
    if p.kind is Slice {
        seq![p.name@ + "Slice.ptr"@, p.name@ + "Slice.size"@]
    } else {
        seq![conv]
    }
}

/// What a parameter adds to the statements run after the C call: a slice
/// the output borrows is handed to the garbage collector, a slice that
/// Rust does not take over is freed, and nothing else is done.
pub open spec fn param_cleanup(p: ParamDesc) -> Seq<Seq<char>> {
    if p.kind is Slice {
        if p.borrow is BorrowedSlice {
            seq![p.name@ + "Slice.garbageCollect();"@]
        } else if !(p.kind matches TypeKind::Slice(SliceLifetime::Unbounded)) {
            seq![p.name@ + "Slice.free();"@]
        } else {
            seq![]
        }
    } else {
        seq![]
    }
}

/// The arguments of all the parameters, in order, given their conversions.
pub open spec fn all_arguments(ps: Seq<ParamDesc>, convs: Seq<Seq<char>>) -> Seq<Seq<char>>
    decreases ps.len(),
{
    if ps.len() == 0 {
        seq![]
    } else {
        all_arguments(ps.drop_last(), convs.drop_last()) + param_arguments(ps.last(), convs.last())
    }
}

/// The cleanup statements of all the parameters, in order.
pub open spec fn all_cleanups(ps: Seq<ParamDesc>) -> Seq<Seq<char>>
    decreases ps.len(),
{
    if ps.len() == 0 {
        seq![]
    } else {
        all_cleanups(ps.drop_last()) + param_cleanup(ps.last())
    }
}

/// The slice parameters, in order.
pub open spec fn slice_params_of(ps: Seq<ParamDesc>) -> Seq<ParamDesc>
    decreases ps.len(),
{
    if ps.len() == 0 {
        seq![]
    } else if ps.last().kind is Slice {
        slice_params_of(ps.drop_last()).push(ps.last())
    } else {
        slice_params_of(ps.drop_last())
    }
}

/// The slice parameters, in order, each as its name and its conversion,
/// the expression that builds its C slice.
pub open spec fn slice_views(ps: Seq<ParamDesc>, convs: Seq<Seq<char>>) -> Seq<(Seq<char>, Seq<char>)>
    decreases ps.len(),
{
    if ps.len() == 0 {
        seq![]
    } else if ps.last().kind is Slice {
        slice_views(ps.drop_last(), convs.drop_last()).push((ps.last().name@, convs.last()))
    } else {
        slice_views(ps.drop_last(), convs.drop_last())
    }
}

/// The C-call arguments: the receiver's conversion first, if there is a
/// receiver, then those of the parameters.
pub open spec fn conversions_spec(self_param: Option<SelfParam>, ps: Seq<ParamDesc>, convs: Seq<Seq<char>>) -> Seq<Seq<char>> {
    match self_param {
        Some(s) => seq![s.conversion@] + all_arguments(ps, convs),
        None => all_arguments(ps, convs),
    }
}

/// `q` asks for the conversion of the parameter `p`, at `i`, to C: a slice
/// by its name alone, which builds its C slice; any other parameter by its
/// name, in the function's cleanup arena if it is a struct, and with its
/// borrow information, for a method, if it is a struct the output borrows.
pub open spec fn is_param_request(q: JsToCRequest, p: ParamDesc, i: int) -> bool {
    &&& q.index == i
    &&& q.value == p.name
    &&& if p.kind is Slice {
        q.struct_borrow is None && q.alloc is None
    } else {
        &&& opt_view(q.alloc) == (if p.kind is Struct {
            Some("functionCleanupArena"@)
        } else {
            None
        })
        &&& match p.borrow {
            ParamBorrowInfo::Struct(info) => q.struct_borrow matches Some(c) && entries_view(
                c.param_info.map(),
            ) == entries_view(info.map()) && c.is_method,
            _ => q.struct_borrow is None,
        }
    }
}

/// `conv` is what `js_to_c` returned for the parameter `p` at `i`.
pub open spec fn param_converted<J: Fn(JsToCRequest) -> String>(
    js_to_c: J,
    p: ParamDesc,
    i: int,
    conv: Seq<char>,
) -> bool {
    exists|q: JsToCRequest, s: String|
        is_param_request(q, p, i) && call_ensures(js_to_c, (q,), s) && s@ == conv
}

/// `convs` are what `js_to_c` returned for the parameters, one each, in order.
pub open spec fn params_converted<J: Fn(JsToCRequest) -> String>(
    js_to_c: J,
    ps: Seq<ParamDesc>,
    convs: Seq<Seq<char>>,
) -> bool {
    &&& convs.len() == ps.len()
    &&& forall|i: int| 0 <= i < ps.len() ==> param_converted(js_to_c, ps[i], i, #[trigger] convs[i])
}

/// The slice parameters as the template shows them.
pub open spec fn slice_param_views(sp: Seq<SliceParam>) -> Seq<(Seq<char>, Seq<char>)> {
    sp.map_values(|x: SliceParam| (x.name@, x.slice_expr@))
}

/// The method's argument list and slice parameters are those of the
/// parameters converted to `convs`, after the receiver's argument and
/// before what the result's conversion adds.
pub open spec fn arguments_built(m: MethodInfo, desc: MethodDesc, convs: Seq<Seq<char>>) -> bool {
    &&& string_views(m.param_conversions@) == conversions_spec(desc.self_param, desc.params@, convs)
        + string_views(desc.return_conversion.param_conversions@)
    &&& slice_param_views(m.slice_params@) == slice_views(desc.params@, convs)
}

/// Struct values, as receiver or as parameters, are built in the function's
/// cleanup arena, which then has to be cleaned up.
pub open spec fn needs_cleanup_spec(self_param: Option<SelfParam>, ps: Seq<ParamDesc>) -> bool {
    (self_param matches Some(s) && s.is_struct) || exists|i: int|
        0 <= i < ps.len() && ps[i].kind is Struct
}

/// How the method is declared in the class.
pub open spec fn method_decl_spec(special: SpecialMethod, has_self: bool, name: Seq<char>) -> Seq<
    char,
> {
    match special {
        SpecialMethod::Getter(n) => "get "@ + n@,
        SpecialMethod::Setter(n) => "set "@ + n@,
        SpecialMethod::Iterable => "[Symbol.iterator]"@,
        SpecialMethod::Iterator => "#iteratorNext"@,
        SpecialMethod::Plain => if has_self {
            name
        } else {
            "static "@ + name
        },
    }
}

/// The declared return type: none for a setter, which cannot carry one.
pub open spec fn return_type_spec(special: SpecialMethod, js_return_type: Seq<char>) -> Seq<char> {
    if special is Setter {
        Seq::<char>::empty()
    } else {
        ": "@ + js_return_type
    }
}

/// The allocator a non-slice parameter's conversion uses: a struct is built
/// in the function's cleanup arena.
pub fn param_alloc(kind: &TypeKind) -> (r: Option<&'static str>)
    ensures
        r is Some <==> *kind is Struct,
        r matches Some(s) ==> s@ == "functionCleanupArena"@,
{
    match kind {
        TypeKind::Struct => Some("functionCleanupArena"),
        _ => None,
    }
}

/// The struct borrow context a non-slice parameter's conversion gets: that
/// of a struct the output borrows, for a method.
pub fn param_struct_borrow(borrow: &ParamBorrowInfo) -> (r: Option<StructBorrowContext>)
    ensures
        match *borrow {
            ParamBorrowInfo::Struct(info) => r matches Some(c) && entries_view(c.param_info.map())
                == entries_view(info.map()) && c.is_method,
            _ => r is None,
        },
{
    match borrow {
        ParamBorrowInfo::Struct(info) => Some(StructBorrowContext { param_info: info.duplicate(), is_method: true }),
        _ => None,
    }
}

/// The request for converting the parameter `p`, at `index`, to C.
pub fn param_request(p: &ParamDesc, index: usize) -> (q: JsToCRequest)
    ensures
        is_param_request(q, *p, index as int),
{
    match &p.kind {
        TypeKind::Slice(_) => JsToCRequest { index, value: p.name.clone(), struct_borrow: None, alloc: None },
        _ => {
            let alloc = match param_alloc(&p.kind) {
                Some(a) => Some(String::from_str(a)),
                None => None,
            };
            JsToCRequest { index, value: p.name.clone(), struct_borrow: param_struct_borrow(&p.borrow), alloc }
        },
    }
}

fn concat_str(a: &str, b: &str) -> (r: String)
    ensures
        r@ == a@ + b@,
{
    let mut r = String::from_str(a);
    r.append(b);
    r
}

impl TyGenContext {
    /// The method as the class template shows it, or nothing for a disabled
    /// method. Each parameter is listed and converted for the C call; slices
    /// pass pointer and size and are freed or garbage-collected afterwards;
    /// a struct receiver or struct parameter makes the function clean up its
    /// arena. The method is declared as getter, setter, iterator, iterable,
    /// static or plain method, and a setter declares no return type. What the
    /// conversion of the result adds to the lists follows the receiver's
    /// and the parameters' entries.
    pub fn generate_method<J: Fn(JsToCRequest) -> String>(&self, desc: MethodDesc, js_to_c: J) -> (r:
        Option<MethodInfo>)
        requires
            !desc.disabled ==> forall|i: int|
                0 <= i < desc.params.len() ==> param_well_formed(#[trigger] desc.params@[i]),
            forall|q: JsToCRequest| call_requires(js_to_c, (q,)),
        ensures
            desc.disabled <==> r is None,
            r matches Some(m) ==> {
                &&& m.abi_name == desc.abi_name
                &&& m.method_output_is_ffi_unit == desc.output_is_ffi_unit
                &&& !m.typescript
                &&& m.parameters.len() == desc.params.len()
                &&& forall|i: int|
                    0 <= i < desc.params.len() ==> (#[trigger] m.parameters@[i]).name
                        == desc.params@[i].name && m.parameters@[i].ty == desc.params@[i].ty
                &&& exists|convs: Seq<Seq<char>>|
                    #[trigger] params_converted(js_to_c, desc.params@, convs) && arguments_built(
                        m,
                        desc,
                        convs,
                    )
                &&& string_views(m.cleanup_expressions@) == all_cleanups(desc.params@) + string_views(
                    desc.return_conversion.cleanup_expressions@,
                )
                &&& m.alloc_expressions@ == desc.return_conversion.alloc_expressions@
                &&& m.lifetimes == Some(desc.lifetime_env)
                &&& m.needs_slice_cleanup == needs_cleanup_spec(desc.self_param, desc.params@)
                &&& m.return_type@ == return_type_spec(desc.special_method, desc.js_return_type@)
                &&& !(desc.special_method is Setter) ==> m.return_type@ == ": "@ + desc.js_return_type@
                &&& desc.special_method is Setter ==> m.return_type@.len() == 0
                &&& desc.self_param matches Some(s) ==> m.param_conversions.len() > 0
                    && m.param_conversions@[0]@ == s.conversion@
                &&& m.param_conversions.len() == (if desc.self_param is Some {
                    1int
                } else {
                    0int
                }) + desc.params.len() + slice_params_of(desc.params@).len()
                    + desc.return_conversion.param_conversions.len()
                &&& m.return_expression == desc.return_expression
                &&& m.method_lifetimes_map == desc.lifetimes_map
                &&& m.method_decl@ == method_decl_spec(
                    desc.special_method,
                    desc.self_param is Some,
                    desc.method_name@,
                )
            },
    {
        if desc.disabled {
            return None;
        }
        let ghost d = desc;
        let mut param_conversions: Vec<String> = Vec::new();
        let mut needs_slice_cleanup = false;
        match &desc.self_param {
            Some(s) => {
                param_conversions.push(s.conversion.clone());
                if s.is_struct {
                    needs_slice_cleanup = true;
                }
            },
            None => {},
        }
        let ghost head = string_views(param_conversions@);
        let ghost mut convs: Seq<Seq<char>> = Seq::empty();
        proof {
            assert(all_arguments(desc.params@.take(0), convs) =~= Seq::<Seq<char>>::empty());
            assert(head + all_arguments(desc.params@.take(0), convs) =~= head);
        }
        let mut parameters: Vec<ParamInfo> = Vec::new();
        let mut slice_params: Vec<SliceParam> = Vec::new();
        let mut cleanup_expressions: Vec<String> = Vec::new();
        let n = desc.params.len();
        for i in 0..n
            invariant
                n == desc.params@.len(),
                forall|k: int| 0 <= k < n ==> param_well_formed(#[trigger] desc.params@[k]),
                forall|q: JsToCRequest| call_requires(js_to_c, (q,)),
                convs.len() == i,
                forall|k: int| 0 <= k < i ==> param_converted(js_to_c, desc.params@[k], k, #[trigger] convs[k]),
                string_views(param_conversions@) == head + all_arguments(desc.params@.take(i as int), convs),
                string_views(cleanup_expressions@) == all_cleanups(desc.params@.take(i as int)),
                parameters.len() == i,
                forall|k: int|
                    0 <= k < i ==> (#[trigger] parameters@[k]).name == desc.params@[k].name
                        && parameters@[k].ty == desc.params@[k].ty,
                slice_param_views(slice_params@) == slice_views(desc.params@.take(i as int), convs),
                needs_slice_cleanup == ((desc.self_param matches Some(s) && s.is_struct) || exists|
                    k: int,
                | 0 <= k < i && desc.params@[k].kind is Struct),
        {
            let p = &desc.params[i];
            let ghost taken = desc.params@.take(i + 1);
            proof {
                assert(taken.drop_last() =~= desc.params@.take(i as int));
                assert(taken.last() == *p);
            }
            let q = param_request(p, i);
            let ghost gq = q;
            let conv = js_to_c(q);
            let ghost new_convs = convs.push(conv@);
            proof {
                assert(call_ensures(js_to_c, (gq,), conv));
                assert(param_converted(js_to_c, *p, i as int, conv@));
                assert(new_convs.drop_last() =~= convs);
                assert(new_convs.last() == conv@);
                assert forall|k: int| 0 <= k < i + 1 implies param_converted(
                    js_to_c,
                    desc.params@[k],
                    k,
                    #[trigger] new_convs[k],
                ) by {
                    if k < i {
                        assert(new_convs[k] == convs[k]);
                    }
                }
            }
            let ghost conv_before = string_views(param_conversions@);
            let ghost clean_before = string_views(cleanup_expressions@);
            let ghost sp_before = slice_param_views(slice_params@);
            match &p.kind {
                TypeKind::Slice(lt) => {
                    param_conversions.push(concat_str(p.name.as_str(), "Slice.ptr"));
                    param_conversions.push(concat_str(p.name.as_str(), "Slice.size"));
                    proof {
                        assert(string_views(param_conversions@) =~= conv_before + param_arguments(*p, conv@));
                    }
                    let is_borrowed = match &p.borrow {
                        ParamBorrowInfo::BorrowedSlice => true,
                        _ => false,
                    };
                    if is_borrowed {
                        cleanup_expressions.push(concat_str(p.name.as_str(), "Slice.garbageCollect();"));
                    } else {
                        match lt {
                            SliceLifetime::Unbounded => {},
                            _ => {
                                cleanup_expressions.push(concat_str(p.name.as_str(), "Slice.free();"));
                            },
                        }
                    }
                    proof {
                        assert(string_views(cleanup_expressions@) =~= clean_before + param_cleanup(*p));
                    }
                    slice_params.push(SliceParam { name: p.name.clone(), slice_expr: conv });
                    proof {
                        assert(slice_views(taken, new_convs) == slice_views(desc.params@.take(i as int), convs).push(
                            (p.name@, conv@),
                        ));
                        assert(slice_param_views(slice_params@) =~= sp_before.push((p.name@, conv@)));
                    }
                },
                _ => {
                    match &p.kind {
                        TypeKind::Struct => {
                            needs_slice_cleanup = true;
                        },
                        _ => {},
                    }
                    param_conversions.push(conv);
                    proof {
                        assert(string_views(param_conversions@) =~= conv_before + param_arguments(*p, conv@));
                        assert(string_views(cleanup_expressions@) =~= clean_before + param_cleanup(*p));
                        assert(slice_views(taken, new_convs) == slice_views(desc.params@.take(i as int), convs));
                    }
                },
            }
            proof {
                assert(head + all_arguments(taken, new_convs) =~= head + all_arguments(
                    desc.params@.take(i as int),
                    convs,
                ) + param_arguments(*p, conv@));
                assert(desc.params@.take(i + 1)[i as int] == *p);
                convs = new_convs;
            }
            parameters.push(ParamInfo { ty: p.ty.clone(), name: p.name.clone() });
        }
        proof {
            assert(desc.params@.take(n as int) =~= desc.params@);
            if desc.self_param is Some {
                assert(head =~= seq![desc.self_param->0.conversion@]);
            } else {
                assert(head =~= Seq::<Seq<char>>::empty());
                assert(head + all_arguments(desc.params@, convs) =~= all_arguments(desc.params@, convs));
            }
            assert(params_converted(js_to_c, desc.params@, convs));
        }
        let ghost conv_params = string_views(param_conversions@);
        let ghost clean_params = string_views(cleanup_expressions@);
        let mut extra_conversions = desc.return_conversion.param_conversions;
        let ghost extra_conv = string_views(extra_conversions@);
        param_conversions.append(&mut extra_conversions);
        let mut extra_cleanups = desc.return_conversion.cleanup_expressions;
        let ghost extra_clean = string_views(extra_cleanups@);
        cleanup_expressions.append(&mut extra_cleanups);
        proof {
            assert(string_views(param_conversions@) =~= conv_params + extra_conv);
            assert(string_views(cleanup_expressions@) =~= clean_params + extra_clean);
        }
        let has_self = desc.self_param.is_some();
        let return_type = match &desc.special_method {
            SpecialMethod::Setter(_) => String::new(),
            _ => concat_str(": ", desc.js_return_type.as_str()),
        };
        let method_decl = match &desc.special_method {
            SpecialMethod::Getter(name) => concat_str("get ", name.as_str()),
            SpecialMethod::Setter(name) => concat_str("set ", name.as_str()),
            SpecialMethod::Iterable => String::from_str("[Symbol.iterator]"),
            SpecialMethod::Iterator => String::from_str("#iteratorNext"),
            SpecialMethod::Plain => {
                if has_self {
                    desc.method_name.clone()
                } else {
                    concat_str("static ", desc.method_name.as_str())
                }
            },
        };
        let m = MethodInfo {
            method_output_is_ffi_unit: desc.output_is_ffi_unit,
            method_decl,
            abi_name: desc.abi_name,
            needs_slice_cleanup,
            typescript: false,
            parameters,
            slice_params,
            param_conversions,
            return_type,
            return_expression: desc.return_expression,
            method_lifetimes_map: desc.lifetimes_map,
            lifetimes: Some(desc.lifetime_env),
            alloc_expressions: desc.return_conversion.alloc_expressions,
            cleanup_expressions,
        };
        proof {
            assert(arguments_built(m, d, convs));
            law_only_setters_drop_return_type(d.special_method, d.js_return_type@);
            law_argument_count(d.params@, convs);
            assert(string_views(m.param_conversions@).len() == m.param_conversions@.len());
            if d.self_param is Some {
                law_receiver_passed_first(d.self_param->0, d.params@, convs);
                assert(string_views(m.param_conversions@)[0] == m.param_conversions@[0]@);
            }
        }
        Some(m)
    }
}

/// Every parameter passes one argument to the C call, and a slice one more
/// (its pointer and its size).
pub proof fn law_argument_count(ps: Seq<ParamDesc>, convs: Seq<Seq<char>>)
    requires
        convs.len() == ps.len(),
    ensures
        all_arguments(ps, convs).len() == ps.len() + slice_params_of(ps).len(),
    decreases ps.len(),
{
    if ps.len() > 0 {
        law_argument_count(ps.drop_last(), convs.drop_last());
    }
}

/// Every receiver, struct or not, is passed to the C call as its first
/// argument, followed by one argument per parameter and one more per slice.
pub proof fn law_receiver_passed_first(s: SelfParam, ps: Seq<ParamDesc>, convs: Seq<Seq<char>>)
    requires
        convs.len() == ps.len(),
    ensures
        conversions_spec(Some(s), ps, convs).len() == 1 + ps.len() + slice_params_of(ps).len(),
        conversions_spec(Some(s), ps, convs)[0] == s.conversion@,
        conversions_spec(None, ps, convs).len() == ps.len() + slice_params_of(ps).len(),
{
    law_argument_count(ps, convs);
}

/// Only a setter declares no return type; every other method declares
/// `: ` followed by the result's JavaScript type.
pub proof fn law_only_setters_drop_return_type(special: SpecialMethod, js_return_type: Seq<char>)
    ensures
        (return_type_spec(special, js_return_type).len() == 0) <==> special is Setter,
        !(special is Setter) ==> return_type_spec(special, js_return_type) == ": "@ + js_return_type,
{
    reveal_strlit(": ");
}

/// Only slices are cleaned up after the call, each at most once.
pub proof fn law_cleanup_only_slices(ps: Seq<ParamDesc>)
    ensures
        all_cleanups(ps).len() <= slice_params_of(ps).len(),
    decreases ps.len(),
{
    if ps.len() > 0 {
        law_cleanup_only_slices(ps.drop_last());
    }
}

} // verus!
