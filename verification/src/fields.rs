//! Struct fields: their JavaScript-to-C conversions, the allocator a field's
//! conversion uses, and the zero padding written between fields.
use vstd::prelude::*;

use crate::context::TyGenContext;
use crate::lifetimes::{
    does_type_use_lifetime_from_set, entries_view, no_static_before, uses_lifetime, MaybeStatic,
    StructBorrowInfo,
};

verus! {

/// The lifetime of a slice type.
pub enum SliceLifetime {
    /// The slice carries no lifetime: its data is owned.
    Unbounded,
    /// The slice borrows for `'static`.
    Static,
    /// The slice borrows for the named lifetime of the surrounding definition.
    Named(String),
}

/// What the generator needs to know of a field's or parameter's type.
pub enum TypeKind {
    Slice(SliceLifetime),
    Struct,
    Other,
}

/// `'static` slices are not supported by this generator.
pub open spec fn supported_kind(k: TypeKind) -> bool {
    !(k matches TypeKind::Slice(SliceLifetime::Static))
}

/// A field's type: its kind and the lifetimes it uses, in order.
pub struct FieldType {
    pub kind: TypeKind,
    pub lifetimes: Vec<MaybeStatic>,
}

/// A field of a struct definition, with what the formatter, the borrow
/// analysis and the layout computation made of it.
pub struct RawField {
    /// The field's name as declared.
    pub name: String,
    /// The field's name as written in JavaScript.
    pub field_name: String,
    pub field_type: FieldType,
    pub js_type_name: String,
    /// The field's size in C memory.
    pub size: usize,
    /// How the field borrows from the struct's lifetimes, if it is a struct
    /// that borrows; only a struct field's is used.
    pub struct_borrow_info: Option<StructBorrowInfo>,
}

/// A field as the struct template shows it.
pub struct FieldInfo {
    pub field_name: String,
    pub field_type: FieldType,
    pub js_type_name: String,
    pub c_to_js: String,
    pub c_to_js_deref: String,
    /// The field's conversion to C, followed by its padding.
    pub js_to_c: String,
    pub maybe_struct_borrow_info: Option<StructBorrowInfo>,
    /// The allocator the field's conversion to C is made with.
    pub alloc: Option<String>,
}

/// A request to the type converter for the code that reads the field at
/// `index` from C memory at `pointer` plus `offset`.
pub struct DerefRequest {
    pub index: usize,
    pub pointer: &'static str,
    pub offset: usize,
}

/// A request to the type converter for the conversion of `value`, the C
/// value of the field at `index`, to JavaScript.
pub struct CToJsRequest {
    pub index: usize,
    pub value: String,
}

/// The borrow information a conversion to C is given for a borrowed
/// struct, and whether it is made for a method's parameter.
pub struct StructBorrowContext {
    pub param_info: StructBorrowInfo,
    pub is_method: bool,
}

/// A request to the type converter for the conversion of `value`, the
/// JavaScript value of the field or parameter at `index`, to C, with the
/// struct borrow context and the allocator that the conversion uses.
pub struct JsToCRequest {
    pub index: usize,
    pub value: String,
    pub struct_borrow: Option<StructBorrowContext>,
    pub alloc: Option<String>,
}

/// The characters of an optional string.
pub open spec fn opt_view(o: Option<String>) -> Option<Seq<char>> {
    match o {
        Some(s) => Some(s@),
        None => None,
    }
}

/// The allocator expression for a slice that borrows for the lifetime named `lt`:
/// the lifetime's append array when it holds anything, else the function's
/// cleanup arena.
pub open spec fn append_array_alloc(lt: Seq<char>) -> Seq<char> {
    r#"(appendArrayMap[""#@ + lt
        + r#"AppendArray"].length > 0 ? diplomatRuntime.CleanupArena.createWith(appendArrayMap[""#@
        + lt + r#"AppendArray"]) : functionCleanupArena)"#@
}

/// The allocator a field's conversion to C uses: a borrowing slice takes
/// its lifetime's append array, a struct the function's cleanup arena;
/// other fields are handed over and need none.
pub open spec fn field_alloc_spec(k: TypeKind) -> Option<Seq<char>> {
    match k {
        TypeKind::Slice(SliceLifetime::Named(lt)) => Some(append_array_alloc(lt@)),
        TypeKind::Slice(_) => None,
        TypeKind::Struct => Some("functionCleanupArena"@),
        TypeKind::Other => None,
    }
}

/// The allocator expression for converting a field of kind `kind` to C.
pub fn field_alloc(kind: &TypeKind) -> (r: Option<String>)
    requires
        supported_kind(*kind),
    ensures
        opt_view(r) == field_alloc_spec(*kind),
{
    match kind {
        TypeKind::Slice(SliceLifetime::Named(lt)) => {
            let mut s = String::from_str(r#"(appendArrayMap[""#);
            s.append(lt.as_str());
            s.append(
                r#"AppendArray"].length > 0 ? diplomatRuntime.CleanupArena.createWith(appendArrayMap[""#,
            );
            s.append(lt.as_str());
            s.append(r#"AppendArray"]) : functionCleanupArena)"#);
            Some(s)
        },
        TypeKind::Slice(_) => None,
        TypeKind::Struct => Some(String::from_str("functionCleanupArena")),
        TypeKind::Other => None,
    }
}

/// The expression for a field's value inside the class: `this.#<name>`.
pub fn field_value_expression(field_name: &str) -> (r: String)
    ensures
        r@ == "this.#"@ + field_name@,
{
    let mut r = String::from_str("this.#");
    r.append(field_name);
    r
}

/// The name under which a field's value read from C memory is bound: `<name>Deref`.
pub fn field_deref_name(field_name: &str) -> (r: String)
    ensures
        r@ == field_name@ + "Deref"@,
{
    let mut r = String::from_str(field_name);
    r.append("Deref");
    r
}

/// Where the next field (or, after the last, the end of this field) starts.
pub open spec fn next_offset(offsets: Seq<usize>, i: int, size: int) -> int {
    if i < offsets.len() - 1 {
        offsets[i + 1] as int
    } else {
        offsets[i] + size
    }
}

/// The field at `i` with `size` bytes ends no later than the next field
/// starts, and its end fits in `usize`.
pub open spec fn padding_defined(offsets: Seq<usize>, i: int, size: int) -> bool {
    &&& 0 <= i < offsets.len()
    &&& offsets[i] + size <= usize::MAX
    &&& offsets[i] + size <= next_offset(offsets, i, size)
}

/// The bytes between the end of the field at `i` and the start of the next.
pub open spec fn padding_of(offsets: Seq<usize>, i: int, size: int) -> int {
    next_offset(offsets, i, size) - offsets[i] - size
}

/// The number of padding bytes after the field at `i`, of `size` bytes,
/// given the offsets of all fields.
pub fn field_padding(offsets: &Vec<usize>, i: usize, size: usize) -> (r: usize)
    requires
        padding_defined(offsets@, i as int, size as int),
    ensures
        r == padding_of(offsets@, i as int, size as int),
{
    let curr_offset = offsets[i];
    let next_offset = if i < offsets.len() - 1 {
        offsets[i + 1]
    } else {
        curr_offset + size
    };
    next_offset - curr_offset - size
}

/// `k` times `0, `.
pub open spec fn comma_zeros(k: nat) -> Seq<char>
    decreases k,
{
    if k == 0 {
        seq![]
    } else {
        comma_zeros((k - 1) as nat) + "0, "@
    }
}

/// The zero bytes written for `padding` bytes of padding after the field
/// `name`, with comments that mark them; nothing when there is none.
pub open spec fn padding_expression_spec(name: Seq<char>, padding: nat) -> Seq<char> {
    if padding == 0 {
        seq![]
    } else {
        ",/* Padding for "@ + name + " */ "@ + comma_zeros((padding - 1) as nat)
            + "0 /* End Padding */"@
    }
}

/// How many times `c` occurs in `s`.
pub open spec fn char_count(s: Seq<char>, c: char) -> nat
    decreases s.len(),
{
    if s.len() == 0 {
        0
    } else {
        char_count(s.drop_last(), c) + if s.last() == c {
            1nat
        } else {
            0nat
        }
    }
}

/// Occurrences add up over a concatenation.
pub proof fn lemma_char_count_concat(a: Seq<char>, b: Seq<char>, c: char)
    ensures
        char_count(a + b, c) == char_count(a, c) + char_count(b, c),
    decreases b.len(),
{
    if b.len() == 0 {
        assert(a + b =~= a);
    } else {
        assert((a + b).drop_last() =~= a + b.drop_last());
        lemma_char_count_concat(a, b.drop_last(), c);
    }
}

/// A character that does not occur is counted zero times.
pub proof fn lemma_char_count_absent(s: Seq<char>, c: char)
    requires
        forall|i: int| 0 <= i < s.len() ==> s[i] != c,
    ensures
        char_count(s, c) == 0,
    decreases s.len(),
{
    if s.len() > 0 {
        lemma_char_count_absent(s.drop_last(), c);
    }
}

proof fn lemma_literal_zero_counts()
    ensures
        char_count(",/* Padding for "@, '0') == 0,
        char_count(" */ "@, '0') == 0,
        char_count("0, "@, '0') == 1,
        char_count("0 /* End Padding */"@, '0') == 1,
{
    reveal_strlit(",/* Padding for ");
    reveal_strlit(" */ ");
    reveal_strlit("0, ");
    reveal_strlit("0 /* End Padding */");
    lemma_char_count_absent(",/* Padding for "@, '0');
    lemma_char_count_absent(" */ "@, '0');
    let one = seq!['0'];
    assert(one.drop_last() =~= Seq::<char>::empty());
    assert(char_count(Seq::<char>::empty(), '0') == 0);
    assert(one.last() == '0');
    assert(char_count(one, '0') == 1);
    let a = "0, "@;
    assert(a =~= seq!['0'] + a.subrange(1, 3));
    lemma_char_count_absent(a.subrange(1, 3), '0');
    lemma_char_count_concat(one, a.subrange(1, 3), '0');
    assert(char_count(a, '0') == 1);
    let e = "0 /* End Padding */"@;
    assert(e =~= seq!['0'] + e.subrange(1, e.len() as int));
    lemma_char_count_absent(e.subrange(1, e.len() as int), '0');
    lemma_char_count_concat(seq!['0'], e.subrange(1, e.len() as int), '0');
}

/// `k` times `0, ` holds `k` zeros.
pub proof fn lemma_comma_zeros_count(k: nat)
    ensures
        char_count(comma_zeros(k), '0') == k,
    decreases k,
{
    if k > 0 {
        lemma_comma_zeros_count((k - 1) as nat);
        lemma_literal_zero_counts();
        lemma_char_count_concat(comma_zeros((k - 1) as nat), "0, "@, '0');
    }
}

/// The padding writes exactly one `0` per byte of padding, besides those in
/// the field's name in its comment, and nothing at all when there is none.
pub proof fn law_padding_zero_per_byte(name: Seq<char>, padding: nat)
    ensures
        char_count(padding_expression_spec(name, padding), '0') == (if padding == 0 {
            0
        } else {
            char_count(name, '0') + padding
        }),
        padding == 0 ==> padding_expression_spec(name, padding).len() == 0,
{
    if padding > 0 {
        lemma_literal_zero_counts();
        lemma_comma_zeros_count((padding - 1) as nat);
        let p1 = ",/* Padding for "@;
        let p2 = " */ "@;
        let z = comma_zeros((padding - 1) as nat);
        let e = "0 /* End Padding */"@;
        lemma_char_count_concat(p1, name, '0');
        lemma_char_count_concat(p1 + name, p2, '0');
        lemma_char_count_concat(p1 + name + p2, z, '0');
        lemma_char_count_concat(p1 + name + p2 + z, e, '0');
    }
}

/// Writes the padding after the field `name`: a comment, then one `0` per
/// byte, separated by commas, then a closing comment.
pub fn padding_expression(name: &str, padding: usize) -> (r: String)
    ensures
        r@ == padding_expression_spec(name@, padding as nat),
        padding > 0 ==> char_count(r@, '0') == char_count(name@, '0') + padding,
        padding == 0 ==> r@.len() == 0,
{
    proof {
        law_padding_zero_per_byte(name@, padding as nat);
    }
    if padding == 0 {
        return String::new();
    }
    let mut out = String::from_str(",/* Padding for ");
    out.append(name);
    out.append(" */ ");
    let ghost prefix = out@;
    for i in 0..padding
        invariant
            padding > 0,
            out@ == (if i < padding {
                prefix + comma_zeros(i as nat)
            } else {
                prefix + comma_zeros((padding - 1) as nat) + "0 /* End Padding */"@
            }),
    {
        if i < padding - 1 {
            let ghost before = out@;
            out.append("0, ");
            proof {
                assert(prefix + comma_zeros((i + 1) as nat) =~= before + "0, "@);
            }
        } else {
            out.append("0 /* End Padding */");
        }
    }
    proof {
        assert(",/* Padding for "@ + name@ + " */ "@ == prefix);
    }
    out
}

/// A field's conversion to C as written in the struct's C layout: a slice
/// is spread with `...` and `.splat()`, and the padding follows.
pub open spec fn js_to_c_spec(slice: bool, conversion: Seq<char>, name: Seq<char>, padding: nat) -> Seq<
    char,
> {
    (if slice {
        "..."@
    } else {
        Seq::<char>::empty()
    }) + conversion + (if slice {
        ".splat()"@
    } else {
        Seq::<char>::empty()
    }) + padding_expression_spec(name, padding)
}

/// Writes a field's conversion to C followed by its padding.
pub fn field_js_to_c(slice: bool, conversion: &str, name: &str, padding: usize) -> (r: String)
    ensures
        r@ == js_to_c_spec(slice, conversion@, name@, padding as nat),
{
    let mut r = if slice {
        String::from_str("...")
    } else {
        String::new()
    };
    r.append(conversion);
    if slice {
        r.append(".splat()");
    }
    let pad = padding_expression(name, padding);
    r.append(pad.as_str());
    proof {
        assert(r@ =~= js_to_c_spec(slice, conversion@, name@, padding as nat));
    }
    r
}

/// A field of the given kind is a slice.
pub open spec fn is_slice(k: TypeKind) -> bool {
    k is Slice
}

/// Every field can be laid out: its offset exists, its padding is defined,
/// and it is not a `'static` slice.
pub open spec fn fields_laid_out(raw: Seq<RawField>, offsets: Seq<usize>) -> bool {
    forall|i: int|
        0 <= i < raw.len() ==> {
            &&& padding_defined(offsets, i, #[trigger] raw[i].size as int)
            &&& supported_kind(raw[i].field_type.kind)
        }
}

/// The borrow information a field keeps: that of a struct field only.
pub open spec fn kept_borrow_info(f: RawField) -> Option<StructBorrowInfo> {
    if f.field_type.kind is Struct {
        f.struct_borrow_info
    } else {
        None
    }
}

/// `q` asks for the code that reads the field at `i` from `ptr` plus its offset.
pub open spec fn is_deref_request(q: DerefRequest, offsets: Seq<usize>, i: int) -> bool {
    &&& q.index == i
    &&& q.pointer == "ptr"
    &&& q.offset == offsets[i]
}

/// `q` asks for the conversion of `<field_name>Deref` to JavaScript.
pub open spec fn is_c_to_js_request(q: CToJsRequest, f: RawField, i: int) -> bool {
    &&& q.index == i
    &&& q.value@ == f.field_name@ + "Deref"@
}

/// `q` asks for the conversion of `this.#<field_name>` to C, with the
/// field's allocator and, for a borrowing struct field, its borrow
/// information outside any method.
pub open spec fn is_field_js_to_c_request(q: JsToCRequest, f: RawField, i: int) -> bool {
    &&& q.index == i
    &&& q.value@ == "this.#"@ + f.field_name@
    &&& opt_view(q.alloc) == field_alloc_spec(f.field_type.kind)
    &&& match kept_borrow_info(f) {
        Some(info) => q.struct_borrow matches Some(c) && entries_view(c.param_info.map())
            == entries_view(info.map()) && !c.is_method,
        None => q.struct_borrow is None,
    }
}

/// `s` is what `deref` returned for the field at `i`.
pub open spec fn deref_made<D: Fn(DerefRequest) -> String>(
    deref: D,
    offsets: Seq<usize>,
    i: int,
    s: String,
) -> bool {
    exists|q: DerefRequest| is_deref_request(q, offsets, i) && call_ensures(deref, (q,), s)
}

/// `s` is what `c_to_js` returned for the field `f` at `i`.
pub open spec fn c_to_js_made<C: Fn(CToJsRequest) -> String>(
    c_to_js: C,
    f: RawField,
    i: int,
    s: String,
) -> bool {
    exists|q: CToJsRequest| is_c_to_js_request(q, f, i) && call_ensures(c_to_js, (q,), s)
}

/// `out` is what `js_to_c` returned for the field `f` at `i`, spread if a
/// slice, and followed by the field's padding.
pub open spec fn js_to_c_made<J: Fn(JsToCRequest) -> String>(
    js_to_c: J,
    f: RawField,
    offsets: Seq<usize>,
    i: int,
    out: Seq<char>,
) -> bool {
    exists|q: JsToCRequest, s: String|
        is_field_js_to_c_request(q, f, i) && call_ensures(js_to_c, (q,), s) && out == js_to_c_spec(
            is_slice(f.field_type.kind),
            s@,
            f.name@,
            padding_of(offsets, i, f.size as int) as nat,
        )
}

/// `out` is the field `f`, standing at `i` among fields at `offsets`, as the
/// struct template shows it, its conversions made by the given converters.
pub open spec fn field_generated<
    D: Fn(DerefRequest) -> String,
    C: Fn(CToJsRequest) -> String,
    J: Fn(JsToCRequest) -> String,
>(out: FieldInfo, f: RawField, offsets: Seq<usize>, i: int, deref: D, c_to_js: C, js_to_c: J) -> bool {
    &&& out.field_name == f.field_name
    &&& out.field_type == f.field_type
    &&& out.js_type_name == f.js_type_name
    &&& out.maybe_struct_borrow_info == kept_borrow_info(f)
    &&& opt_view(out.alloc) == field_alloc_spec(f.field_type.kind)
    &&& deref_made(deref, offsets, i, out.c_to_js_deref)
    &&& c_to_js_made(c_to_js, f, i, out.c_to_js)
    &&& js_to_c_made(js_to_c, f, offsets, i, out.js_to_c@)
}

impl TyGenContext {
    /// The fields of a struct, in order. Each field is read from C memory at
    /// `ptr` plus its offset, bound as `<field_name>Deref` and converted to
    /// JavaScript from there; its value `this.#<field_name>` is converted to
    /// C with the allocator its type calls for and, for a borrowing struct,
    /// its borrow information; a slice is spread; and the padding that fills
    /// the gap up to the next field follows. Only a struct field keeps its
    /// borrow information.
    pub fn generate_fields<
        D: Fn(DerefRequest) -> String,
        C: Fn(CToJsRequest) -> String,
        J: Fn(JsToCRequest) -> String,
    >(&self, raw: Vec<RawField>, offsets: &Vec<usize>, deref: D, c_to_js: C, js_to_c: J) -> (r: Vec<
        FieldInfo,
    >)
        requires
            raw.len() <= offsets.len(),
            fields_laid_out(raw@, offsets@),
            forall|q: DerefRequest| call_requires(deref, (q,)),
            forall|q: CToJsRequest| call_requires(c_to_js, (q,)),
            forall|q: JsToCRequest| call_requires(js_to_c, (q,)),
        ensures
            r.len() == raw.len(),
            forall|i: int|
                0 <= i < r.len() ==> field_generated(
                    #[trigger] r@[i],
                    raw@[i],
                    offsets@,
                    i,
                    deref,
                    c_to_js,
                    js_to_c,
                ),
    {
        let ghost orig = raw@;
        let n = raw.len();
        let mut rest = raw;
        let mut out: Vec<FieldInfo> = Vec::new();
        let mut i: usize = 0;
        while i < n
            invariant
                n == orig.len(),
                n <= offsets.len(),
                i <= n,
                fields_laid_out(orig, offsets@),
                forall|q: DerefRequest| call_requires(deref, (q,)),
                forall|q: CToJsRequest| call_requires(c_to_js, (q,)),
                forall|q: JsToCRequest| call_requires(js_to_c, (q,)),
                rest@ == orig.skip(i as int),
                out.len() == i,
                forall|k: int|
                    0 <= k < i ==> field_generated(
                        #[trigger] out@[k],
                        orig[k],
                        offsets@,
                        k,
                        deref,
                        c_to_js,
                        js_to_c,
                    ),
            decreases n - i,
        {
            let f = rest.remove(0);
            proof {
                assert(f == orig[i as int]);
                assert(rest@ =~= orig.skip(i + 1));
                assert(padding_defined(offsets@, i as int, orig[i as int].size as int));
            }
            let padding = field_padding(offsets, i, f.size);
            let is_slice = match &f.field_type.kind {
                TypeKind::Slice(_) => true,
                _ => false,
            };
            let is_struct = match &f.field_type.kind {
                TypeKind::Struct => true,
                _ => false,
            };
            let dq = DerefRequest { index: i, pointer: "ptr", offset: offsets[i] };
            let ghost gdq = dq;
            let c_to_js_deref = deref(dq);
            proof {
                assert(call_ensures(deref, (gdq,), c_to_js_deref));
                assert(is_deref_request(gdq, offsets@, i as int));
                assert(deref_made(deref, offsets@, i as int, c_to_js_deref));
            }
            let cq = CToJsRequest { index: i, value: field_deref_name(f.field_name.as_str()) };
            let ghost gcq = cq;
            let c_to_js_value = c_to_js(cq);
            proof {
                assert(call_ensures(c_to_js, (gcq,), c_to_js_value));
                assert(is_c_to_js_request(gcq, f, i as int));
                assert(c_to_js_made(c_to_js, f, i as int, c_to_js_value));
            }
            let kept = if is_struct {
                f.struct_borrow_info
            } else {
                None
            };
            let struct_borrow = match &kept {
                Some(info) => Some(StructBorrowContext { param_info: info.duplicate(), is_method: false }),
                None => None,
            };
            let alloc = field_alloc(&f.field_type.kind);
            let request_alloc = field_alloc(&f.field_type.kind);
            let jq = JsToCRequest {
                index: i,
                value: field_value_expression(f.field_name.as_str()),
                struct_borrow,
                alloc: request_alloc,
            };
            let ghost gjq = jq;
            let conversion = js_to_c(jq);
            let js_to_c_text = field_js_to_c(is_slice, conversion.as_str(), f.name.as_str(), padding);
            proof {
                assert(call_ensures(js_to_c, (gjq,), conversion));
                assert(kept == kept_borrow_info(f));
                assert(is_field_js_to_c_request(gjq, f, i as int));
                assert(js_to_c_made(js_to_c, f, offsets@, i as int, js_to_c_text@));
            }
            let info = FieldInfo {
                field_name: f.field_name,
                field_type: f.field_type,
                js_type_name: f.js_type_name,
                c_to_js: c_to_js_value,
                c_to_js_deref,
                js_to_c: js_to_c_text,
                maybe_struct_borrow_info: kept,
                alloc,
            };
            out.push(info);
            i = i + 1;
        }
        out
    }
}

/// The fields, in order, whose types use the lifetime `lt`.
pub open spec fn fields_using(fields: Seq<FieldInfo>, lt: usize) -> Seq<FieldInfo>
    decreases fields.len(),
{
    if fields.len() == 0 {
        seq![]
    } else {
        let rest = fields_using(fields.drop_last(), lt);
        if uses_lifetime(fields.last().field_type.lifetimes@, lt) {
            rest.push(fields.last())
        } else {
            rest
        }
    }
}

/// A field is selected exactly when its type uses `lt`: every field that
/// uses it is selected, and every selected field is one of the fields and
/// uses it.
pub proof fn law_fields_using_exact(fields: Seq<FieldInfo>, lt: usize)
    ensures
        forall|i: int|
            0 <= i < fields.len() && uses_lifetime(fields[i].field_type.lifetimes@, lt)
                ==> #[trigger] fields_using(fields, lt).contains(fields[i]),
        forall|x: FieldInfo|
            #[trigger] fields_using(fields, lt).contains(x) ==> fields.contains(x) && uses_lifetime(
                x.field_type.lifetimes@,
                lt,
            ),
    decreases fields.len(),
{
    if fields.len() > 0 {
        let prev = fields.drop_last();
        law_fields_using_exact(prev, lt);
        let rest = fields_using(prev, lt);
        let m = fields_using(fields, lt);
        let last = fields.last();
        assert forall|i: int|
            0 <= i < fields.len() && uses_lifetime(fields[i].field_type.lifetimes@, lt) implies #[trigger] m.contains(
            fields[i],
        ) by {
            if i == fields.len() - 1 {
                assert(m == rest.push(last));
                assert(m[m.len() - 1] == last);
            } else {
                assert(prev[i] == fields[i]);
                assert(rest.contains(prev[i]));
                let k = choose|k: int| 0 <= k < rest.len() && rest[k] == prev[i];
                if uses_lifetime(last.field_type.lifetimes@, lt) {
                    assert(m[k] == fields[i]);
                } else {
                    assert(m[k] == fields[i]);
                }
            }
        }
        assert forall|x: FieldInfo| #[trigger] m.contains(x) implies fields.contains(x) && uses_lifetime(
            x.field_type.lifetimes@,
            lt,
        ) by {
            let k = choose|k: int| 0 <= k < m.len() && m[k] == x;
            if k < rest.len() {
                assert(m[k] == rest[k]);
                assert(rest.contains(x));
                let j = choose|j: int| 0 <= j < prev.len() && prev[j] == x;
                assert(fields[j] == x);
            } else {
                assert(uses_lifetime(last.field_type.lifetimes@, lt));
                assert(m == rest.push(last));
                assert(fields[fields.len() - 1] == x);
            }
        }
    }
}

/// The fields whose types use `lifetime`, in order. `'static` is not
/// supported here: in no field's lifetimes may it come before `lifetime`.
pub fn iter_fields_with_lifetimes_from_set<'a>(fields: &'a Vec<FieldInfo>, lifetime: usize) -> (r:
    Vec<&'a FieldInfo>)
    requires
        forall|i: int|
            0 <= i < fields.len() ==> no_static_before(
                (#[trigger] fields@[i]).field_type.lifetimes@,
                lifetime,
            ),
    ensures
        r.len() == fields_using(fields@, lifetime).len(),
        forall|i: int| 0 <= i < r.len() ==> *(#[trigger] r@[i]) == fields_using(fields@, lifetime)[i],
        forall|i: int|
            0 <= i < fields.len() && uses_lifetime(fields@[i].field_type.lifetimes@, lifetime)
                ==> exists|k: int| 0 <= k < r.len() && *(#[trigger] r@[k]) == fields@[i],
        forall|k: int|
            0 <= k < r.len() ==> uses_lifetime((#[trigger] r@[k]).field_type.lifetimes@, lifetime),
{
    let n = fields.len();
    let mut r: Vec<&'a FieldInfo> = Vec::new();
    for i in 0..n
        invariant
            n == fields@.len(),
            forall|k: int|
                0 <= k < n ==> no_static_before((#[trigger] fields@[k]).field_type.lifetimes@, lifetime),
            r.len() == fields_using(fields@.take(i as int), lifetime).len(),
            forall|k: int|
                0 <= k < r.len() ==> *(#[trigger] r@[k]) == fields_using(fields@.take(i as int), lifetime)[k],
    {
        proof {
            assert(fields@.take(i + 1).drop_last() =~= fields@.take(i as int));
            assert(fields@.take(i + 1).last() == fields@[i as int]);
        }
        let f = &fields[i];
        if does_type_use_lifetime_from_set(&f.field_type.lifetimes, lifetime) {
            r.push(f);
        }
    }
    proof {
        assert(fields@.take(n as int) =~= fields@);
        law_fields_using_exact(fields@, lifetime);
        let fu = fields_using(fields@, lifetime);
        assert forall|i: int|
            0 <= i < fields.len() && uses_lifetime(fields@[i].field_type.lifetimes@, lifetime) implies exists|k: int|
            0 <= k < r.len() && *(#[trigger] r@[k]) == fields@[i] by {
            assert(fu.contains(fields@[i]));
            let k = choose|k: int| 0 <= k < fu.len() && fu[k] == fields@[i];
            assert(*r@[k] == fields@[i]);
        }
        assert forall|k: int| 0 <= k < r.len() implies uses_lifetime(
            (#[trigger] r@[k]).field_type.lifetimes@,
            lifetime,
        ) by {
            assert(fu[k] == *r@[k]);
            assert(fu.contains(fu[k]));
        }
    }
    r
}

/// Each field with its padding reaches exactly to where the next field
/// starts, and the last field's padding is zero.
pub proof fn law_padding_closes_gap(offsets: Seq<usize>, i: int, size: int)
    requires
        padding_defined(offsets, i, size),
    ensures
        i < offsets.len() - 1 ==> offsets[i] + size + padding_of(offsets, i, size) == offsets[i
            + 1],
        i == offsets.len() - 1 ==> padding_of(offsets, i, size) == 0,
        padding_of(offsets, i, size) >= 0,
{
}

} // verus!
