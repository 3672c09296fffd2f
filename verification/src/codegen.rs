//! The Rust source that `#[derive(Dissect)]` and `#[derive(Proto)]` expand to, written
//! from the types' fields and options. Each piece of source is a spec function of its
//! inputs, and each function that writes a piece appends exactly that text.

use vstd::prelude::*;

use crate::case::{joined, snake_case, title_case, to_snake_case, to_title_case};
use crate::expand::{has_text, lemma_has_text_concat, lemma_has_text_self};
use crate::expand::{decimal, hidden_ident, push_decimal, ui_name, ProtoPlan};
use crate::plan::{
    hidden_step, seq_view, FieldOptions, FieldOptionsView, HiddenStep, Subdissector,
    assign_subdissector_key_types, assigned_key_type, emitted_names, get_field_dissection_plans,
    get_field_size_plans, hidden_step_of, unit_size_plan, named_plan, one_add_option, opt_view, unit_plan,
    AddStrategy, AddStrategyView, FieldDissectionPlan, FieldMeta, HiddenStepView, NamedField,
    PlanView, SubdissectorView, UnitTuple,
};
use crate::plugin::TableRegistration;

verus! {

/// How a character is written inside a Rust string literal.
pub open spec fn escape_char(c: char) -> Seq<char> {
    if c == '"' {
        "\\\""@
    } else if c == '\\' {
        "\\\\"@
    } else if c == '\r' {
        "\\r"@
    } else {
        seq![c]
    }
}

/// The text `t` escaped for the inside of a Rust string literal.
pub open spec fn escaped(t: Seq<char>) -> Seq<char>
    decreases t.len(),
{
    if t.len() == 0 {
        Seq::empty()
    } else {
        escaped(t.drop_last()) + escape_char(t.last())
    }
}

pub fn push_escaped(s: &mut String, t: &str)
    ensures
        final(s)@ == old(s)@ + escaped(t@),
{
    let n = t.unicode_len();
    let ghost start = s@;
    let mut i: usize = 0;
    assert(t@.take(0) =~= Seq::<char>::empty());
    while i < n
        invariant
            n == t@.len(),
            i <= n,
            start == old(s)@,
            s@ == start + escaped(t@.take(i as int)),
        decreases n - i,
    {
        let c = t.get_char(i);
        let ghost before = s@;
        if c == '"' {
            s.append("\\\"");
        } else if c == '\\' {
            s.append("\\\\");
        } else if c == '\r' {
            s.append("\\r");
        } else {
            s.append(t.substring_char(i, i + 1));
            assert(t@.subrange(i as int, i + 1) =~= seq![c]);
        }
        assert(s@ == before + escape_char(c));
        proof {
            assert(t@.take(i + 1).drop_last() =~= t@.take(i as int));
            assert(t@.take(i + 1).last() == c);
        }
        i = i + 1;
        assert(s@ =~= start + escaped(t@.take(i as int)));
    }
    assert(t@.take(n as int) =~= t@);
}

/// A Rust string literal holding `t`.
pub open spec fn str_lit_text(t: Seq<char>) -> Seq<char> {
    "\""@
        + escaped(t)
        + "\""@
}

pub fn push_str_lit(s: &mut String, t: &str)
    ensures
        final(s)@ == old(s)@ + str_lit_text(t@),
{
    let ghost start = s@;
    s.append("\"");
    push_escaped(s, t);
    s.append("\"");
    assert(s@ =~= start + str_lit_text(t@));
}

/// A pointer to a zero-terminated C string holding `t`, written as a Rust expression.
pub open spec fn cstr_lit_text(t: Seq<char>) -> Seq<char> {
    "\""@
        + escaped(t)
        + "\\0\".as_ptr() as *const std::ffi::c_char"@
}

pub fn push_cstr_lit(s: &mut String, t: &str)
    ensures
        final(s)@ == old(s)@ + cstr_lit_text(t@),
{
    let ghost start = s@;
    s.append("\"");
    push_escaped(s, t);
    s.append("\\0\".as_ptr() as *const std::ffi::c_char");
    assert(s@ =~= start + cstr_lit_text(t@));
}

/// The blurb of an item: its doc comment as a C string, or a null pointer.
pub open spec fn blurb_text(docs: Option<String>) -> Seq<char> {
    (if docs is Some { cstr_lit_text(docs->0@) } else { "std::ptr::null()"@ })
}

pub fn push_blurb(s: &mut String, docs: &Option<String>)
    ensures
        final(s)@ == old(s)@ + blurb_text(*docs),
{
    let ghost start = s@;
    if docs.is_some() {
        push_cstr_lit(s, docs.as_ref().unwrap().as_str());
    } else {
        s.append("std::ptr::null()");
    }
    assert(s@ =~= start + blurb_text(*docs));
}

/// An optional Wireshark constant: `Some` of the named constant of `epan_sys`, or `None`.
pub open spec fn opt_epan_text(o: Option<Seq<char>>) -> Seq<char> {
    (if o is Some { "std::option::Option::Some(wsdf::epan_sys::"@ + o->0 + ")"@ } else { "std::option::Option::None"@ })
}

pub fn push_opt_epan(s: &mut String, o: &Option<String>)
    ensures
        final(s)@ == old(s)@ + opt_epan_text(opt_view(*o)),
{
    let ghost start = s@;
    if o.is_some() {
        s.append("std::option::Option::Some(wsdf::epan_sys::");
        s.append(o.as_ref().unwrap().as_str());
        s.append(")");
    } else {
        s.append("std::option::Option::None");
    }
    assert(s@ =~= start + opt_epan_text(opt_view(*o)));
}

/// The `Dissect` implementation a field is dissected through: its type, and `[u8]` as the marker for byte fields.
pub open spec fn dissect_ty_text(m: FieldMeta) -> Seq<char> {
    "<"@
        + m.ty@
        + " as wsdf::Dissect<'tvb, "@
        + (if m.options@.bytes == Some(true) { "[u8]"@ } else { "()"@ })
        + ">>"@
}

pub fn push_dissect_ty(s: &mut String, m: &FieldMeta)
    ensures
        final(s)@ == old(s)@ + dissect_ty_text(*m),
{
    let ghost start = s@;
    s.append("<");
    s.append(m.ty.as_str());
    s.append(" as wsdf::Dissect<'tvb, ");
    if m.options.bytes == Some(true) {
        s.append("[u8]");
    } else {
        s.append("()");
    }
    s.append(">>");
    assert(s@ =~= start + dissect_ty_text(*m));
}

/// The `Primitive` implementation of a field.
pub open spec fn primitive_ty_text(m: FieldMeta) -> Seq<char> {
    "<"@
        + m.ty@
        + " as wsdf::Primitive<'tvb, "@
        + (if m.options@.bytes == Some(true) { "[u8]"@ } else { "()"@ })
        + ">>"@
}

pub fn push_primitive_ty(s: &mut String, m: &FieldMeta)
    ensures
        final(s)@ == old(s)@ + primitive_ty_text(*m),
{
    let ghost start = s@;
    s.append("<");
    s.append(m.ty.as_str());
    s.append(" as wsdf::Primitive<'tvb, ");
    if m.options.bytes == Some(true) {
        s.append("[u8]");
    } else {
        s.append("()");
    }
    s.append(">>");
    assert(s@ =~= start + primitive_ty_text(*m));
}

/// The `Subdissect` implementation of a type.
pub open spec fn subdissect_ty_text(ty: Seq<char>) -> Seq<char> {
    "<"@
        + ty
        + " as wsdf::Subdissect<'tvb>>"@
}

pub fn push_subdissect_ty(s: &mut String, ty: &str)
    ensures
        final(s)@ == old(s)@ + subdissect_ty_text(ty@),
{
    let ghost start = s@;
    s.append("<");
    s.append(ty);
    s.append(" as wsdf::Subdissect<'tvb>>");
    assert(s@ =~= start + subdissect_ty_text(ty@));
}

/// The tap context around a field whose value is `field`.
pub open spec fn ctx_text(field: Seq<char>) -> Seq<char> {
    "let ctx = wsdf::tap::Context {\nfield: "@
        + field
        + ",\nfields,\nfields_local: &fields_local,\npinfo: args.pinfo,\npacket: args.data,\noffset,\n};\n"@
}

pub fn push_ctx(s: &mut String, field: &str)
    ensures
        final(s)@ == old(s)@ + ctx_text(field@),
{
    let ghost start = s@;
    s.append("let ctx = wsdf::tap::Context {\nfield: ");
    s.append(field);
    s.append(",\nfields,\nfields_local: &fields_local,\npinfo: args.pinfo,\npacket: args.data,\noffset,\n};\n");
    assert(s@ =~= start + ctx_text(field@));
}

/// The registration arguments of the field a unit tuple stands for.
pub open spec fn unit_register_args_text(m: FieldMeta) -> Seq<char> {
    "let args_next = wsdf::RegisterArgs {\nproto_id: args.proto_id,\nname: args.name,\nprefix: args.prefix,\nblurb: if !args.blurb.is_null() { args.blurb } else { "@
        + blurb_text(m.docs)
        + " },\nws_type: "@
        + opt_epan_text(m.options@.ws_type)
        + ",\nws_display: "@
        + opt_epan_text(m.options@.ws_display)
        + ",\n};\n"@
}

pub fn push_unit_register_args(s: &mut String, m: &FieldMeta)
    ensures
        final(s)@ == old(s)@ + unit_register_args_text(*m),
{
    let ghost start = s@;
    s.append("let args_next = wsdf::RegisterArgs {\nproto_id: args.proto_id,\nname: args.name,\nprefix: args.prefix,\nblurb: if !args.blurb.is_null() { args.blurb } else { ");
    push_blurb(s, &m.docs);
    s.append(" },\nws_type: ");
    push_opt_epan(s, &m.options.ws_type);
    s.append(",\nws_display: ");
    push_opt_epan(s, &m.options.ws_display);
    s.append(",\n};\n");
    assert(s@ =~= start + unit_register_args_text(*m));
}

/// The dissection arguments of the field a unit tuple stands for.
pub open spec fn unit_dissector_args_text(m: FieldMeta) -> Seq<char> {
    "let args_next = wsdf::DissectorArgs {\nhf_indices: args.hf_indices,\netts: args.etts,\ndtables: args.dtables,\ntvb: args.tvb,\npinfo: args.pinfo,\nproto_root: args.proto_root,\ndata: args.data,\nprefix: args.prefix,\nprefix_local: args.prefix_local,\noffset: args.offset,\nparent: args.parent,\nvariant: std::option::Option::None,\nlist_len: std::option::Option::None,\nws_enc: "@
        + opt_epan_text(m.options@.ws_enc)
        + ",\n};\n"@
}

pub fn push_unit_dissector_args(s: &mut String, m: &FieldMeta)
    ensures
        final(s)@ == old(s)@ + unit_dissector_args_text(*m),
{
    let ghost start = s@;
    s.append("let args_next = wsdf::DissectorArgs {\nhf_indices: args.hf_indices,\netts: args.etts,\ndtables: args.dtables,\ntvb: args.tvb,\npinfo: args.pinfo,\nproto_root: args.proto_root,\ndata: args.data,\nprefix: args.prefix,\nprefix_local: args.prefix_local,\noffset: args.offset,\nparent: args.parent,\nvariant: std::option::Option::None,\nlist_len: std::option::Option::None,\nws_enc: ");
    push_opt_epan(s, &m.options.ws_enc);
    s.append(",\n};\n");
    assert(s@ =~= start + unit_dissector_args_text(*m));
}

/// The variant a field of enum type is dissected as: the one its `get_variant` function picks, if it has one.
pub open spec fn variant_arg_text(o: FieldOptionsView) -> Seq<char> {
    (if o.get_variant is Some { "std::option::Option::Some(wsdf::tap::handle_get_variant(&wsdf::tap::Context {\nfield: (),\nfields,\nfields_local: &fields_local,\npinfo: args.pinfo,\npacket: args.data,\noffset,\n}, "@ + o.get_variant->0 + "))"@ } else { "std::option::Option::None"@ })
}

pub fn push_variant_arg(s: &mut String, o: &FieldOptions)
    ensures
        final(s)@ == old(s)@ + variant_arg_text(o@),
{
    let ghost start = s@;
    if o.get_variant.is_some() {
        s.append("std::option::Option::Some(wsdf::tap::handle_get_variant(&wsdf::tap::Context {\nfield: (),\nfields,\nfields_local: &fields_local,\npinfo: args.pinfo,\npacket: args.data,\noffset,\n}, ");
        s.append(o.get_variant.as_ref().unwrap().as_str());
        s.append("))");
    } else {
        s.append("std::option::Option::None");
    }
    assert(s@ =~= start + variant_arg_text(o@));
}

/// The length of a list field: the value of its size hint field, if it has one.
pub open spec fn list_len_arg_text(o: FieldOptionsView) -> Seq<char> {
    (if o.size_hint is Some { "std::option::Option::Some(__"@ + o.size_hint->0 + " as usize)"@ } else { "std::option::Option::None"@ })
}

pub fn push_list_len_arg(s: &mut String, o: &FieldOptions)
    ensures
        final(s)@ == old(s)@ + list_len_arg_text(o@),
{
    let ghost start = s@;
    if o.size_hint.is_some() {
        s.append("std::option::Option::Some(__");
        s.append(o.size_hint.as_ref().unwrap().as_str());
        s.append(" as usize)");
    } else {
        s.append("std::option::Option::None");
    }
    assert(s@ =~= start + list_len_arg_text(o@));
}

/// The dissection arguments of a named field: the variant chosen by its `get_variant` function, its length from its size hint field, its encoding.
pub open spec fn named_dissector_args_text(f: NamedField) -> Seq<char> {
    "let args_next = wsdf::DissectorArgs {\nhf_indices: args.hf_indices,\netts: args.etts,\ndtables: args.dtables,\ntvb: args.tvb,\npinfo: args.pinfo,\nproto_root: args.proto_root,\ndata: args.data,\nprefix: &prefix_next,\nprefix_local: "@
        + str_lit_text(f.ident@)
        + ",\noffset,\nparent,\nvariant: "@
        + variant_arg_text(f.meta.options@)
        + ",\nlist_len: "@
        + list_len_arg_text(f.meta.options@)
        + ",\nws_enc: "@
        + opt_epan_text(f.meta.options@.ws_enc)
        + ",\n};\n"@
}

pub fn push_named_dissector_args(s: &mut String, f: &NamedField)
    ensures
        final(s)@ == old(s)@ + named_dissector_args_text(*f),
{
    let ghost start = s@;
    s.append("let args_next = wsdf::DissectorArgs {\nhf_indices: args.hf_indices,\netts: args.etts,\ndtables: args.dtables,\ntvb: args.tvb,\npinfo: args.pinfo,\nproto_root: args.proto_root,\ndata: args.data,\nprefix: &prefix_next,\nprefix_local: ");
    push_str_lit(s, f.ident.as_str());
    s.append(",\noffset,\nparent,\nvariant: ");
    push_variant_arg(s, &f.meta.options);
    s.append(",\nlist_len: ");
    push_list_len_arg(s, &f.meta.options);
    s.append(",\nws_enc: ");
    push_opt_epan(s, &f.meta.options.ws_enc);
    s.append(",\n};\n");
    assert(s@ =~= start + named_dissector_args_text(*f));
}

/// The call of one tap (or pre- or post-dissection hook) on the context.
pub open spec fn tap_text(f: Seq<char>) -> Seq<char> {
    "wsdf::tap::handle_tap(&ctx, "@
        + f
        + ");\n"@
}

pub fn push_tap(s: &mut String, f: &str)
    ensures
        final(s)@ == old(s)@ + tap_text(f@),
{
    let ghost start = s@;
    s.append("wsdf::tap::handle_tap(&ctx, ");
    s.append(f);
    s.append(");\n");
    assert(s@ =~= start + tap_text(f@));
}

/// The calls of a list of taps, in order.
pub open spec fn taps_text(xs: Seq<Seq<char>>) -> Seq<char>
    decreases xs.len(),
{
    if xs.len() == 0 {
        Seq::empty()
    } else {
        taps_text(xs.drop_last()) + tap_text(xs.last())
    }
}

pub fn push_taps(s: &mut String, xs: &Vec<String>)
    ensures
        final(s)@ == old(s)@ + taps_text(seq_view(xs@)),
{
    let ghost start = s@;
    let ghost v = seq_view(xs@);
    let mut i: usize = 0;
    assert(v.take(0) =~= Seq::<Seq<char>>::empty());
    while i < xs.len()
        invariant
            i <= xs@.len(),
            v == seq_view(xs@),
            start == old(s)@,
            s@ == start + taps_text(v.take(i as int)),
        decreases xs@.len() - i,
    {
        push_tap(s, xs[i].as_str());
        proof {
            assert(v.take(i + 1).drop_last() =~= v.take(i as int));
            assert(v.take(i + 1).last() == xs@[i as int]@);
        }
        i = i + 1;
    }
    assert(v.take(xs@.len() as int) =~= v);
}

/// The pre- or post-dissection hooks of a type: a context shared by their calls, then the calls; nothing when there are none.
pub open spec fn hooks_text(fs: Seq<Seq<char>>) -> Seq<char> {
    (if fs.len() > 0 { ctx_text("()"@) + taps_text(fs) } else { Seq::<char>::empty() })
}

pub fn push_hooks(s: &mut String, fs: &Vec<String>)
    ensures
        final(s)@ == old(s)@ + hooks_text(seq_view(fs@)),
{
    let ghost start = s@;
    if fs.len() > 0 {
        push_ctx(s, "()");
        push_taps(s, fs);
    } else {
    }
    assert(s@ =~= start + hooks_text(seq_view(fs@)));
}

/// One attempt of the table subdissector, keyed by the value of field `key`, made only while nothing was dissected.
pub open spec fn key_try_text(key: Seq<char>, ty: Seq<char>, table: Seq<char>) -> Seq<char> {
    "if nr_bytes_subdissected == 0 {\nnr_bytes_subdissected = "@
        + subdissect_ty_text(ty)
        + "::try_subdissector(&args_next, "@
        + str_lit_text(table)
        + ", &__"@
        + key
        + ");\n}\n"@
}

pub fn push_key_try(s: &mut String, key: &str, ty: &str, table: &str)
    ensures
        final(s)@ == old(s)@ + key_try_text(key@, ty@, table@),
{
    let ghost start = s@;
    s.append("if nr_bytes_subdissected == 0 {\nnr_bytes_subdissected = ");
    push_subdissect_ty(s, ty);
    s.append("::try_subdissector(&args_next, ");
    push_str_lit(s, table);
    s.append(", &__");
    s.append(key);
    s.append(");\n}\n");
    assert(s@ =~= start + key_try_text(key@, ty@, table@));
}

/// The attempts of the table subdissector, one per key, in order.
pub open spec fn key_tries_text(xs: Seq<Seq<char>>, ty: Seq<char>, table: Seq<char>) -> Seq<char>
    decreases xs.len(),
{
    if xs.len() == 0 {
        Seq::empty()
    } else {
        key_tries_text(xs.drop_last(), ty, table) + key_try_text(xs.last(), ty, table)
    }
}

pub fn push_key_tries(s: &mut String, xs: &Vec<String>, ty: &str, table: &str)
    ensures
        final(s)@ == old(s)@ + key_tries_text(seq_view(xs@), ty@, table@),
{
    let ghost start = s@;
    let ghost v = seq_view(xs@);
    let mut i: usize = 0;
    assert(v.take(0) =~= Seq::<Seq<char>>::empty());
    while i < xs.len()
        invariant
            i <= xs@.len(),
            v == seq_view(xs@),
            start == old(s)@,
            s@ == start + key_tries_text(v.take(i as int), ty@, table@),
        decreases xs@.len() - i,
    {
        push_key_try(s, xs[i].as_str(), ty, table);
        proof {
            assert(v.take(i + 1).drop_last() =~= v.take(i as int));
            assert(v.take(i + 1).last() == xs@[i as int]@);
        }
        i = i + 1;
    }
    assert(v.take(xs@.len() as int) =~= v);
}

/// How a field is handed to a subdissector: a new buffer for the field's bytes, then
/// either the "Decode As" table, or each key of the table in turn until one dissects some
/// bytes, the data dissector taking the bytes when none does.
pub open spec fn subdissector_text(ty: Seq<char>, sd: SubdissectorView, root: Seq<char>) -> Seq<char> {
    "let tvb_next = "@ + subdissect_ty_text(ty) + "::setup_tvb_next(&args_next);\nlet args_next = wsdf::DissectorArgs {\ntvb: tvb_next,\nproto_root: "@
        + root + ",\n..args_next\n};\n"@ + match sd {
        SubdissectorView::DecodeAs(t) => "let offset = offset + "@ + subdissect_ty_text(ty)
            + "::try_subdissector(&args_next, "@ + str_lit_text(t) + ", &());\n"@,
        SubdissectorView::Table { table_name, fields } => "let mut nr_bytes_subdissected = 0;\n"@
            + key_tries_text(fields, ty, table_name)
            + "if nr_bytes_subdissected == 0 {\nnr_bytes_subdissected = args_next.call_data_dissector();\n}\nlet offset = offset + nr_bytes_subdissected;\n"@,
    }
}

pub fn push_subdissector(s: &mut String, ty: &str, sd: &Subdissector, root: &str)
    ensures
        final(s)@ == old(s)@ + subdissector_text(ty@, sd@, root@),
{
    let ghost start = s@;
    s.append("let tvb_next = ");
    push_subdissect_ty(s, ty);
    s.append("::setup_tvb_next(&args_next);\nlet args_next = wsdf::DissectorArgs {\ntvb: tvb_next,\nproto_root: ");
    s.append(root);
    s.append(",\n..args_next\n};\n");
    match sd {
        Subdissector::DecodeAs(t) => {
            s.append("let offset = offset + ");
            push_subdissect_ty(s, ty);
            s.append("::try_subdissector(&args_next, ");
            push_str_lit(s, t.as_str());
            s.append(", &());\n");
        },
        Subdissector::Table { table_name, fields } => {
            s.append("let mut nr_bytes_subdissected = 0;\n");
            push_key_tries(s, fields, ty, table_name.as_str());
            s.append(
                "if nr_bytes_subdissected == 0 {\nnr_bytes_subdissected = args_next.call_data_dissector();\n}\nlet offset = offset + nr_bytes_subdissected;\n",
            );
        },
    }
    assert(s@ =~= start + subdissector_text(ty@, sd@, root@));
}

/// The source that hands a value of type `ty` to the subdissector `subd`, the bytes being
/// shown under `proto_root`.
pub fn subdissector_source(ty: &str, subd: &Subdissector, proto_root: &str) -> (r: String)
    ensures
        r@ == subdissector_text(ty@, subd@, proto_root@),
{
    let mut s = String::new();
    push_subdissector(&mut s, ty, subd, proto_root);
    s
}

/// How a field is added to the tree, once its value and context are ready.
pub open spec fn add_strategy_text(a: AddStrategyView, m: FieldMeta) -> Seq<char> {
    match a {
        AddStrategyView::Subdissect(sd) => subdissector_text(m.ty@, sd, "args.proto_root"@),
        AddStrategyView::ConsumeWith(f) => "let (n, s) = wsdf::tap::handle_consume_with(&ctx, "@ + f
            + ");\n"@ + primitive_ty_text(m)
            + "::add_to_tree_format_value(&args_next, &s, n);\n"@ + "let offset = offset + n;\n"@,
        AddStrategyView::DecodeWith(f) => "let s = wsdf::tap::handle_decode_with(&ctx, "@ + f
            + ");\nlet n = "@ + dissect_ty_text(m) + "::size(&args_next, fields);\n"@
            + primitive_ty_text(m)
            + "::add_to_tree_format_value(&args_next, &s, n);\n"@ + "let offset = offset + n;\n"@,
        AddStrategyView::Hidden => match hidden_step_of(m.options@) {
            HiddenStepView::Consume(f) => "let (n, _) = wsdf::tap::handle_consume_with(&ctx, "@ + f
                + ");\n"@ + "let offset = offset + n;\n"@,
            HiddenStepView::Subdissect(sd) => subdissector_text(m.ty@, sd, "std::ptr::null_mut()"@),
            HiddenStepView::Skip => "let offset = offset + "@ + dissect_ty_text(m)
                + "::size(&args_next, fields);\n"@,
        },
        AddStrategyView::Default => "let offset = offset + "@ + dissect_ty_text(m)
            + "::add_to_tree(&args_next, fields);\n"@,
    }
}

pub fn push_add_strategy(s: &mut String, a: &AddStrategy, m: &FieldMeta)
    ensures
        final(s)@ == old(s)@ + add_strategy_text(a@, *m),
{
    let ghost start = s@;
    match a {
        AddStrategy::Subdissect(sd) => push_subdissector(s, m.ty.as_str(), sd, "args.proto_root"),
        AddStrategy::ConsumeWith(f) => {
            s.append("let (n, s) = wsdf::tap::handle_consume_with(&ctx, ");
            s.append(f.as_str());
            s.append(");\n");
            push_primitive_ty(s, m);
            s.append("::add_to_tree_format_value(&args_next, &s, n);\n");
            s.append("let offset = offset + n;\n");
        },
        AddStrategy::DecodeWith(f) => {
            s.append("let s = wsdf::tap::handle_decode_with(&ctx, ");
            s.append(f.as_str());
            s.append(");\nlet n = ");
            push_dissect_ty(s, m);
            s.append("::size(&args_next, fields);\n");
            push_primitive_ty(s, m);
            s.append("::add_to_tree_format_value(&args_next, &s, n);\n");
            s.append("let offset = offset + n;\n");
        },
        AddStrategy::Hidden => match hidden_step(&m.options) {
            HiddenStep::Consume(f) => {
                s.append("let (n, _) = wsdf::tap::handle_consume_with(&ctx, ");
                s.append(f.as_str());
                s.append(");\n");
                s.append("let offset = offset + n;\n");
            },
            HiddenStep::Subdissect(sd) => push_subdissector(s, m.ty.as_str(), &sd, "std::ptr::null_mut()"),
            HiddenStep::Skip => {
                s.append("let offset = offset + ");
                push_dissect_ty(s, m);
                s.append("::size(&args_next, fields);\n");
            },
        },
        AddStrategy::Default => {
            s.append("let offset = offset + ");
            push_dissect_ty(s, m);
            s.append("::add_to_tree(&args_next, fields);\n");
        },
    }
    assert(s@ =~= start + add_strategy_text(a@, *m));
}

/// The step that keeps a field's value in `var`, when the plan wants it.
pub open spec fn emit_step_text(plan: PlanView, m: FieldMeta, var: Seq<char>) -> Seq<char> {
    (if plan.emit { "let "@ + var + " = "@ + dissect_ty_text(m) + "::emit(&args_next);\n"@ } else { Seq::<char>::empty() })
}

pub fn push_emit_step(s: &mut String, plan: &FieldDissectionPlan, m: &FieldMeta, var: &str)
    ensures
        final(s)@ == old(s)@ + emit_step_text(plan@, *m, var@),
{
    let ghost start = s@;
    if plan.emit {
        s.append("let ");
        s.append(var);
        s.append(" = ");
        push_dissect_ty(s, m);
        s.append("::emit(&args_next);\n");
    } else {
    }
    assert(s@ =~= start + emit_step_text(plan@, *m, var@));
}

/// The step that saves a field's value, when the plan asks for it.
pub open spec fn save_step_text(plan: PlanView, m: FieldMeta) -> Seq<char> {
    (if plan.save { primitive_ty_text(m) + "::save(&args_next, fields, &mut fields_local);\n"@ } else { Seq::<char>::empty() })
}

pub fn push_save_step(s: &mut String, plan: &FieldDissectionPlan, m: &FieldMeta)
    ensures
        final(s)@ == old(s)@ + save_step_text(plan@, *m),
{
    let ghost start = s@;
    if plan.save {
        push_primitive_ty(s, m);
        s.append("::save(&args_next, fields, &mut fields_local);\n");
    } else {
    }
    assert(s@ =~= start + save_step_text(plan@, *m));
}

/// The tap context around `var`, when the plan needs one.
pub open spec fn ctx_step_text(plan: PlanView, var: Seq<char>) -> Seq<char> {
    (if plan.build_ctx { ctx_text(var) } else { Seq::<char>::empty() })
}

pub fn push_ctx_step(s: &mut String, plan: &FieldDissectionPlan, var: &str)
    ensures
        final(s)@ == old(s)@ + ctx_step_text(plan@, var@),
{
    let ghost start = s@;
    if plan.build_ctx {
        push_ctx(s, var);
    } else {
    }
    assert(s@ =~= start + ctx_step_text(plan@, var@));
}

/// The steps that dissect one field after its arguments are declared: its value kept in `var` when wanted, saved when asked, a tap context when needed, its taps, and its addition to the tree.
pub open spec fn dissection_steps_text(plan: PlanView, m: FieldMeta, var: Seq<char>) -> Seq<char> {
    emit_step_text(plan, m, var)
        + save_step_text(plan, m)
        + ctx_step_text(plan, var)
        + taps_text(m.options@.taps)
        + add_strategy_text(plan.add_strategy, m)
}

pub fn push_dissection_steps(s: &mut String, plan: &FieldDissectionPlan, m: &FieldMeta, var: &str)
    ensures
        final(s)@ == old(s)@ + dissection_steps_text(plan@, *m, var@),
{
    let ghost start = s@;
    push_emit_step(s, plan, m, var);
    push_save_step(s, plan, m);
    push_ctx_step(s, plan, var);
    push_taps(s, &m.options.taps);
    push_add_strategy(s, &plan.add_strategy, m);
    assert(s@ =~= start + dissection_steps_text(plan@, *m, var@));
}

/// The dissection of a named field: the prefix of its filter names, its arguments, and its steps, its value being kept in `__` followed by its name.
pub open spec fn named_field_text(f: NamedField, plan: PlanView) -> Seq<char> {
    "let prefix_next = args.prefix.to_owned() + \".\" + "@
        + str_lit_text(f.ident@)
        + ";\n"@
        + named_dissector_args_text(f)
        + dissection_steps_text(plan, f.meta, "__"@ + f.ident@)
}

pub fn push_named_field(s: &mut String, f: &NamedField, plan: &FieldDissectionPlan)
    ensures
        final(s)@ == old(s)@ + named_field_text(*f, plan@),
{
    let ghost start = s@;
    s.append("let prefix_next = args.prefix.to_owned() + \".\" + ");
    push_str_lit(s, f.ident.as_str());
    s.append(";\n");
    push_named_dissector_args(s, f);
    { let var = hidden_ident(f.ident.as_str()); push_dissection_steps(s, plan, &f.meta, var.as_str()) };
    assert(s@ =~= start + named_field_text(*f, plan@));
}

/// The dissection of the field a unit tuple stands for, its value being kept in `__inner_value`.
pub open spec fn unit_field_text(m: FieldMeta, plan: PlanView) -> Seq<char> {
    unit_dissector_args_text(m)
        + dissection_steps_text(plan, m, "__inner_value"@)
}

pub fn push_unit_field(s: &mut String, m: &FieldMeta, plan: &FieldDissectionPlan)
    ensures
        final(s)@ == old(s)@ + unit_field_text(*m, plan@),
{
    let ghost start = s@;
    push_unit_dissector_args(s, m);
    push_dissection_steps(s, plan, m, "__inner_value");
    assert(s@ =~= start + unit_field_text(*m, plan@));
}

/// The call that registers a field: through its type's `Dissect` implementation, or, for
/// a subdissected field, by creating the subdissector's table, keyed by `key` for a table
/// keyed by fields.
pub open spec fn call_register_text(m: FieldMeta, key: Seq<char>) -> Seq<char> {
    match m.options@.subdissector {
        None => dissect_ty_text(m) + "::register(&args_next, ws_indices);\n"@,
        Some(SubdissectorView::DecodeAs(t)) => "<() as wsdf::SubdissectorKey>::create_table(args_next.proto_id, "@
            + str_lit_text(t) + ", ws_indices.dtable);\n"@,
        Some(SubdissectorView::Table { table_name, .. }) => "<"@ + key
            + " as wsdf::SubdissectorKey>::create_table(args.proto_id, "@ + str_lit_text(table_name)
            + ", ws_indices.dtable);\n"@,
    }
}

pub fn push_call_register(s: &mut String, m: &FieldMeta, key: &str)
    ensures
        final(s)@ == old(s)@ + call_register_text(*m, key@),
{
    let ghost start = s@;
    match &m.options.subdissector {
        None => {
            push_dissect_ty(s, m);
            s.append("::register(&args_next, ws_indices);\n");
        },
        Some(Subdissector::DecodeAs(t)) => {
            s.append("<() as wsdf::SubdissectorKey>::create_table(args_next.proto_id, ");
            push_str_lit(s, t.as_str());
            s.append(", ws_indices.dtable);\n");
        },
        Some(Subdissector::Table { table_name, .. }) => {
            s.append("<");
            s.append(key);
            s.append(" as wsdf::SubdissectorKey>::create_table(args.proto_id, ");
            push_str_lit(s, table_name.as_str());
            s.append(", ws_indices.dtable);\n");
        },
    }
    assert(s@ =~= start + call_register_text(*m, key@));
}

/// The name shown for a field or variant: the name it was renamed to, or its identifier
/// in title case.
pub open spec fn shown_name(rename: Option<Seq<char>>, ident: Seq<char>) -> Seq<char> {
    match rename {
        Some(r) => r,
        None => title_case(ident),
    }
}

fn shown_name_string(rename: &Option<String>, ident: &str) -> (r: String)
    ensures
        r@ == shown_name(opt_view(*rename), ident@),
{
    let title = to_title_case(ident);
    ui_name(rename, title.as_str())
}

/// The text of an optional key type, empty when there is none.
pub open spec fn key_text(key: Option<Seq<char>>) -> Seq<char> {
    match key {
        Some(k) => k,
        None => Seq::empty(),
    }
}

fn key_str(key: &Option<String>) -> (r: &str)
    ensures
        r@ == key_text(opt_view(*key)),
{
    match key {
        Some(k) => k.as_str(),
        None => {
            proof {
                reveal_strlit("");
            }
            ""
        },
    }
}

/// The registration arguments of a named field: under the filter names of its struct followed by its own name, with its shown name and its doc comment.
pub open spec fn field_register_args_text(f: NamedField) -> Seq<char> {
    "let prefix_next = args.prefix.to_owned() + \".\" + "@
        + str_lit_text(f.ident@)
        + ";\nlet args_next = wsdf::RegisterArgs {\nproto_id: args.proto_id,\nname: "@
        + cstr_lit_text(shown_name(f.meta.options@.rename, f.ident@))
        + ",\nprefix: &prefix_next,\nblurb: "@
        + blurb_text(f.meta.docs)
        + ",\nws_type: "@
        + opt_epan_text(f.meta.options@.ws_type)
        + ",\nws_display: "@
        + opt_epan_text(f.meta.options@.ws_display)
        + ",\n};\n"@
}

pub fn push_field_register_args(s: &mut String, f: &NamedField)
    ensures
        final(s)@ == old(s)@ + field_register_args_text(*f),
{
    let ghost start = s@;
    s.append("let prefix_next = args.prefix.to_owned() + \".\" + ");
    push_str_lit(s, f.ident.as_str());
    s.append(";\nlet args_next = wsdf::RegisterArgs {\nproto_id: args.proto_id,\nname: ");
    { let name = shown_name_string(&f.meta.options.rename, f.ident.as_str()); push_cstr_lit(s, name.as_str()) };
    s.append(",\nprefix: &prefix_next,\nblurb: ");
    push_blurb(s, &f.meta.docs);
    s.append(",\nws_type: ");
    push_opt_epan(s, &f.meta.options.ws_type);
    s.append(",\nws_display: ");
    push_opt_epan(s, &f.meta.options.ws_display);
    s.append(",\n};\n");
    assert(s@ =~= start + field_register_args_text(*f));
}

/// The registration of a named field: its arguments, then the call that registers it.
pub open spec fn registration_steps_text(f: NamedField, key: Seq<char>) -> Seq<char> {
    field_register_args_text(f)
        + call_register_text(f.meta, key)
}

pub fn push_registration_steps(s: &mut String, f: &NamedField, key: &str)
    ensures
        final(s)@ == old(s)@ + registration_steps_text(*f, key@),
{
    let ghost start = s@;
    push_field_register_args(s, f);
    push_call_register(s, &f.meta, key);
    assert(s@ =~= start + registration_steps_text(*f, key@));
}

/// The options a type deriving `Dissect` (or an enum variant) can be given: functions run
/// before and after its fields are dissected, and a name to show instead of its own.
pub struct TypeOptions {
    pub pre_dissect: Vec<String>,
    pub post_dissect: Vec<String>,
    pub rename: Option<String>,
}

/// The fields of a struct deriving `Dissect`: the single field of a tuple struct (`()` for a
/// unit struct), or named fields.
pub enum StructInnards {
    UnitTuple(UnitTuple),
    NamedFields { fields: Vec<NamedField> },
}

/// Every field names at most one way of being added to the tree.
pub open spec fn innards_ok(innards: StructInnards) -> bool {
    match innards {
        StructInnards::UnitTuple(u) => one_add_option(u.0.options@),
        StructInnards::NamedFields { fields } => forall|i: int|
            0 <= i < fields@.len() ==> one_add_option(#[trigger] fields@[i].meta.options@),
    }
}

/// The plan a named field of `all` is dissected with; for measuring, every field is hidden.
pub open spec fn field_plan(f: NamedField, all: Seq<NamedField>, size: bool) -> PlanView {
    if size {
        PlanView { add_strategy: AddStrategyView::Hidden, ..named_plan(f, emitted_names(all)) }
    } else {
        named_plan(f, emitted_names(all))
    }
}

/// The dissection of the named fields `fields` of a struct whose fields are `all`.
pub open spec fn named_fields_text(fields: Seq<NamedField>, all: Seq<NamedField>, size: bool) -> Seq<char>
    decreases fields.len(),
{
    if fields.len() == 0 {
        Seq::empty()
    } else {
        named_fields_text(fields.drop_last(), all, size) + named_field_text(
            fields.last(),
            field_plan(fields.last(), all, size),
        )
    }
}

pub fn push_named_fields(s: &mut String, fields: &Vec<NamedField>, size: bool)
    requires
        forall|i: int| 0 <= i < fields@.len() ==> one_add_option(#[trigger] fields@[i].meta.options@),
    ensures
        final(s)@ == old(s)@ + named_fields_text(fields@, fields@, size),
{
    let plans = if size {
        get_field_size_plans(fields)
    } else {
        get_field_dissection_plans(fields)
    };
    let ghost start = s@;
    let ghost v = fields@;
    let mut i: usize = 0;
    assert(v.take(0) =~= Seq::<NamedField>::empty());
    while i < fields.len()
        invariant
            i <= fields@.len(),
            v == fields@,
            start == old(s)@,
            plans@.len() == fields@.len(),
            forall|k: int| 0 <= k < fields@.len() ==> (#[trigger] plans@[k])@ == field_plan(fields@[k], v, size),
            s@ == start + named_fields_text(v.take(i as int), v, size),
        decreases fields@.len() - i,
    {
        push_named_field(s, &fields[i], &plans[i]);
        proof {
            assert(v.take(i + 1).drop_last() =~= v.take(i as int));
            assert(v.take(i + 1).last() == v[i as int]);
        }
        i = i + 1;
    }
    assert(v.take(fields@.len() as int) =~= v);
}

/// The registration of the named fields `fields` of a struct whose fields are `all`, each
/// subdissector table keyed by the type its key fields give it.
pub open spec fn registrations_text(fields: Seq<NamedField>, all: Seq<NamedField>) -> Seq<char>
    decreases fields.len(),
{
    if fields.len() == 0 {
        Seq::empty()
    } else {
        registrations_text(fields.drop_last(), all) + registration_steps_text(
            fields.last(),
            key_text(assigned_key_type(fields.last(), all)),
        )
    }
}

pub fn push_registrations(s: &mut String, fields: &Vec<NamedField>)
    ensures
        final(s)@ == old(s)@ + registrations_text(fields@, fields@),
{
    let assigned = assign_subdissector_key_types(fields);
    let ghost start = s@;
    let ghost v = fields@;
    let mut i: usize = 0;
    assert(v.take(0) =~= Seq::<NamedField>::empty());
    while i < assigned.len()
        invariant
            i <= v.len(),
            v == fields@,
            start == old(s)@,
            assigned@.len() == v.len(),
            forall|k: int| 0 <= k < v.len() ==> {
                &&& (#[trigger] assigned@[k]).ident@ == v[k].ident@
                &&& assigned@[k].meta.ty@ == v[k].meta.ty@
                &&& assigned@[k].meta.docs == v[k].meta.docs
                &&& assigned@[k].meta.options@ == v[k].meta.options@
                &&& opt_view(assigned@[k].meta.subdissector_key_type) == assigned_key_type(v[k], v)
            },
            s@ == start + registrations_text(v.take(i as int), v),
        decreases v.len() - i,
    {
        let key = key_str(&assigned[i].meta.subdissector_key_type);
        push_registration_steps(s, &assigned[i], key);
        proof {
            let a = assigned@[i as int];
            let f = v[i as int];
            assert(dissect_ty_text(a.meta) == dissect_ty_text(f.meta));
            assert(call_register_text(a.meta, key@) == call_register_text(f.meta, key@));
            assert(registration_steps_text(a, key@) == registration_steps_text(f, key@));
            assert(v.take(i + 1).drop_last() =~= v.take(i as int));
            assert(v.take(i + 1).last() == f);
        }
        i = i + 1;
    }
    assert(v.take(v.len() as int) =~= v);
}

/// The dissection of a struct's fields. Named fields hang in a subtree of their own,
/// whose length is set once they are dissected; when measuring, no subtree is made.
pub open spec fn contents_text(innards: StructInnards, size: bool) -> Seq<char> {
    match innards {
        StructInnards::UnitTuple(u) => unit_field_text(
            u.0,
            if size {
                PlanView { add_strategy: AddStrategyView::Hidden, ..unit_plan(u.0.options@) }
            } else {
                unit_plan(u.0.options@)
            },
        ),
        StructInnards::NamedFields { fields } => if size {
            named_fields_text(fields@, fields@, true)
        } else {
            "let parent = args.add_subtree();\n"@ + named_fields_text(fields@, fields@, false)
                + "unsafe {\nwsdf::epan_sys::proto_item_set_len(parent, (offset - args.offset) as _);\n}\n"@
        },
    }
}

pub fn push_contents(s: &mut String, innards: &StructInnards, size: bool)
    requires
        innards_ok(*innards),
    ensures
        final(s)@ == old(s)@ + contents_text(*innards, size),
{
    let ghost start = s@;
    match innards {
        StructInnards::UnitTuple(u) => {
            let plan = if size {
                unit_size_plan(u)
            } else {
                FieldDissectionPlan::from_unit_tuple(u)
            };
            push_unit_field(s, &u.0, &plan);
        },
        StructInnards::NamedFields { fields } => {
            if size {
                push_named_fields(s, fields, true);
            } else {
                s.append("let parent = args.add_subtree();\n");
                push_named_fields(s, fields, false);
                s.append(
                    "unsafe {\nwsdf::epan_sys::proto_item_set_len(parent, (offset - args.offset) as _);\n}\n",
                );
            }
        },
    }
    assert(s@ =~= start + contents_text(*innards, size));
}

/// The registration of a struct's fields; named fields get a subtree and a text node of
/// their own first.
pub open spec fn register_contents_text(innards: StructInnards) -> Seq<char> {
    match innards {
        StructInnards::UnitTuple(u) => unit_register_args_text(u.0) + call_register_text(
            u.0,
            key_text(opt_view(u.0.subdissector_key_type)),
        ),
        StructInnards::NamedFields { fields } => "let _ = ws_indices.ett.get_or_create_ett(args);\nlet _ = ws_indices.hf.get_or_create_text_node(args);\n"@
            + registrations_text(fields@, fields@),
    }
}

pub fn push_register_contents(s: &mut String, innards: &StructInnards)
    ensures
        final(s)@ == old(s)@ + register_contents_text(*innards),
{
    let ghost start = s@;
    match innards {
        StructInnards::UnitTuple(u) => {
            push_unit_register_args(s, &u.0);
            push_call_register(s, &u.0, key_str(&u.0.subdissector_key_type));
        },
        StructInnards::NamedFields { fields } => {
            s.append(
                "let _ = ws_indices.ett.get_or_create_ett(args);\nlet _ = ws_indices.hf.get_or_create_text_node(args);\n",
            );
            push_registrations(s, fields);
        },
    }
    assert(s@ =~= start + register_contents_text(*innards));
}

/// A field given to a table subdissector needs a key type, which its table's key fields
/// give it.
pub open spec fn lacks_key(o: FieldOptionsView, key: Option<Seq<char>>) -> bool {
    o.subdissector matches Some(SubdissectorView::Table { .. }) && key is None
}

/// Some field of the struct is given to a table subdissector none of whose key fields is a
/// field of the struct.
pub open spec fn struct_lacks_key(innards: StructInnards) -> bool {
    match innards {
        StructInnards::UnitTuple(u) => lacks_key(u.0.options@, opt_view(u.0.subdissector_key_type)),
        StructInnards::NamedFields { fields } => exists|i: int|
            0 <= i < fields@.len() && lacks_key(
                (#[trigger] fields@[i]).meta.options@,
                assigned_key_type(fields@[i], fields@),
            ),
    }
}

fn option_lacks_key(o: &FieldOptions, key: &Option<String>) -> (r: bool)
    ensures
        r == lacks_key(o@, opt_view(*key)),
{
    match &o.subdissector {
        Some(Subdissector::Table { .. }) => key.is_none(),
        _ => false,
    }
}

fn fields_missing_key(fields: &Vec<NamedField>) -> (r: bool)
    ensures
        r == exists|i: int|
            0 <= i < fields@.len() && lacks_key(
                (#[trigger] fields@[i]).meta.options@,
                assigned_key_type(fields@[i], fields@),
            ),
{
    let assigned = assign_subdissector_key_types(fields);
    let mut i: usize = 0;
    while i < assigned.len()
        invariant
            i <= fields@.len(),
            assigned@.len() == fields@.len(),
            forall|k: int| 0 <= k < fields@.len() ==> {
                &&& (#[trigger] assigned@[k]).meta.options@ == fields@[k].meta.options@
                &&& opt_view(assigned@[k].meta.subdissector_key_type) == assigned_key_type(
                    fields@[k],
                    fields@,
                )
            },
            forall|k: int| 0 <= k < i ==> !lacks_key(
                (#[trigger] fields@[k]).meta.options@,
                assigned_key_type(fields@[k], fields@),
            ),
        decreases fields@.len() - i,
    {
        if option_lacks_key(&assigned[i].meta.options, &assigned[i].meta.subdissector_key_type) {
            assert(lacks_key(fields@[i as int].meta.options@, assigned_key_type(fields@[i as int], fields@)));
            return true;
        }
        i = i + 1;
    }
    false
}

fn find_missing_key(innards: &StructInnards) -> (r: bool)
    ensures
        r == struct_lacks_key(*innards),
{
    match innards {
        StructInnards::UnitTuple(u) => option_lacks_key(&u.0.options, &u.0.subdissector_key_type),
        StructInnards::NamedFields { fields } => fields_missing_key(fields),
    }
}

pub open spec fn missing_key_message() -> Seq<char> {
    "none of the subdissector's key fields is a field of this struct"@
}

/// The `Dissect` implementation of struct `ident`: adding it to the tree (between its pre- and post-dissection hooks), measuring it, and registering its fields.
pub open spec fn dissect_struct_text(ident: Seq<char>, opts: TypeOptions, innards: StructInnards) -> Seq<char> {
    "impl<'tvb> wsdf::Dissect<'tvb, ()> for "@
        + ident
        + " {\ntype Emit = ();\nfn add_to_tree(args: &wsdf::DissectorArgs<'_, 'tvb>, fields: &mut wsdf::FieldsStore<'tvb>) -> usize {\nlet mut fields_local = wsdf::FieldsStore::default();\nlet offset = args.offset;\n"@
        + hooks_text(seq_view(opts.pre_dissect@))
        + contents_text(innards, false)
        + hooks_text(seq_view(opts.post_dissect@))
        + "offset - args.offset\n}\nfn size(args: &wsdf::DissectorArgs<'_, 'tvb>, fields: &mut wsdf::FieldsStore<'tvb>) -> usize {\nlet mut fields_local = wsdf::FieldsStore::default();\nlet offset = args.offset;\nlet parent = args.parent;\n"@
        + contents_text(innards, true)
        + "offset - args.offset\n}\nfn register(args: &wsdf::RegisterArgs, ws_indices: &mut wsdf::WsIndices) {\n"@
        + register_contents_text(innards)
        + "}\nfn emit(_args: &wsdf::DissectorArgs) {}\n}\n"@
}

fn push_dissect_struct(s: &mut String, ident: &str, opts: &TypeOptions, innards: &StructInnards)
    requires
        innards_ok(*innards),
    ensures
        final(s)@ == old(s)@ + dissect_struct_text(ident@, *opts, *innards),
{
    let ghost start = s@;
    s.append("impl<'tvb> wsdf::Dissect<'tvb, ()> for ");
    s.append(ident);
    s.append(" {\ntype Emit = ();\nfn add_to_tree(args: &wsdf::DissectorArgs<'_, 'tvb>, fields: &mut wsdf::FieldsStore<'tvb>) -> usize {\nlet mut fields_local = wsdf::FieldsStore::default();\nlet offset = args.offset;\n");
    push_hooks(s, &opts.pre_dissect);
    push_contents(s, innards, false);
    push_hooks(s, &opts.post_dissect);
    s.append("offset - args.offset\n}\nfn size(args: &wsdf::DissectorArgs<'_, 'tvb>, fields: &mut wsdf::FieldsStore<'tvb>) -> usize {\nlet mut fields_local = wsdf::FieldsStore::default();\nlet offset = args.offset;\nlet parent = args.parent;\n");
    push_contents(s, innards, true);
    s.append("offset - args.offset\n}\nfn register(args: &wsdf::RegisterArgs, ws_indices: &mut wsdf::WsIndices) {\n");
    push_register_contents(s, innards);
    s.append("}\nfn emit(_args: &wsdf::DissectorArgs) {}\n}\n");
    assert(s@ =~= start + dissect_struct_text(ident@, *opts, *innards));
}

/// The expansion of `#[derive(Dissect)]` on struct `ident`. It fails when a field is given
/// to a table subdissector none of whose key fields is a field of the struct.
pub fn dissect_struct_source(ident: &str, opts: &TypeOptions, innards: &StructInnards) -> (r: Result<String, String>)
    requires
        innards_ok(*innards),
    ensures
        struct_lacks_key(*innards) <==> r is Err,
        r matches Err(m) ==> m@ == missing_key_message(),
        r matches Ok(t) ==> t@ == dissect_struct_text(ident@, *opts, *innards),
{
    if find_missing_key(innards) {
        return Err("none of the subdissector's key fields is a field of this struct".to_owned());
    }
    let mut s = String::new();
    push_dissect_struct(&mut s, ident, opts, innards);
    Ok(s)
}

/// An enum variant deriving `Dissect` through a struct of its own: its name, options and
/// doc comment, the source of its fields (`{ .. }`, `( .. )` or nothing), and whether they
/// are braced.
pub struct VariantSpec {
    pub ident: String,
    pub options: TypeOptions,
    pub docs: Option<String>,
    pub fields_source: String,
    pub braced: bool,
}

/// A string literal followed by a comma.
pub open spec fn lit_item_text(t: Seq<char>) -> Seq<char> {
    str_lit_text(t)
        + ", "@
}

pub fn push_lit_item(s: &mut String, t: &str)
    ensures
        final(s)@ == old(s)@ + lit_item_text(t@),
{
    let ghost start = s@;
    push_str_lit(s, t);
    s.append(", ");
    assert(s@ =~= start + lit_item_text(t@));
}

/// String literals, each followed by a comma.
pub open spec fn lit_items_text(xs: Seq<Seq<char>>) -> Seq<char>
    decreases xs.len(),
{
    if xs.len() == 0 {
        Seq::empty()
    } else {
        lit_items_text(xs.drop_last()) + lit_item_text(xs.last())
    }
}

pub fn push_lit_items(s: &mut String, xs: &Vec<String>)
    ensures
        final(s)@ == old(s)@ + lit_items_text(seq_view(xs@)),
{
    let ghost start = s@;
    let ghost v = seq_view(xs@);
    let mut i: usize = 0;
    assert(v.take(0) =~= Seq::<Seq<char>>::empty());
    while i < xs.len()
        invariant
            i <= xs@.len(),
            v == seq_view(xs@),
            start == old(s)@,
            s@ == start + lit_items_text(v.take(i as int)),
        decreases xs@.len() - i,
    {
        push_lit_item(s, xs[i].as_str());
        proof {
            assert(v.take(i + 1).drop_last() =~= v.take(i as int));
            assert(v.take(i + 1).last() == xs@[i as int]@);
        }
        i = i + 1;
    }
    assert(v.take(xs@.len() as int) =~= v);
}

/// The struct standing for a variant: `__` and the variant's name, with its fields and hooks, deriving `Dissect`.
pub open spec fn variant_struct_text(v: VariantSpec) -> Seq<char> {
    "#[derive(wsdf::Dissect)]\n#[wsdf(pre_dissect = ["@
        + lit_items_text(seq_view(v.options.pre_dissect@))
        + "])]\n#[wsdf(post_dissect = ["@
        + lit_items_text(seq_view(v.options.post_dissect@))
        + "])]\nstruct __"@
        + v.ident@
        + " "@
        + v.fields_source@
        + (if v.braced { "\n"@ } else { ";\n"@ })
}

pub fn push_variant_struct(s: &mut String, v: &VariantSpec)
    ensures
        final(s)@ == old(s)@ + variant_struct_text(*v),
{
    let ghost start = s@;
    s.append("#[derive(wsdf::Dissect)]\n#[wsdf(pre_dissect = [");
    push_lit_items(s, &v.options.pre_dissect);
    s.append("])]\n#[wsdf(post_dissect = [");
    push_lit_items(s, &v.options.post_dissect);
    s.append("])]\nstruct __");
    s.append(v.ident.as_str());
    s.append(" ");
    s.append(v.fields_source.as_str());
    if v.braced {
        s.append("\n");
    } else {
        s.append(";\n");
    }
    assert(s@ =~= start + variant_struct_text(*v));
}

/// The structs standing for the variants, in order.
pub open spec fn variant_structs_text(xs: Seq<VariantSpec>) -> Seq<char>
    decreases xs.len(),
{
    if xs.len() == 0 {
        Seq::empty()
    } else {
        variant_structs_text(xs.drop_last()) + variant_struct_text(xs.last())
    }
}

pub fn push_variant_structs(s: &mut String, xs: &Vec<VariantSpec>)
    ensures
        final(s)@ == old(s)@ + variant_structs_text(xs@),
{
    let ghost start = s@;
    let ghost v = xs@;
    let mut i: usize = 0;
    assert(v.take(0) =~= Seq::<VariantSpec>::empty());
    while i < xs.len()
        invariant
            i <= xs@.len(),
            v == xs@,
            start == old(s)@,
            s@ == start + variant_structs_text(v.take(i as int)),
        decreases xs@.len() - i,
    {
        push_variant_struct(s, &xs[i]);
        proof {
            assert(v.take(i + 1).drop_last() =~= v.take(i as int));
            assert(v.take(i + 1).last() == xs@[i as int]);
        }
        i = i + 1;
    }
    assert(v.take(xs@.len() as int) =~= v);
}

/// The arm that dissects variant `v` (or measures it, as `call` says) when the arguments name it, under the filter names of the enum followed by the variant's name in snake case.
pub open spec fn variant_arm_text(v: VariantSpec, call: Seq<char>) -> Seq<char> {
    "Some("@
        + str_lit_text(v.ident@)
        + ") => {\n"@
        + "let prefix_next = args.prefix.to_owned() + \".\" + "@
        + str_lit_text(snake_case(v.ident@))
        + ";\n"@
        + "let args_next = wsdf::DissectorArgs {\nhf_indices: args.hf_indices,\netts: args.etts,\ndtables: args.dtables,\ntvb: args.tvb,\npinfo: args.pinfo,\nproto_root: args.proto_root,\ndata: args.data,\nprefix: &prefix_next,\nprefix_local: "@
        + str_lit_text(snake_case(v.ident@))
        + ",\noffset: args.offset,\nparent: args.parent,\nvariant: std::option::Option::None,\nlist_len: std::option::Option::None,\nws_enc: std::option::Option::None,\n};\n__"@
        + v.ident@
        + "::"@
        + call
        + "(&args_next, fields)\n}\n"@
}

pub fn push_variant_arm(s: &mut String, v: &VariantSpec, call: &str)
    ensures
        final(s)@ == old(s)@ + variant_arm_text(*v, call@),
{
    let ghost start = s@;
    s.append("Some(");
    push_str_lit(s, v.ident.as_str());
    s.append(") => {\n");
    s.append("let prefix_next = args.prefix.to_owned() + \".\" + ");
    { let snake = to_snake_case(v.ident.as_str()); push_str_lit(s, snake.as_str()) };
    s.append(";\n");
    s.append("let args_next = wsdf::DissectorArgs {\nhf_indices: args.hf_indices,\netts: args.etts,\ndtables: args.dtables,\ntvb: args.tvb,\npinfo: args.pinfo,\nproto_root: args.proto_root,\ndata: args.data,\nprefix: &prefix_next,\nprefix_local: ");
    { let snake = to_snake_case(v.ident.as_str()); push_str_lit(s, snake.as_str()) };
    s.append(",\noffset: args.offset,\nparent: args.parent,\nvariant: std::option::Option::None,\nlist_len: std::option::Option::None,\nws_enc: std::option::Option::None,\n};\n__");
    s.append(v.ident.as_str());
    s.append("::");
    s.append(call);
    s.append("(&args_next, fields)\n}\n");
    assert(s@ =~= start + variant_arm_text(*v, call@));
}

/// The arms of all variants, in order.
pub open spec fn variant_arms_text(xs: Seq<VariantSpec>, call: Seq<char>) -> Seq<char>
    decreases xs.len(),
{
    if xs.len() == 0 {
        Seq::empty()
    } else {
        variant_arms_text(xs.drop_last(), call) + variant_arm_text(xs.last(), call)
    }
}

pub fn push_variant_arms(s: &mut String, xs: &Vec<VariantSpec>, call: &str)
    ensures
        final(s)@ == old(s)@ + variant_arms_text(xs@, call@),
{
    let ghost start = s@;
    let ghost v = xs@;
    let mut i: usize = 0;
    assert(v.take(0) =~= Seq::<VariantSpec>::empty());
    while i < xs.len()
        invariant
            i <= xs@.len(),
            v == xs@,
            start == old(s)@,
            s@ == start + variant_arms_text(v.take(i as int), call@),
        decreases xs@.len() - i,
    {
        push_variant_arm(s, &xs[i], call);
        proof {
            assert(v.take(i + 1).drop_last() =~= v.take(i as int));
            assert(v.take(i + 1).last() == xs@[i as int]);
        }
        i = i + 1;
    }
    assert(v.take(xs@.len() as int) =~= v);
}

/// The registration of variant `v` under the filter names of the enum followed by its name in snake case, with its shown name and its doc comment.
pub open spec fn variant_registration_text(v: VariantSpec) -> Seq<char> {
    "let prefix_next = args.prefix.to_owned() + \".\" + "@
        + str_lit_text(snake_case(v.ident@))
        + ";\n"@
        + "let args_next = wsdf::RegisterArgs {\nproto_id: args.proto_id,\nname: "@
        + cstr_lit_text(shown_name(opt_view(v.options.rename), v.ident@))
        + ",\nprefix: &prefix_next,\nblurb: "@
        + blurb_text(v.docs)
        + ",\nws_type: std::option::Option::None,\nws_display: std::option::Option::None,\n};\n__"@
        + v.ident@
        + "::register(&args_next, ws_indices);\n"@
}

pub fn push_variant_registration(s: &mut String, v: &VariantSpec)
    ensures
        final(s)@ == old(s)@ + variant_registration_text(*v),
{
    let ghost start = s@;
    s.append("let prefix_next = args.prefix.to_owned() + \".\" + ");
    { let snake = to_snake_case(v.ident.as_str()); push_str_lit(s, snake.as_str()) };
    s.append(";\n");
    s.append("let args_next = wsdf::RegisterArgs {\nproto_id: args.proto_id,\nname: ");
    { let name = shown_name_string(&v.options.rename, v.ident.as_str()); push_cstr_lit(s, name.as_str()) };
    s.append(",\nprefix: &prefix_next,\nblurb: ");
    push_blurb(s, &v.docs);
    s.append(",\nws_type: std::option::Option::None,\nws_display: std::option::Option::None,\n};\n__");
    s.append(v.ident.as_str());
    s.append("::register(&args_next, ws_indices);\n");
    assert(s@ =~= start + variant_registration_text(*v));
}

/// The registrations of all variants, in order.
pub open spec fn variant_registrations_text(xs: Seq<VariantSpec>) -> Seq<char>
    decreases xs.len(),
{
    if xs.len() == 0 {
        Seq::empty()
    } else {
        variant_registrations_text(xs.drop_last()) + variant_registration_text(xs.last())
    }
}

pub fn push_variant_registrations(s: &mut String, xs: &Vec<VariantSpec>)
    ensures
        final(s)@ == old(s)@ + variant_registrations_text(xs@),
{
    let ghost start = s@;
    let ghost v = xs@;
    let mut i: usize = 0;
    assert(v.take(0) =~= Seq::<VariantSpec>::empty());
    while i < xs.len()
        invariant
            i <= xs@.len(),
            v == xs@,
            start == old(s)@,
            s@ == start + variant_registrations_text(v.take(i as int)),
        decreases xs@.len() - i,
    {
        push_variant_registration(s, &xs[i]);
        proof {
            assert(v.take(i + 1).drop_last() =~= v.take(i as int));
            assert(v.take(i + 1).last() == xs@[i as int]);
        }
        i = i + 1;
    }
    assert(v.take(xs@.len() as int) =~= v);
}

/// The arms for arguments that name no variant of enum `ident`, or an unknown one: both stop the dissection.
pub open spec fn no_variant_text(ident: Seq<char>) -> Seq<char> {
    "Some(v) => panic!(\"unexpected variant {} of {}\", v, "@
        + str_lit_text(ident)
        + "),\nNone => panic!(\"unable to determine variant of {}\", "@
        + str_lit_text(ident)
        + "),\n}\n}\n"@
}

pub fn push_no_variant(s: &mut String, ident: &str)
    ensures
        final(s)@ == old(s)@ + no_variant_text(ident@),
{
    let ghost start = s@;
    s.append("Some(v) => panic!(\"unexpected variant {} of {}\", v, ");
    push_str_lit(s, ident);
    s.append("),\nNone => panic!(\"unable to determine variant of {}\", ");
    push_str_lit(s, ident);
    s.append("),\n}\n}\n");
    assert(s@ =~= start + no_variant_text(ident@));
}

/// A function of the enum's `Dissect` implementation, `call` (dissecting or measuring), that dispatches to the variant the arguments name.
pub open spec fn enum_dispatch_text(ident: Seq<char>, vs: Seq<VariantSpec>, call: Seq<char>) -> Seq<char> {
    "fn "@
        + call
        + "(args: &wsdf::DissectorArgs<'_, 'tvb>, fields: &mut wsdf::FieldsStore<'tvb>) -> usize {\nlet mut fields_local = wsdf::FieldsStore::default();\nmatch args.variant {\n"@
        + variant_arms_text(vs, call)
        + no_variant_text(ident)
}

fn push_enum_dispatch(s: &mut String, ident: &str, vs: &Vec<VariantSpec>, call: &str)
    ensures
        final(s)@ == old(s)@ + enum_dispatch_text(ident@, vs@, call@),
{
    let ghost start = s@;
    s.append("fn ");
    s.append(call);
    s.append("(args: &wsdf::DissectorArgs<'_, 'tvb>, fields: &mut wsdf::FieldsStore<'tvb>) -> usize {\nlet mut fields_local = wsdf::FieldsStore::default();\nmatch args.variant {\n");
    push_variant_arms(s, vs, call);
    push_no_variant(s, ident);
    assert(s@ =~= start + enum_dispatch_text(ident@, vs@, call@));
}

/// The expansion of `#[derive(Dissect)]` on enum `ident`: a struct per variant, and an implementation that dispatches to the variant the arguments name.
pub open spec fn dissect_enum_text(ident: Seq<char>, vs: Seq<VariantSpec>) -> Seq<char> {
    variant_structs_text(vs)
        + "impl<'tvb> wsdf::Dissect<'tvb, ()> for "@
        + ident
        + " {\ntype Emit = ();\n"@
        + enum_dispatch_text(ident, vs, "add_to_tree"@)
        + enum_dispatch_text(ident, vs, "size"@)
        + "fn register(args: &wsdf::RegisterArgs, ws_indices: &mut wsdf::WsIndices) {\n"@
        + variant_registrations_text(vs)
        + "}\nfn emit(args: &wsdf::DissectorArgs<'_, 'tvb>) {}\n}\n"@
}

fn push_dissect_enum(s: &mut String, ident: &str, vs: &Vec<VariantSpec>)
    ensures
        final(s)@ == old(s)@ + dissect_enum_text(ident@, vs@),
{
    let ghost start = s@;
    push_variant_structs(s, vs);
    s.append("impl<'tvb> wsdf::Dissect<'tvb, ()> for ");
    s.append(ident);
    s.append(" {\ntype Emit = ();\n");
    push_enum_dispatch(s, ident, vs, "add_to_tree");
    push_enum_dispatch(s, ident, vs, "size");
    s.append("fn register(args: &wsdf::RegisterArgs, ws_indices: &mut wsdf::WsIndices) {\n");
    push_variant_registrations(s, vs);
    s.append("}\nfn emit(args: &wsdf::DissectorArgs<'_, 'tvb>) {}\n}\n");
    assert(s@ =~= start + dissect_enum_text(ident@, vs@));
}

/// The expansion of `#[derive(Dissect)]` on enum `ident` with variants `variants`.
pub fn dissect_enum_source(ident: &str, variants: &Vec<VariantSpec>) -> (r: String)
    ensures
        r@ == dissect_enum_text(ident@, variants@),
{
    let mut s = String::new();
    push_dissect_enum(&mut s, ident, variants);
    s
}

/// How one dissector-table registration is written at handoff.
pub open spec fn table_reg_text(r: TableRegistration) -> Seq<char> {
    match r {
        TableRegistration::DecodeAs(t) => "wsdf::epan_sys::dissector_add_for_decode_as("@ + cstr_lit_text(t@)
            + ", handle);\n"@,
        TableRegistration::Uint(t, v) => "wsdf::epan_sys::dissector_add_uint("@ + cstr_lit_text(t@) + ", "@
            + decimal(v as nat) + "u32 as _, handle);\n"@,
    }
}

pub fn push_table_reg(s: &mut String, r: &TableRegistration)
    ensures
        final(s)@ == old(s)@ + table_reg_text(*r),
{
    let ghost start = s@;
    match r {
        TableRegistration::DecodeAs(t) => {
            s.append("wsdf::epan_sys::dissector_add_for_decode_as(");
            push_cstr_lit(s, t.as_str());
            s.append(", handle);\n");
        },
        TableRegistration::Uint(t, v) => {
            s.append("wsdf::epan_sys::dissector_add_uint(");
            push_cstr_lit(s, t.as_str());
            s.append(", ");
            push_decimal(s, *v as u64);
            s.append("u32 as _, handle);\n");
        },
    }
    assert(s@ =~= start + table_reg_text(*r));
}

/// The registrations made at handoff, in order.
pub open spec fn table_regs_text(xs: Seq<TableRegistration>) -> Seq<char>
    decreases xs.len(),
{
    if xs.len() == 0 {
        Seq::empty()
    } else {
        table_regs_text(xs.drop_last()) + table_reg_text(xs.last())
    }
}

pub fn push_table_regs(s: &mut String, xs: &Vec<TableRegistration>)
    ensures
        final(s)@ == old(s)@ + table_regs_text(xs@),
{
    let ghost start = s@;
    let ghost v = xs@;
    let mut i: usize = 0;
    assert(v.take(0) =~= Seq::<TableRegistration>::empty());
    while i < xs.len()
        invariant
            i <= xs@.len(),
            v == xs@,
            start == old(s)@,
            s@ == start + table_regs_text(v.take(i as int)),
        decreases xs@.len() - i,
    {
        push_table_reg(s, &xs[i]);
        proof {
            assert(v.take(i + 1).drop_last() =~= v.take(i as int));
            assert(v.take(i + 1).last() == xs@[i as int]);
        }
        i = i + 1;
    }
    assert(v.take(xs@.len() as int) =~= v);
}

/// Where registration records the protocol's handle: under its filter name.
pub open spec fn index_insert_text(filter: Seq<char>) -> Seq<char> {
    "ws_indices.hf.insert("@
        + str_lit_text(filter)
        + ", proto_id);\n"@
}

pub fn push_index_insert(s: &mut String, filter: &str)
    ensures
        final(s)@ == old(s)@ + index_insert_text(filter@),
{
    let ghost start = s@;
    s.append("ws_indices.hf.insert(");
    push_str_lit(s, filter);
    s.append(", proto_id);\n");
    assert(s@ =~= start + index_insert_text(filter@));
}

/// Where handoff finds the protocol's handle: under its filter name.
pub open spec fn index_lookup_text(filter: Seq<char>) -> Seq<char> {
    "let proto_id = hf_indices.get("@
        + str_lit_text(filter)
        + ").unwrap();\n"@
}

pub fn push_index_lookup(s: &mut String, filter: &str)
    ensures
        final(s)@ == old(s)@ + index_lookup_text(filter@),
{
    let ghost start = s@;
    s.append("let proto_id = hf_indices.get(");
    push_str_lit(s, filter);
    s.append(").unwrap();\n");
    assert(s@ =~= start + index_lookup_text(filter@));
}

/// The entry point Wireshark hands the protocol's packets to: it sets the protocol column to the description, copies the packet and adds the protocol's type to the tree under the filter name.
pub open spec fn dissect_main_text(ident: Seq<char>, desc: Seq<char>, filter: Seq<char>) -> Seq<char> {
    "#[allow(clippy::missing_safety_doc)]\nunsafe extern \"C\" fn dissect_main(\ntvb: *mut wsdf::epan_sys::tvbuff,\npinfo: *mut wsdf::epan_sys::_packet_info,\ntree: *mut wsdf::epan_sys::_proto_node,\ndata: *mut std::ffi::c_void,\n) -> std::ffi::c_int {\nwsdf::epan_sys::col_set_str(\n(*pinfo).cinfo,\nwsdf::epan_sys::COL_PROTOCOL as std::ffi::c_int,\n"@
        + cstr_lit_text(desc)
        + ",\n);\nwsdf::epan_sys::col_clear((*pinfo).cinfo, wsdf::epan_sys::COL_INFO as std::ffi::c_int);\nlet tvb_len = unsafe { wsdf::epan_sys::tvb_reported_length(tvb) as usize };\nlet mut tvb_buf = Vec::new();\ntvb_buf.resize(tvb_len, 0);\nunsafe {\nwsdf::epan_sys::tvb_memcpy(tvb, tvb_buf.as_mut_ptr() as *mut std::ffi::c_void, 0, tvb_len);\n}\n__WSDF_HF_INDICES.with(|hf_indices|\n__WSDF_ETT_INDICES.with(|etts|\n__WSDF_DTABLES.with(|dtables| {\nlet mut fields = wsdf::FieldsStore::default();\nlet hf_indices = hf_indices.borrow();\nlet etts = etts.borrow();\nlet dtables = dtables.borrow();\nlet args = wsdf::DissectorArgs {\nhf_indices: &hf_indices,\netts: &etts,\ndtables: &dtables,\ntvb,\npinfo,\nproto_root: tree,\ndata: &tvb_buf,\nprefix: "@
        + str_lit_text(filter)
        + ",\nprefix_local: "@
        + str_lit_text(filter)
        + ",\noffset: 0,\nparent: tree,\nvariant: std::option::Option::None,\nlist_len: std::option::Option::None,\nws_enc: std::option::Option::None,\n};\n<"@
        + ident
        + " as Dissect<'_, ()>>::add_to_tree(&args, &mut fields) as _\n})\n)\n)\n}\n"@
}

fn push_dissect_main(s: &mut String, ident: &str, desc: &str, filter: &str)
    ensures
        final(s)@ == old(s)@ + dissect_main_text(ident@, desc@, filter@),
{
    let ghost start = s@;
    s.append("#[allow(clippy::missing_safety_doc)]\nunsafe extern \"C\" fn dissect_main(\ntvb: *mut wsdf::epan_sys::tvbuff,\npinfo: *mut wsdf::epan_sys::_packet_info,\ntree: *mut wsdf::epan_sys::_proto_node,\ndata: *mut std::ffi::c_void,\n) -> std::ffi::c_int {\nwsdf::epan_sys::col_set_str(\n(*pinfo).cinfo,\nwsdf::epan_sys::COL_PROTOCOL as std::ffi::c_int,\n");
    push_cstr_lit(s, desc);
    s.append(",\n);\nwsdf::epan_sys::col_clear((*pinfo).cinfo, wsdf::epan_sys::COL_INFO as std::ffi::c_int);\nlet tvb_len = unsafe { wsdf::epan_sys::tvb_reported_length(tvb) as usize };\nlet mut tvb_buf = Vec::new();\ntvb_buf.resize(tvb_len, 0);\nunsafe {\nwsdf::epan_sys::tvb_memcpy(tvb, tvb_buf.as_mut_ptr() as *mut std::ffi::c_void, 0, tvb_len);\n}\n__WSDF_HF_INDICES.with(|hf_indices|\n__WSDF_ETT_INDICES.with(|etts|\n__WSDF_DTABLES.with(|dtables| {\nlet mut fields = wsdf::FieldsStore::default();\nlet hf_indices = hf_indices.borrow();\nlet etts = etts.borrow();\nlet dtables = dtables.borrow();\nlet args = wsdf::DissectorArgs {\nhf_indices: &hf_indices,\netts: &etts,\ndtables: &dtables,\ntvb,\npinfo,\nproto_root: tree,\ndata: &tvb_buf,\nprefix: ");
    push_str_lit(s, filter);
    s.append(",\nprefix_local: ");
    push_str_lit(s, filter);
    s.append(",\noffset: 0,\nparent: tree,\nvariant: std::option::Option::None,\nlist_len: std::option::Option::None,\nws_enc: std::option::Option::None,\n};\n<");
    s.append(ident);
    s.append(" as Dissect<'_, ()>>::add_to_tree(&args, &mut fields) as _\n})\n)\n)\n}\n");
    assert(s@ =~= start + dissect_main_text(ident@, desc@, filter@));
}

/// Registration: the protocol is registered with its description, name and filter name, its handle recorded under the filter name, and its fields registered under the filter name.
pub open spec fn register_protoinfo_text(ident: Seq<char>, desc: Seq<char>, name: Seq<char>, filter: Seq<char>) -> Seq<char> {
    "unsafe extern \"C\" fn register_protoinfo() {\nlet proto_id = unsafe {\n"@
        + "wsdf::epan_sys::proto_register_protocol(\n"@
        + cstr_lit_text(desc)
        + ",\n"@
        + cstr_lit_text(name)
        + ",\n"@
        + cstr_lit_text(filter)
        + ",\n)\n};\n__WSDF_HF_INDICES.with(|hf_indices|\n__WSDF_ETT_INDICES.with(|etts|\n__WSDF_DTABLES.with(|dtables| {\nlet mut hf = hf_indices.borrow_mut();\nlet mut ett = etts.borrow_mut();\nlet mut dtable = dtables.borrow_mut();\nlet mut ws_indices = wsdf::WsIndices { hf: &mut hf, ett: &mut ett, dtable: &mut dtable };\n"@
        + index_insert_text(filter)
        + "let args = wsdf::RegisterArgs {\nproto_id,\nname: "@
        + cstr_lit_text(name)
        + ",\nprefix: "@
        + str_lit_text(filter)
        + ",\nblurb: std::ptr::null(),\nws_type: std::option::Option::None,\nws_display: std::option::Option::None,\n};\n<"@
        + ident
        + " as Dissect<'_, ()>>::register(&args, &mut ws_indices);\n})\n)\n);\n}\n"@
}

fn push_register_protoinfo(s: &mut String, ident: &str, desc: &str, name: &str, filter: &str)
    ensures
        final(s)@ == old(s)@ + register_protoinfo_text(ident@, desc@, name@, filter@),
{
    let ghost start = s@;
    s.append("unsafe extern \"C\" fn register_protoinfo() {\nlet proto_id = unsafe {\n");
    s.append("wsdf::epan_sys::proto_register_protocol(\n");
    push_cstr_lit(s, desc);
    s.append(",\n");
    push_cstr_lit(s, name);
    s.append(",\n");
    push_cstr_lit(s, filter);
    s.append(",\n)\n};\n__WSDF_HF_INDICES.with(|hf_indices|\n__WSDF_ETT_INDICES.with(|etts|\n__WSDF_DTABLES.with(|dtables| {\nlet mut hf = hf_indices.borrow_mut();\nlet mut ett = etts.borrow_mut();\nlet mut dtable = dtables.borrow_mut();\nlet mut ws_indices = wsdf::WsIndices { hf: &mut hf, ett: &mut ett, dtable: &mut dtable };\n");
    push_index_insert(s, filter);
    s.append("let args = wsdf::RegisterArgs {\nproto_id,\nname: ");
    push_cstr_lit(s, name);
    s.append(",\nprefix: ");
    push_str_lit(s, filter);
    s.append(",\nblurb: std::ptr::null(),\nws_type: std::option::Option::None,\nws_display: std::option::Option::None,\n};\n<");
    s.append(ident);
    s.append(" as Dissect<'_, ()>>::register(&args, &mut ws_indices);\n})\n)\n);\n}\n");
    assert(s@ =~= start + register_protoinfo_text(ident@, desc@, name@, filter@));
}

/// Handoff: the handle recorded under the filter name gives the protocol a dissector handle, registered in each of its tables.
pub open spec fn register_handoff_text(ident: Seq<char>, filter: Seq<char>, regs: Seq<TableRegistration>) -> Seq<char> {
    "unsafe extern \"C\" fn register_handoff() {\n__WSDF_HF_INDICES.with(|hf_indices| {\nlet hf_indices = hf_indices.borrow();\n"@
        + index_lookup_text(filter)
        + "unsafe {\nlet handle = wsdf::epan_sys::create_dissector_handle(\nstd::option::Option::Some(<"@
        + ident
        + " as wsdf::Proto>::dissect_main),\nproto_id,\n);\n"@
        + table_regs_text(regs)
        + "}\n});\n}\n"@
}

fn push_register_handoff(s: &mut String, ident: &str, filter: &str, regs: &Vec<TableRegistration>)
    ensures
        final(s)@ == old(s)@ + register_handoff_text(ident@, filter@, regs@),
{
    let ghost start = s@;
    s.append("unsafe extern \"C\" fn register_handoff() {\n__WSDF_HF_INDICES.with(|hf_indices| {\nlet hf_indices = hf_indices.borrow();\n");
    push_index_lookup(s, filter);
    s.append("unsafe {\nlet handle = wsdf::epan_sys::create_dissector_handle(\nstd::option::Option::Some(<");
    s.append(ident);
    s.append(" as wsdf::Proto>::dissect_main),\nproto_id,\n);\n");
    push_table_regs(s, regs);
    s.append("}\n});\n}\n");
    assert(s@ =~= start + register_handoff_text(ident@, filter@, regs@));
}

/// The expansion of `#[derive(Proto)]` on struct `ident` planned as `p`.
pub open spec fn proto_impl_text(ident: Seq<char>, p: ProtoPlan) -> Seq<char> {
    "impl wsdf::Proto for "@
        + ident
        + " {\n"@
        + dissect_main_text(ident, p.desc@, p.filter@)
        + register_protoinfo_text(ident, p.desc@, p.name@, p.filter@)
        + register_handoff_text(ident, p.filter@, p.registrations@)
        + "}\n"@
}

fn push_proto_impl(s: &mut String, ident: &str, p: &ProtoPlan)
    ensures
        final(s)@ == old(s)@ + proto_impl_text(ident@, *p),
{
    let ghost start = s@;
    s.append("impl wsdf::Proto for ");
    s.append(ident);
    s.append(" {\n");
    push_dissect_main(s, ident, p.desc.as_str(), p.filter.as_str());
    push_register_protoinfo(s, ident, p.desc.as_str(), p.name.as_str(), p.filter.as_str());
    push_register_handoff(s, ident, p.filter.as_str(), &p.registrations);
    s.append("}\n");
    assert(s@ =~= start + proto_impl_text(ident@, *p));
}

/// The source of the `Proto` implementation of struct `ident` planned as `plan`.
pub fn proto_source(ident: &str, plan: &ProtoPlan) -> (r: String)
    ensures
        r@ == proto_impl_text(ident@, *plan),
{
    let mut s = String::new();
    push_proto_impl(&mut s, ident, plan);
    s
}

/// Registration records the protocol's handle under its filter name, and handoff looks the
/// handle up under that same filter name.
pub proof fn law_proto_handle_found_at_handoff(ident: Seq<char>, p: ProtoPlan)
    ensures
        has_text(proto_impl_text(ident, p), index_insert_text(p.filter@)),
        has_text(proto_impl_text(ident, p), index_lookup_text(p.filter@)),
{
    broadcast use lemma_has_text_self, lemma_has_text_concat;
}

/// The characters Rust's `char::is_whitespace` accepts: those with Unicode's
/// `White_Space` property.
pub open spec fn is_whitespace(c: char) -> bool {
    ('\t' <= c <= '\r') || c == ' ' || c == '\u{85}' || c == '\u{a0}' || c == '\u{1680}' || (
    '\u{2000}' <= c <= '\u{200a}') || c == '\u{2028}' || c == '\u{2029}' || c == '\u{202f}'
        || c == '\u{205f}' || c == '\u{3000}'
}

fn is_whitespace_char(c: char) -> (r: bool)
    ensures
        r == is_whitespace(c),
{
    ('\t' <= c && c <= '\r') || c == ' ' || c == '\u{85}' || c == '\u{a0}' || c == '\u{1680}' || (
    '\u{2000}' <= c && c <= '\u{200a}') || c == '\u{2028}' || c == '\u{2029}' || c == '\u{202f}'
        || c == '\u{205f}' || c == '\u{3000}'
}

/// How many whitespace characters `t` starts with.
pub open spec fn leading_ws(t: Seq<char>) -> nat
    decreases t.len(),
{
    if t.len() == 0 {
        0
    } else if is_whitespace(t[0]) {
        1 + leading_ws(t.drop_first())
    } else {
        0
    }
}

/// How many whitespace characters `t` ends with.
pub open spec fn trailing_ws(t: Seq<char>) -> nat
    decreases t.len(),
{
    if t.len() == 0 {
        0
    } else if is_whitespace(t.last()) {
        1 + trailing_ws(t.drop_last())
    } else {
        0
    }
}

/// `t` without its leading and trailing whitespace.
pub open spec fn trimmed(t: Seq<char>) -> Seq<char> {
    if leading_ws(t) == t.len() {
        Seq::empty()
    } else {
        t.subrange(leading_ws(t) as int, t.len() - trailing_ws(t))
    }
}

proof fn lemma_leading_ws(t: Seq<char>, i: int)
    requires
        0 <= i <= t.len(),
        forall|j: int| 0 <= j < i ==> is_whitespace(#[trigger] t[j]),
        i == t.len() || !is_whitespace(t[i]),
    ensures
        leading_ws(t) == i,
    decreases i,
{
    if i > 0 {
        let u = t.drop_first();
        assert forall|j: int| 0 <= j < i - 1 implies is_whitespace(#[trigger] u[j]) by {
            assert(u[j] == t[j + 1]);
        }
        if i < t.len() {
            assert(u[i - 1] == t[i]);
        }
        lemma_leading_ws(u, i - 1);
    }
}

proof fn lemma_trailing_ws(t: Seq<char>, k: int)
    requires
        0 <= k <= t.len(),
        forall|j: int| t.len() - k <= j < t.len() ==> is_whitespace(#[trigger] t[j]),
        k == t.len() || !is_whitespace(t[t.len() - k - 1]),
    ensures
        trailing_ws(t) == k,
    decreases k,
{
    if k > 0 {
        let u = t.drop_last();
        assert forall|j: int| u.len() - (k - 1) <= j < u.len() implies is_whitespace(#[trigger] u[j]) by {
            assert(u[j] == t[j]);
        }
        if k < t.len() {
            assert(u[u.len() - (k - 1) - 1] == t[t.len() - k - 1]);
        }
        lemma_trailing_ws(u, k - 1);
    }
}

/// `t` without its leading and trailing whitespace.
pub fn trim_text(t: &str) -> (r: String)
    ensures
        r@ == trimmed(t@),
{
    let n = t.unicode_len();
    let mut a: usize = 0;
    loop
        invariant
            n == t@.len(),
            a <= n,
            forall|j: int| 0 <= j < a ==> is_whitespace(#[trigger] t@[j]),
        ensures
            a <= n,
            forall|j: int| 0 <= j < a ==> is_whitespace(#[trigger] t@[j]),
            a == n || !is_whitespace(t@[a as int]),
        decreases n - a,
    {
        if a == n {
            break;
        }
        if !is_whitespace_char(t.get_char(a)) {
            break;
        }
        a = a + 1;
    }
    proof {
        lemma_leading_ws(t@, a as int);
    }
    if a == n {
        return String::new();
    }
    let mut b: usize = n;
    loop
        invariant
            n == t@.len(),
            a < n,
            !is_whitespace(t@[a as int]),
            a < b <= n,
            forall|j: int| b <= j < n ==> is_whitespace(#[trigger] t@[j]),
        ensures
            a < b <= n,
            forall|j: int| b <= j < n ==> is_whitespace(#[trigger] t@[j]),
            !is_whitespace(t@[b - 1]),
        decreases b,
    {
        if !is_whitespace_char(t.get_char(b - 1)) {
            break;
        }
        b = b - 1;
    }
    proof {
        lemma_trailing_ws(t@, (n - b) as int);
    }
    t.substring_char(a, b).to_owned()
}

/// The doc comment of an item made of the lines `lines`: each line trimmed, joined with a
/// space; none when there are no lines.
pub open spec fn doc_of(lines: Seq<Seq<char>>) -> Option<Seq<char>> {
    if lines.len() == 0 {
        None
    } else {
        Some(joined(lines.map_values(|l: Seq<char>| trimmed(l)), " "@))
    }
}

/// The doc comment made of the doc lines of an item.
pub fn doc_text(lines: &Vec<String>) -> (r: Option<String>)
    ensures
        match r {
            Some(d) => doc_of(seq_view(lines@)) == Some(d@),
            None => doc_of(seq_view(lines@)) is None,
        },
{
    if lines.len() == 0 {
        return None;
    }
    let ghost mapped = seq_view(lines@).map_values(|l: Seq<char>| trimmed(l));
    let mut s = String::new();
    let mut i: usize = 0;
    while i < lines.len()
        invariant
            i <= lines@.len(),
            mapped == seq_view(lines@).map_values(|l: Seq<char>| trimmed(l)),
            s@ == joined(mapped.take(i as int), " "@),
        decreases lines@.len() - i,
    {
        if i > 0 {
            s.append(" ");
        }
        let line = trim_text(lines[i].as_str());
        s.append(line.as_str());
        proof {
            let t = mapped.take(i + 1);
            assert(t.drop_last() =~= mapped.take(i as int));
            assert(t.last() == trimmed(lines@[i as int]@));
            if i == 0 {
                assert(mapped.take(0) =~= Seq::<Seq<char>>::empty());
                assert(s@ =~= t[0]);
            } else {
                assert(s@ =~= joined(t.drop_last(), " "@) + " "@ + t.last());
            }
        }
        i = i + 1;
    }
    assert(mapped.take(lines@.len() as int) =~= mapped);
    Some(s)
}

/// `s` begins with `t`.
pub open spec fn starts_with(s: Seq<char>, t: Seq<char>) -> bool {
    t.len() <= s.len() && s.subrange(0, t.len() as int) == t
}

/// `s` ends with `t`.
pub open spec fn ends_with(s: Seq<char>, t: Seq<char>) -> bool {
    t.len() <= s.len() && s.subrange(s.len() - t.len(), s.len() as int) == t
}

pub proof fn lemma_starts_with_self(s: Seq<char>)
    ensures
        starts_with(s, s),
{
    assert(s.subrange(0, s.len() as int) =~= s);
}

pub broadcast proof fn lemma_starts_with_extend(s: Seq<char>, t: Seq<char>, b: Seq<char>)
    requires
        starts_with(s, t),
    ensures
        #[trigger] starts_with(s + b, t),
{
    assert((s + b).subrange(0, t.len() as int) =~= s.subrange(0, t.len() as int));
}

pub proof fn lemma_ends_with_concat(a: Seq<char>, b: Seq<char>)
    ensures
        ends_with(a + b, b),
{
    assert((a + b).subrange(a.len() as int, (a + b).len() as int) =~= b);
}

pub broadcast proof fn lemma_ends_with_extend(a: Seq<char>, s: Seq<char>, t: Seq<char>)
    requires
        ends_with(s, t),
    ensures
        #[trigger] ends_with(a + s, t),
{
    assert((a + s).subrange((a + s).len() - t.len(), (a + s).len() as int) =~= s.subrange(
        s.len() - t.len(),
        s.len() as int,
    ));
}

/// What follows a prefix `p` at the start of `s` is found in `s`.
pub proof fn lemma_has_text_after_prefix(s: Seq<char>, p: Seq<char>, d: Seq<char>)
    requires
        starts_with(s, p + d),
    ensures
        has_text(s, d),
{
    let i = p.len() as int;
    assert(s.subrange(i, i + d.len()) =~= d) by {
        assert forall|k: int| 0 <= k < d.len() implies s.subrange(i, i + d.len())[k] == d[k] by {
            assert(s.subrange(0, (p + d).len() as int)[i + k] == (p + d)[i + k]);
        }
    }
}

/// A field added through a `consume_with` function: the function is run on the tap
/// context, and the offset then moves past the bytes it consumed, so that the next field
/// starts after them and the struct's length counts them.
pub proof fn law_consumed_bytes_advance_the_offset(f: Seq<char>, m: FieldMeta)
    ensures
        starts_with(
            add_strategy_text(AddStrategyView::ConsumeWith(f), m),
            "let (n, s) = wsdf::tap::handle_consume_with(&ctx, "@ + f + ");\n"@,
        ),
        ends_with(add_strategy_text(AddStrategyView::ConsumeWith(f), m), "let offset = offset + n;\n"@),
        ends_with(add_strategy_text(AddStrategyView::DecodeWith(f), m), "let offset = offset + n;\n"@),
{
    broadcast use lemma_starts_with_extend;

    let p = "let (n, s) = wsdf::tap::handle_consume_with(&ctx, "@ + f + ");\n"@;
    lemma_starts_with_self(p);
    let t = add_strategy_text(AddStrategyView::ConsumeWith(f), m);
    assert(starts_with(t, p));
    lemma_ends_with_concat(
        p + primitive_ty_text(m) + "::add_to_tree_format_value(&args_next, &s, n);\n"@,
        "let offset = offset + n;\n"@,
    );
    lemma_ends_with_concat(
        "let s = wsdf::tap::handle_decode_with(&ctx, "@ + f + ");\nlet n = "@ + dissect_ty_text(m)
            + "::size(&args_next, fields);\n"@ + primitive_ty_text(m)
            + "::add_to_tree_format_value(&args_next, &s, n);\n"@,
        "let offset = offset + n;\n"@,
    );
}

/// A hidden field skipped through its `consume_with` function moves the offset past the
/// bytes the function consumed.
pub proof fn law_hidden_consumed_bytes_advance_the_offset(m: FieldMeta)
    requires
        m.options@.consume_with is Some,
    ensures
        ends_with(add_strategy_text(AddStrategyView::Hidden, m), "let offset = offset + n;\n"@),
{
    let f = m.options@.consume_with->0;
    lemma_ends_with_concat(
        "let (n, _) = wsdf::tap::handle_consume_with(&ctx, "@ + f + ");\n"@,
        "let offset = offset + n;\n"@,
    );
}

/// A variant's fields are registered under the same filter names that dissecting it uses:
/// the enum's filter name, a dot, and the variant's name in snake case. The registration
/// of the variant starts by declaring that prefix, and the arm that dissects or measures it
/// declares the same one.
pub proof fn law_variant_prefix_is_shared(v: VariantSpec, call: Seq<char>)
    ensures
        starts_with(
            variant_registration_text(v),
            "let prefix_next = args.prefix.to_owned() + \".\" + "@ + str_lit_text(snake_case(v.ident@))
                + ";\n"@,
        ),
        has_text(
            variant_arm_text(v, call),
            "let prefix_next = args.prefix.to_owned() + \".\" + "@ + str_lit_text(snake_case(v.ident@))
                + ";\n"@,
        ),
{
    broadcast use lemma_starts_with_extend;

    let d = "let prefix_next = args.prefix.to_owned() + \".\" + "@ + str_lit_text(snake_case(v.ident@))
        + ";\n"@;
    lemma_starts_with_self(d);
    assert(starts_with(variant_registration_text(v), d));
    let head = "Some("@ + str_lit_text(v.ident@) + ") => {\n"@;
    let p = "Some("@ + str_lit_text(v.ident@) + ") => {\n"@ + "let prefix_next = args.prefix.to_owned() + \".\" + "@
        + str_lit_text(snake_case(v.ident@)) + ";\n"@;
    lemma_starts_with_self(p);
    assert(starts_with(variant_arm_text(v, call), p));
    assert(p =~= head + d);
    lemma_has_text_after_prefix(variant_arm_text(v, call), head, d);
}

/// Registration hands Wireshark the protocol's description as its full name, then its
/// name as the short name, then its filter name, in that order.
pub proof fn law_protocol_registered_with_desc_name_filter(ident: Seq<char>, p: ProtoPlan)
    ensures
        has_text(
            proto_impl_text(ident, p),
            "wsdf::epan_sys::proto_register_protocol(\n"@ + cstr_lit_text(p.desc@) + ",\n"@
                + cstr_lit_text(p.name@) + ",\n"@ + cstr_lit_text(p.filter@),
        ),
{
    broadcast use lemma_starts_with_extend, lemma_has_text_concat;

    let head = "unsafe extern \"C\" fn register_protoinfo() {\nlet proto_id = unsafe {\n"@;
    let d = "wsdf::epan_sys::proto_register_protocol(\n"@ + cstr_lit_text(p.desc@) + ",\n"@
        + cstr_lit_text(p.name@) + ",\n"@ + cstr_lit_text(p.filter@);
    let pre = head + "wsdf::epan_sys::proto_register_protocol(\n"@ + cstr_lit_text(p.desc@) + ",\n"@
        + cstr_lit_text(p.name@) + ",\n"@ + cstr_lit_text(p.filter@);
    let reg = register_protoinfo_text(ident, p.desc@, p.name@, p.filter@);
    lemma_starts_with_self(pre);
    assert(starts_with(reg, pre));
    assert(pre =~= head + d);
    lemma_has_text_after_prefix(reg, head, d);
    assert(has_text(proto_impl_text(ident, p), d));
}

/// Every key attempt of a table subdissector is found among the attempts of its keys.
proof fn lemma_key_try_found(keys: Seq<Seq<char>>, ty: Seq<char>, table: Seq<char>, i: int)
    requires
        0 <= i < keys.len(),
    ensures
        has_text(key_tries_text(keys, ty, table), key_try_text(keys[i], ty, table)),
    decreases keys.len(),
{
    broadcast use lemma_has_text_self, lemma_has_text_concat;

    if i < keys.len() - 1 {
        lemma_key_try_found(keys.drop_last(), ty, table, i);
        assert(keys.drop_last()[i] == keys[i]);
    }
}

/// A table subdissector tries each key field in turn, each attempt made only while no
/// earlier one dissected anything; the data dissector is called last, and only when no
/// attempt dissected anything, and the offset then moves past what was dissected.
pub proof fn law_data_dissector_only_when_no_key_matched(
    ty: Seq<char>,
    table: Seq<char>,
    keys: Seq<Seq<char>>,
    root: Seq<char>,
    i: int,
)
    requires
        0 <= i < keys.len(),
    ensures
        ends_with(
            subdissector_text(ty, SubdissectorView::Table { table_name: table, fields: keys }, root),
            "if nr_bytes_subdissected == 0 {\nnr_bytes_subdissected = args_next.call_data_dissector();\n}\nlet offset = offset + nr_bytes_subdissected;\n"@,
        ),
        has_text(
            subdissector_text(ty, SubdissectorView::Table { table_name: table, fields: keys }, root),
            "if nr_bytes_subdissected == 0 {\nnr_bytes_subdissected = "@ + subdissect_ty_text(ty)
                + "::try_subdissector(&args_next, "@ + str_lit_text(table) + ", &__"@ + keys[i]
                + ");\n}\n"@,
        ),
{
    broadcast use lemma_ends_with_extend, lemma_has_text_concat;

    let g = "if nr_bytes_subdissected == 0 {\nnr_bytes_subdissected = args_next.call_data_dissector();\n}\nlet offset = offset + nr_bytes_subdissected;\n"@;
    let body = "let mut nr_bytes_subdissected = 0;\n"@ + key_tries_text(keys, ty, table);
    lemma_ends_with_concat(body, g);
    lemma_key_try_found(keys, ty, table, i);
    assert(has_text(body, key_try_text(keys[i], ty, table)));
    assert(has_text(body + g, key_try_text(keys[i], ty, table)));
}

} // verus!
