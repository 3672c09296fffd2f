//! The source text that the `version!` and `protocol!` macros expand to, and the other
//! decisions of the derive macros that do not depend on Rust syntax trees.

use vstd::prelude::*;

use crate::plugin::{registrations_of, table_registrations, TableRegistration};
use crate::types::DissectorDecodeFrom;
use vstd::string::StringSliceAdditionalSpecFns;

verus! {

/// The character of decimal digit `d`.
pub open spec fn digit_char(d: nat) -> char {
    if d == 0 {
        '0'
    } else if d == 1 {
        '1'
    } else if d == 2 {
        '2'
    } else if d == 3 {
        '3'
    } else if d == 4 {
        '4'
    } else if d == 5 {
        '5'
    } else if d == 6 {
        '6'
    } else if d == 7 {
        '7'
    } else if d == 8 {
        '8'
    } else {
        '9'
    }
}

/// The decimal representation of `n`, without leading zeros.
pub open spec fn decimal(n: nat) -> Seq<char>
    decreases n,
{
    if n < 10 {
        seq![digit_char(n)]
    } else {
        decimal(n / 10) + seq![digit_char(n % 10)]
    }
}

fn digit_str(d: u64) -> (r: &'static str)
    requires
        d < 10,
    ensures
        r@ == seq![digit_char(d as nat)],
{
    proof {
        reveal_strlit("0");
        reveal_strlit("1");
        reveal_strlit("2");
        reveal_strlit("3");
        reveal_strlit("4");
        reveal_strlit("5");
        reveal_strlit("6");
        reveal_strlit("7");
        reveal_strlit("8");
        reveal_strlit("9");
    }
    if d == 0 {
        let r = "0";
        assert(r@ =~= seq!['0']);
        r
    } else if d == 1 {
        let r = "1";
        assert(r@ =~= seq!['1']);
        r
    } else if d == 2 {
        let r = "2";
        assert(r@ =~= seq!['2']);
        r
    } else if d == 3 {
        let r = "3";
        assert(r@ =~= seq!['3']);
        r
    } else if d == 4 {
        let r = "4";
        assert(r@ =~= seq!['4']);
        r
    } else if d == 5 {
        let r = "5";
        assert(r@ =~= seq!['5']);
        r
    } else if d == 6 {
        let r = "6";
        assert(r@ =~= seq!['6']);
        r
    } else if d == 7 {
        let r = "7";
        assert(r@ =~= seq!['7']);
        r
    } else if d == 8 {
        let r = "8";
        assert(r@ =~= seq!['8']);
        r
    } else {
        let r = "9";
        assert(r@ =~= seq!['9']);
        r
    }
}

/// Appends the decimal representation of `n` to `s`.
pub fn push_decimal(s: &mut String, n: u64)
    ensures
        final(s)@ == old(s)@ + decimal(n as nat),
    decreases n,
{
    if n < 10 {
        s.append(digit_str(n));
    } else {
        push_decimal(s, n / 10);
        s.append(digit_str(n % 10));
        assert(old(s)@ + decimal(n as nat) =~= old(s)@ + decimal((n / 10) as nat) + seq![
            digit_char((n % 10) as nat),
        ]);
    }
}

/// How an `i8` literal is written: its decimal value, with a minus sign when negative,
/// and the `i8` suffix.
pub open spec fn i8_literal(v: i8) -> Seq<char> {
    if v < 0 {
        "-"@ + decimal((-v) as nat) + "i8"@
    } else {
        decimal(v as nat) + "i8"@
    }
}

fn push_i8_literal(s: &mut String, v: i8)
    ensures
        final(s)@ == old(s)@ + i8_literal(v),
{
    if v < 0 {
        s.append("-");
        let m: i16 = -(v as i16);
        push_decimal(s, m as u64);
    } else {
        push_decimal(s, v as u64);
    }
    s.append("i8");
    assert(final(s)@ =~= old(s)@ + i8_literal(v));
}

/// The kinds of Wireshark plugin a library can declare itself as.
#[derive(Clone, Copy, Debug, PartialEq, Eq, Structural)]
pub enum PluginType {
    Dissector,
    FileType,
    Codec,
    Epan,
    TapListener,
    DFilter,
}

/// The plugin type named `ident`, if it names one.
pub open spec fn plugin_type_named(ident: Seq<char>) -> Option<PluginType> {
    if ident == "Dissector"@ {
        Some(PluginType::Dissector)
    } else if ident == "FileType"@ {
        Some(PluginType::FileType)
    } else if ident == "Codec"@ {
        Some(PluginType::Codec)
    } else if ident == "Epan"@ {
        Some(PluginType::Epan)
    } else if ident == "TapListener"@ {
        Some(PluginType::TapListener)
    } else if ident == "DFilter"@ {
        Some(PluginType::DFilter)
    } else {
        None
    }
}

/// The name of the Wireshark constant that describes a plugin of type `t`.
pub open spec fn plugin_desc_const(t: PluginType) -> Seq<char> {
    match t {
        PluginType::Dissector => "WS_PLUGIN_DESC_DISSECTOR"@,
        PluginType::FileType => "WS_PLUGIN_DESC_FILE_TYPE"@,
        PluginType::Codec => "WS_PLUGIN_DESC_CODEC"@,
        PluginType::Epan => "WS_PLUGIN_DESC_EPAN"@,
        PluginType::TapListener => "WS_PLUGIN_DESC_TAP_LISTENER"@,
        PluginType::DFilter => "WS_PLUGIN_DESC_DFILTER"@,
    }
}

/// The message given for an identifier that names no plugin type.
pub open spec fn invalid_plugin_type_message() -> Seq<char> {
    "Invalid plugin type. Expected one of: Dissector, FileType, Codec, Epan, TapListener, DFilter"@
}

impl PluginType {
    /// The plugin type named by identifier `ident`.
    pub fn parse(ident: &str) -> (r: Result<PluginType, String>)
        ensures
            match plugin_type_named(ident@) {
                Some(t) => r == Ok::<PluginType, String>(t),
                None => r matches Err(m) && m@ == invalid_plugin_type_message(),
            },
    {
        let id = ident.to_owned();
        if id == "Dissector".to_owned() {
            Ok(PluginType::Dissector)
        } else if id == "FileType".to_owned() {
            Ok(PluginType::FileType)
        } else if id == "Codec".to_owned() {
            Ok(PluginType::Codec)
        } else if id == "Epan".to_owned() {
            Ok(PluginType::Epan)
        } else if id == "TapListener".to_owned() {
            Ok(PluginType::TapListener)
        } else if id == "DFilter".to_owned() {
            Ok(PluginType::DFilter)
        } else {
            Err(
                "Invalid plugin type. Expected one of: Dissector, FileType, Codec, Epan, TapListener, DFilter".to_owned(),
            )
        }
    }

    /// The name of the Wireshark constant describing this plugin type.
    pub fn to_const_ident(&self) -> (r: &'static str)
        ensures
            r@ == plugin_desc_const(*self),
    {
        match self {
            PluginType::Dissector => "WS_PLUGIN_DESC_DISSECTOR",
            PluginType::FileType => "WS_PLUGIN_DESC_FILE_TYPE",
            PluginType::Codec => "WS_PLUGIN_DESC_CODEC",
            PluginType::Epan => "WS_PLUGIN_DESC_EPAN",
            PluginType::TapListener => "WS_PLUGIN_DESC_TAP_LISTENER",
            PluginType::DFilter => "WS_PLUGIN_DESC_DFILTER",
        }
    }
}

/// The characters of the plugin version string as C characters: its UTF-8 bytes
/// followed by a terminating zero.
pub open spec fn version_chars(bytes: Seq<u8>) -> Seq<i8> {
    bytes.map_values(|b: u8| b as i8).push(0i8)
}

/// The plugin version string as an array of C characters, terminated by a zero.
pub fn plugin_version_chars(plugin_ver: &str) -> (r: Vec<i8>)
    ensures
        r@ == version_chars(plugin_ver.spec_bytes()),
{
    let bytes = plugin_ver.as_bytes();
    let mut r: Vec<i8> = Vec::new();
    let mut i: usize = 0;
    while i < bytes.len()
        invariant
            i <= bytes@.len(),
            bytes@ == plugin_ver.spec_bytes(),
            r@ == bytes@.take(i as int).map_values(|b: u8| b as i8),
        decreases bytes@.len() - i,
    {
        r.push(#[verifier::truncate] (bytes[i] as i8));
        i = i + 1;
        assert(r@ =~= bytes@.take(i as int).map_values(|b: u8| b as i8));
    }
    r.push(0);
    assert(bytes@.take(bytes@.len() as int) =~= bytes@);
    r
}

/// The elements of an array of `i8` literals, separated by commas.
pub open spec fn i8_list(vals: Seq<i8>) -> Seq<char>
    decreases vals.len(),
{
    if vals.len() == 0 {
        Seq::empty()
    } else if vals.len() == 1 {
        i8_literal(vals[0])
    } else {
        i8_list(vals.drop_last()) + ", "@ + i8_literal(vals.last())
    }
}

fn push_i8_list(s: &mut String, vals: &Vec<i8>)
    ensures
        final(s)@ == old(s)@ + i8_list(vals@),
{
    let mut i: usize = 0;
    while i < vals.len()
        invariant
            i <= vals@.len(),
            s@ == old(s)@ + i8_list(vals@.take(i as int)),
        decreases vals@.len() - i,
    {
        let ghost before = s@;
        if i > 0 {
            s.append(", ");
        }
        push_i8_literal(s, vals[i]);
        proof {
            let t = vals@.take(i + 1);
            assert(t.drop_last() =~= vals@.take(i as int));
            assert(t.last() == vals@[i as int]);
            if i == 0 {
                assert(t.len() == 1 && t[0] == vals@[0]);
                assert(vals@.take(0) =~= Seq::<i8>::empty());
            }
        }
        i = i + 1;
        assert(s@ =~= old(s)@ + i8_list(vals@.take(i as int)));
    }
    assert(vals@.take(vals@.len() as int) =~= vals@);
}

/// The source text the `version!` macro expands to: the exported plugin version (as a
/// zero-terminated C string), the Wireshark major and minor versions the plugin is built
/// for, and `plugin_describe`, which tells Wireshark the plugin's type (`Epan` when none
/// is given).
pub open spec fn version_source(
    ver_bytes: Seq<u8>,
    major: Seq<char>,
    minor: Seq<char>,
    plugin_type: PluginType,
) -> Seq<char> {
    "#[no_mangle]\n#[used]\nstatic "@ + "plugin_version"@ + ": [std::ffi::c_char; "@ + decimal(
        (ver_bytes.len() + 1) as nat,
    ) + "usize] = ["@ + i8_list(version_chars(ver_bytes)) + "];\n#[no_mangle]\n#[used]\nstatic "@
        + "plugin_want_major"@ + ": std::ffi::c_int = "@ + major
        + ";\n#[no_mangle]\n#[used]\nstatic "@ + "plugin_want_minor"@ + ": std::ffi::c_int = "@
        + minor + ";\n#[no_mangle]\npub extern \"C\" fn "@ + "plugin_describe"@
        + "() -> u32 {\n    wsdf::epan_sys::"@ + plugin_desc_const(plugin_type) + "\n}\n"@
}

/// The expansion of `version!(plugin_ver, ws_major, ws_minor[, plugin_type])`, the
/// Wireshark versions being given as the text of their integer literals.
pub fn version(plugin_ver: &str, ws_major: &str, ws_minor: &str, plugin_type: Option<PluginType>) -> (r:
    String)
    requires
        plugin_ver.spec_bytes().len() < u64::MAX,
    ensures
        r@ == version_source(
            plugin_ver.spec_bytes(),
            ws_major@,
            ws_minor@,
            match plugin_type {
                Some(t) => t,
                None => PluginType::Epan,
            },
        ),
{
    let ver_str = plugin_version_chars(plugin_ver);
    let nr_chars = ver_str.len();
    let t = match plugin_type {
        Some(t) => t,
        None => PluginType::Epan,
    };
    let mut s = String::new();
    s.append("#[no_mangle]\n#[used]\nstatic ");
    s.append("plugin_version");
    s.append(": [std::ffi::c_char; ");
    push_decimal(&mut s, nr_chars as u64);
    s.append("usize] = [");
    push_i8_list(&mut s, &ver_str);
    s.append("];\n#[no_mangle]\n#[used]\nstatic ");
    s.append("plugin_want_major");
    s.append(": std::ffi::c_int = ");
    s.append(ws_major);
    s.append(";\n#[no_mangle]\n#[used]\nstatic ");
    s.append("plugin_want_minor");
    s.append(": std::ffi::c_int = ");
    s.append(ws_minor);
    s.append(";\n#[no_mangle]\npub extern \"C\" fn ");
    s.append("plugin_describe");
    s.append("() -> u32 {\n    wsdf::epan_sys::");
    s.append(t.to_const_ident());
    s.append("\n}\n");
    s
}


/// `s` contains `t` as a contiguous piece.
pub open spec fn has_text(s: Seq<char>, t: Seq<char>) -> bool {
    exists|i: int| 0 <= i && i + t.len() <= s.len() && #[trigger] s.subrange(i, i + t.len()) == t
}

pub broadcast proof fn lemma_has_text_self(t: Seq<char>)
    ensures
        #[trigger] has_text(t, t),
{
    let i: int = 0;
    assert(t.subrange(i, i + t.len()) =~= t);
}

pub broadcast proof fn lemma_has_text_concat(a: Seq<char>, b: Seq<char>, t: Seq<char>)
    requires
        has_text(a, t) || has_text(b, t),
    ensures
        #[trigger] has_text(a + b, t),
{
    if has_text(a, t) {
        let i = choose|i: int| 0 <= i && i + t.len() <= a.len() && #[trigger] a.subrange(i, i + t.len()) == t;
        assert((a + b).subrange(i, i + t.len()) =~= a.subrange(i, i + t.len()));
    } else {
        let i = choose|i: int| 0 <= i && i + t.len() <= b.len() && #[trigger] b.subrange(i, i + t.len()) == t;
        let j = i + a.len();
        assert((a + b).subrange(j, j + t.len()) =~= b.subrange(i, i + t.len()));
    }
}

/// The name of the static through which the `i`-th protocol is registered.
pub open spec fn plug_name(i: nat) -> Seq<char> {
    "PLUG_"@ + decimal(i)
}

/// The registration of the `i`-th selected protocol, of type `ty`, as a Wireshark plugin.
pub open spec fn plug_block(i: nat, ty: Seq<char>) -> Seq<char> {
    "    static mut "@ + plug_name(i)
        + ": wsdf::epan_sys::proto_plugin = wsdf::epan_sys::proto_plugin {\n        register_protoinfo: None,\n        register_handoff: None,\n    };\n    unsafe {\n        "@
        + plug_name(i) + "."@ + "register_protoinfo"@
        + " =\n            std::option::Option::Some(<"@ + ty + " as wsdf::Proto>::register_protoinfo);\n        "@
        + plug_name(i) + "."@ + "register_handoff"@
        + " =\n            std::option::Option::Some(<"@ + ty + " as wsdf::Proto>::register_handoff);\n        wsdf::epan_sys::"@
        + "proto_register_plugin"@ + "(&"@ + plug_name(i) + ");\n    }\n"@
}

/// The registrations of all selected protocols, in order.
pub open spec fn plug_blocks(types: Seq<Seq<char>>) -> Seq<char>
    decreases types.len(),
{
    if types.len() == 0 {
        Seq::empty()
    } else {
        plug_blocks(types.drop_last()) + plug_block((types.len() - 1) as nat, types.last())
    }
}

/// The source text the `protocol!` macro expands to for the selected protocol types: the
/// per-thread index tables, and `plugin_register`, through which Wireshark loads the
/// plugin and which registers each selected protocol.
pub open spec fn protocol_source(types: Seq<Seq<char>>) -> Seq<char> {
    "thread_local! {\n    static __WSDF_HF_INDICES: std::cell::RefCell<wsdf::HfIndices> = wsdf::HfIndices::default().into();\n    static __WSDF_ETT_INDICES: std::cell::RefCell<wsdf::EttIndices> = wsdf::EttIndices::default().into();\n    static __WSDF_DTABLES: std::cell::RefCell<wsdf::DissectorTables> = wsdf::DissectorTables::default().into();\n}\n#[no_mangle]\nextern \"C\" fn "@
        + "plugin_register"@ + "() {\n"@ + plug_blocks(types) + "}\n"@
}

fn push_plug_name(s: &mut String, i: u64)
    ensures
        final(s)@ == old(s)@ + plug_name(i as nat),
{
    s.append("PLUG_");
    push_decimal(s, i);
    assert(final(s)@ =~= old(s)@ + plug_name(i as nat));
}

fn push_plug_block(s: &mut String, i: u64, ty: &String)
    ensures
        final(s)@ == old(s)@ + plug_block(i as nat, ty@),
{
    let ghost start = s@;
    s.append("    static mut ");
    push_plug_name(s, i);
    s.append(
        ": wsdf::epan_sys::proto_plugin = wsdf::epan_sys::proto_plugin {\n        register_protoinfo: None,\n        register_handoff: None,\n    };\n    unsafe {\n        ",
    );
    push_plug_name(s, i);
    s.append(".");
    s.append("register_protoinfo");
    s.append(" =\n            std::option::Option::Some(<");
    s.append(ty.as_str());
    s.append(" as wsdf::Proto>::register_protoinfo);\n        ");
    push_plug_name(s, i);
    s.append(".");
    s.append("register_handoff");
    s.append(" =\n            std::option::Option::Some(<");
    s.append(ty.as_str());
    s.append(" as wsdf::Proto>::register_handoff);\n        wsdf::epan_sys::");
    s.append("proto_register_plugin");
    s.append("(&");
    push_plug_name(s, i);
    s.append(");\n    }\n");
    assert(s@ =~= start + plug_block(i as nat, ty@));
}

/// The expansion of `protocol!(T1, T2, ...)`, the types being given as source text.
pub fn protocol(types: &Vec<String>) -> (r: String)
    requires
        types@.len() < u64::MAX,
    ensures
        r@ == protocol_source(types@.map_values(|t: String| t@)),
{
    let ghost tv = types@.map_values(|t: String| t@);
    let mut s = String::new();
    s.append(
        "thread_local! {\n    static __WSDF_HF_INDICES: std::cell::RefCell<wsdf::HfIndices> = wsdf::HfIndices::default().into();\n    static __WSDF_ETT_INDICES: std::cell::RefCell<wsdf::EttIndices> = wsdf::EttIndices::default().into();\n    static __WSDF_DTABLES: std::cell::RefCell<wsdf::DissectorTables> = wsdf::DissectorTables::default().into();\n}\n#[no_mangle]\nextern \"C\" fn ",
    );
    s.append("plugin_register");
    s.append("() {\n");
    let ghost head = s@;
    let mut i: usize = 0;
    while i < types.len()
        invariant
            i <= types@.len(),
            types@.len() < u64::MAX,
            tv == types@.map_values(|t: String| t@),
            s@ == head + plug_blocks(tv.take(i as int)),
        decreases types@.len() - i,
    {
        push_plug_block(&mut s, i as u64, &types[i]);
        proof {
            assert(tv.take(i + 1).drop_last() =~= tv.take(i as int));
            assert(tv.take(i + 1).last() == types@[i as int]@);
        }
        i = i + 1;
        assert(s@ =~= head + plug_blocks(tv.take(i as int)));
    }
    assert(tv.take(tv.len() as int) =~= tv);
    s.append("}\n");
    s
}

/// The expansion of `version!` exports every symbol Wireshark looks for in a plugin's
/// version information: `plugin_version`, `plugin_want_major`, `plugin_want_minor` and
/// `plugin_describe`.
pub proof fn law_version_exports(
    ver_bytes: Seq<u8>,
    major: Seq<char>,
    minor: Seq<char>,
    plugin_type: PluginType,
)
    ensures
        has_text(version_source(ver_bytes, major, minor, plugin_type), "plugin_version"@),
        has_text(version_source(ver_bytes, major, minor, plugin_type), "plugin_want_major"@),
        has_text(version_source(ver_bytes, major, minor, plugin_type), "plugin_want_minor"@),
        has_text(version_source(ver_bytes, major, minor, plugin_type), "plugin_describe"@),
{
    broadcast use lemma_has_text_self, lemma_has_text_concat;
}

/// The expansion of `protocol!` always defines `plugin_register`, the entry point
/// Wireshark calls; when at least one protocol is selected it registers it through
/// `proto_register_plugin`, giving both its `register_protoinfo` and its
/// `register_handoff` routine.
pub proof fn law_protocol_exports(types: Seq<Seq<char>>)
    ensures
        has_text(protocol_source(types), "plugin_register"@),
        types.len() > 0 ==> has_text(protocol_source(types), "proto_register_plugin"@),
        types.len() > 0 ==> has_text(protocol_source(types), "register_protoinfo"@),
        types.len() > 0 ==> has_text(protocol_source(types), "register_handoff"@),
{
    broadcast use lemma_has_text_self, lemma_has_text_concat;
    if types.len() > 0 {
        let n = (types.len() - 1) as nat;
        assert(plug_blocks(types) == plug_blocks(types.drop_last()) + plug_block(n, types.last()));
    }
}


/// The options of a type deriving `Proto`.
pub struct ProtocolOptions {
    pub decode_from: Vec<DissectorDecodeFrom>,
    pub proto_desc: Option<String>,
    pub proto_name: Option<String>,
    pub proto_filter: Option<String>,
}

/// What the `Proto` implementation of a type is made from: the protocol's description,
/// name and filter, and the dissector-table registrations done at handoff.
pub struct ProtoPlan {
    pub desc: String,
    pub name: String,
    pub filter: String,
    pub registrations: Vec<TableRegistration>,
}

/// The value of an optional name, or `default` when it is absent.
pub open spec fn or_default(o: Option<String>, default: Seq<char>) -> Seq<char> {
    match o {
        Some(s) => s@,
        None => default,
    }
}

fn name_or(o: &Option<String>, default: &str) -> (r: String)
    ensures
        r@ == or_default(*o, default@),
{
    match o {
        Some(s) => s.clone(),
        None => default.to_owned(),
    }
}

pub open spec fn not_a_struct_message() -> Seq<char> {
    "only structs can derive Proto"@
}

pub open spec fn missing_decode_from_message() -> Seq<char> {
    "missing `decode_from` attribute"@
}

/// Plans the `Proto` implementation of a type. Only structs can be protocols, and a
/// protocol must say where it is decoded from. The description and name default to the
/// type's name in upper case, the filter to its name in snake case.
pub fn plan_proto(is_struct: bool, opts: &ProtocolOptions, upper_cased: &str, snake_cased: &str) -> (r:
    Result<ProtoPlan, String>)
    ensures
        !is_struct ==> (r matches Err(m) && m@ == not_a_struct_message()),
        is_struct && opts.decode_from@.len() == 0 ==> (r matches Err(m) && m@
            == missing_decode_from_message()),
        is_struct && opts.decode_from@.len() != 0 ==> (r matches Ok(p) && {
            &&& p.desc@ == or_default(opts.proto_desc, upper_cased@)
            &&& p.name@ == or_default(opts.proto_name, upper_cased@)
            &&& p.filter@ == or_default(opts.proto_filter, snake_cased@)
            &&& p.registrations@ == registrations_of(opts.decode_from@)
        }),
{
    if !is_struct {
        return Err("only structs can derive Proto".to_owned());
    }
    if opts.decode_from.len() == 0 {
        return Err("missing `decode_from` attribute".to_owned());
    }
    Ok(ProtoPlan {
        desc: name_or(&opts.proto_desc, upper_cased),
        name: name_or(&opts.proto_name, upper_cased),
        filter: name_or(&opts.proto_filter, snake_cased),
        registrations: table_registrations(&opts.decode_from),
    })
}

/// The kinds of type a derive macro can be applied to.
#[derive(Clone, Copy, Debug, PartialEq, Eq, Structural)]
pub enum DataKind {
    Struct,
    Enum,
    Union,
}

pub open spec fn union_message() -> Seq<char> {
    "#[derive(Dissect)] cannot be used on unions"@
}

/// `Dissect` can be derived for structs and enums, not for unions.
pub fn check_dissect_target(kind: DataKind) -> (r: Result<(), String>)
    ensures
        kind == DataKind::Union <==> r is Err,
        r matches Err(m) ==> m@ == union_message(),
{
    match kind {
        DataKind::Union => Err("#[derive(Dissect)] cannot be used on unions".to_owned()),
        _ => Ok(()),
    }
}

pub open spec fn tuple_arity_message() -> Seq<char> {
    "expected only one field in tuple"@
}

/// A tuple struct (or tuple variant) that derives `Dissect` has exactly one field.
pub fn check_tuple_arity(n: usize) -> (r: Result<(), String>)
    ensures
        n != 1 <==> r is Err,
        r matches Err(m) ==> m@ == tuple_arity_message(),
{
    if n != 1 {
        Err("expected only one field in tuple".to_owned())
    } else {
        Ok(())
    }
}

/// The identifier the generated code uses for `ident`: the variable holding the value of
/// a field, or the struct standing for an enum variant.
pub fn hidden_ident(ident: &str) -> (r: String)
    ensures
        r@ == "__"@ + ident@,
{
    let mut s = "__".to_owned();
    s.append(ident);
    s
}

/// The name shown for an enum variant or a field: the name it was renamed to, or its
/// identifier in title case.
pub fn ui_name(rename: &Option<String>, title_cased: &str) -> (r: String)
    ensures
        r@ == or_default(*rename, title_cased@),
{
    name_or(rename, title_cased)
}

} // verus!
