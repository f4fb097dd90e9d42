//! Calls out of the library: what is not proved here is stated here.
use crate::json::{canon, CanonView, Json, JsonView};
use crate::toml_value::{TomlValue, TomlView};
use crate::v2::source::{item_views, ItemView, MacroToken, RustAttribute, RustItem};
use vstd::prelude::*;

verus! {

/// A value of the `serde_json` crate, passed on as it is.
#[verifier::external_type_specification]
#[verifier::external_body]
pub struct ExSerdeJsonValue(serde_json::Value);

/// A value of the `toml` crate, passed on as it is.
#[verifier::external_type_specification]
#[verifier::external_body]
pub struct ExTomlCrateValue(toml::Value);

/// The `serde_json::Value` of a [`Json`] value, variant by variant. A
/// written number is read by `serde_json::Number`; one that JSON cannot write
/// becomes null.
#[verifier::external_body]
fn to_serde(value: &Json) -> (out: serde_json::Value) {
    match value {
        Json::Null => serde_json::Value::Null,
        Json::Bool(b) => serde_json::Value::from(*b),
        Json::Int(n) => serde_json::Value::from(*n),
        Json::Number(s) => s.parse().map(serde_json::Value::Number).unwrap_or_default(),
        Json::Text(s) => serde_json::Value::from(s.as_str()),
        Json::List(items) => items.iter().map(to_serde).collect(),
        Json::Object(entries) => entries.iter().map(|(k, v)| (k.clone(), to_serde(v))).collect(),
    }
}

/// The compact JSON document of a value.
pub uninterp spec fn json_document(value: JsonView) -> Seq<char>;

/// `serde_json::Value::to_string`: the compact document is a function of the
/// value.
#[verifier::external_body]
pub(crate) fn json_to_string(value: &Json) -> (out: String)
    ensures
        out@ == json_document(value@),
{
    to_serde(value).to_string()
}

/// The indented JSON document of a value.
pub uninterp spec fn json_pretty_document(value: JsonView) -> Seq<char>;

/// `serde_json::to_string_pretty`: the indented document is a function of the
/// value. It cannot fail on a value whose keys are all texts.
#[verifier::external_body]
pub(crate) fn json_to_string_pretty(value: &Json) -> (out: String)
    ensures
        out@ == json_pretty_document(value@),
{
    serde_json::to_string_pretty(&to_serde(value)).unwrap_or_default()
}

/// The [`TomlValue`] of a `toml::Value`, variant by variant.
#[verifier::external_body]
fn from_toml(value: toml::Value) -> (out: TomlValue) {
    match value {
        toml::Value::String(s) => TomlValue::Text(s),
        toml::Value::Integer(n) => TomlValue::Integer(n),
        toml::Value::Float(f) => TomlValue::Float(f.to_string()),
        toml::Value::Boolean(b) => TomlValue::Boolean(b),
        toml::Value::Datetime(d) => TomlValue::Datetime(d.to_string()),
        toml::Value::Array(a) => TomlValue::Array(a.into_iter().map(from_toml).collect()),
        toml::Value::Table(t) => {
            TomlValue::Table(t.into_iter().map(|(k, v)| (k, from_toml(v))).collect())
        },
    }
}

/// The value of a TOML document, or what is wrong with it.
pub uninterp spec fn toml_parsed(text: Seq<char>) -> Result<TomlView, Seq<char>>;

/// `str::parse::<toml::Value>`: the value, or the message of the error, is a
/// function of the text.
#[verifier::external_body]
pub(crate) fn parse_toml(text: &str) -> (out: Result<TomlValue, String>)
    ensures
        match out {
            Ok(v) => toml_parsed(text@) == Ok::<TomlView, Seq<char>>(v@),
            Err(e) => toml_parsed(text@) == Err::<TomlView, Seq<char>>(e@),
        },
{
    text.parse::<toml::Value>().map(from_toml).map_err(|e| e.to_string())
}

/// The base64 form of a byte string, in the standard alphabet with padding.
pub uninterp spec fn base64_text(bytes: Seq<u8>) -> Seq<char>;

/// `base64`'s `STANDARD` engine: the text is a function of the bytes.
#[verifier::external_body]
pub(crate) fn base64_encode(bytes: &[u8]) -> (out: String)
    ensures
        out@ == base64_text(bytes@),
{
    base64::Engine::encode(&base64::engine::general_purpose::STANDARD, bytes)
}

/// What is wrong with bytes that are no UTF-8.
pub uninterp spec fn utf8_fault(bytes: Seq<u8>) -> Seq<char>;

/// `std::str::from_utf8`: the text that the bytes encode, if they are UTF-8. The
/// message of the error is a function of the bytes.
#[verifier::external_body]
pub(crate) fn from_utf8(bytes: &[u8]) -> (out: Result<String, String>)
    ensures
        match out {
            Ok(s) => vstd::utf8::valid_utf8(bytes@) && s@ == vstd::utf8::decode_utf8(bytes@),
            Err(e) => !vstd::utf8::valid_utf8(bytes@) && e@ == utf8_fault(bytes@),
        },
{
    std::str::from_utf8(bytes).map(str::to_owned).map_err(|e| e.to_string())
}

/// The TOML document of a table of texts, as `toml::to_string` writes it;
/// `None` where it refuses.
pub uninterp spec fn toml_document(table: Seq<(Seq<char>, Seq<char>)>) -> Option<Seq<char>>;

/// `toml::to_string` on a table whose values are all texts. The document is a
/// function of the table's entries; how it is laid out is left to the crate.
#[verifier::external_body]
pub(crate) fn toml_to_string(table: &Vec<(String, String)>) -> (out: Option<String>)
    ensures
        match out {
            Some(text) => toml_document(crate::composer::decl::pairs(table@)) == Some(text@),
            None => toml_document(crate::composer::decl::pairs(table@)) is None,
        },
{
    let mut map = toml::map::Map::new();
    for (key, value) in table {
        map.insert(key.clone(), toml::Value::String(value.clone()));
    }
    toml::to_string(&toml::Value::Table(map)).ok()
}

/// The SHA-256 digest of a byte string.
pub uninterp spec fn sha256_digest(bytes: Seq<u8>) -> Seq<u8>;

/// `sha2::Sha256::digest`: the digest is a function of the bytes and is 32
/// bytes long.
#[verifier::external_body]
pub(crate) fn sha256(bytes: &[u8]) -> (out: Vec<u8>)
    ensures
        out@ == sha256_digest(bytes@),
        out@.len() == 32,
{
    <sha2::Sha256 as sha2::Digest>::digest(bytes).to_vec()
}

/// The text that a byte string is read as, with U+FFFD for what is not UTF-8.
pub uninterp spec fn lossy_text(bytes: Seq<u8>) -> Seq<char>;

/// `String::from_utf8_lossy`: the text is a function of the bytes, and valid
/// UTF-8 is read as it is.
#[verifier::external_body]
pub(crate) fn from_utf8_lossy(bytes: &[u8]) -> (out: String)
    ensures
        out@ == lossy_text(bytes@),
        vstd::utf8::valid_utf8(bytes@) ==> out@ == vstd::utf8::decode_utf8(bytes@),
{
    String::from_utf8_lossy(bytes).into_owned()
}

/// The [`Json`] value of a `serde_json::Value`, variant by variant. A number is
/// carried as `serde_json` writes it.
#[verifier::external_body]
fn from_serde(value: serde_json::Value) -> (out: Json) {
    match value {
        serde_json::Value::Null => Json::Null,
        serde_json::Value::Bool(b) => Json::Bool(b),
        serde_json::Value::Number(n) => Json::Number(n.to_string()),
        serde_json::Value::String(s) => Json::Text(s),
        serde_json::Value::Array(a) => Json::List(a.into_iter().map(from_serde).collect()),
        serde_json::Value::Object(o) => {
            Json::Object(o.into_iter().map(|(k, v)| (k, from_serde(v))).collect())
        },
    }
}

/// The value of a JSON document, or what is wrong with it.
pub uninterp spec fn json_parsed(text: Seq<char>) -> Result<JsonView, Seq<char>>;

/// `serde_json::from_str`: the value, or the message of the error, is a
/// function of the text.
#[verifier::external_body]
pub(crate) fn parse_json(text: &str) -> (out: Result<Json, String>)
    ensures
        match out {
            Ok(v) => json_parsed(text@) == Ok::<JsonView, Seq<char>>(v@),
            Err(e) => json_parsed(text@) == Err::<JsonView, Seq<char>>(e@),
        },
{
    serde_json::from_str(text).map(from_serde).map_err(|e| e.to_string())
}

/// A text in lower case, by the Unicode tables.
pub uninterp spec fn lower_case(s: Seq<char>) -> Seq<char>;

/// `str::to_lowercase`: the lower-case text is a function of the text.
#[verifier::external_body]
pub(crate) fn to_lowercase(s: &str) -> (out: String)
    ensures
        out@ == lower_case(s@),
{
    s.to_lowercase()
}

/// Whether a character is a letter or a number, by the Unicode tables.
pub uninterp spec fn letter_or_number(c: char) -> bool;

/// `char::is_alphanumeric`: the answer is a function of the character.
#[verifier::external_body]
pub(crate) fn is_letter_or_number(c: char) -> (out: bool)
    ensures
        out == letter_or_number(c),
{
    c.is_alphanumeric()
}

/// A text as `Debug` shows it: between double quotes, with escapes.
pub uninterp spec fn debug_text(s: Seq<char>) -> Seq<char>;

/// `str`'s `Debug`: what it shows is a function of the text.
#[verifier::external_body]
pub(crate) fn debug_of(s: &str) -> (out: String)
    ensures
        out@ == debug_text(s@),
{
    format!("{s:?}")
}

/// An item of a Rust file, passed on as it is.
#[verifier::external_type_specification]
#[verifier::external_body]
pub struct ExSynItem(syn::Item);

/// An attribute of an item, passed on as it is.
#[verifier::external_type_specification]
#[verifier::external_body]
pub struct ExSynAttribute(syn::Attribute);

/// A struct of a Rust file, passed on as it is.
#[verifier::external_type_specification]
#[verifier::external_body]
pub struct ExSynItemStruct(syn::ItemStruct);

/// An enum of a Rust file, passed on as it is.
#[verifier::external_type_specification]
#[verifier::external_body]
pub struct ExSynItemEnum(syn::ItemEnum);

/// A function of a Rust file, passed on as it is.
#[verifier::external_type_specification]
#[verifier::external_body]
pub struct ExSynItemFn(syn::ItemFn);

/// The declared result of a function, passed on as it is.
#[verifier::external_type_specification]
#[verifier::external_body]
pub struct ExSynReturnType(syn::ReturnType);

/// A token of a macro call, passed on as it is.
#[verifier::external_type_specification]
#[verifier::external_body]
pub struct ExTokenTree(proc_macro2::TokenTree);

/// The [`RustAttribute`] of an attribute: what `syn::Path::get_ident` gives as
/// its name, and the string literal that it is set to.
#[verifier::external_body]
fn attribute_of(attr: &syn::Attribute) -> (out: RustAttribute) {
    let value = match &attr.meta {
        syn::Meta::NameValue(nv) => match &nv.value {
            syn::Expr::Lit(syn::ExprLit { lit: syn::Lit::Str(s), .. }) => Some(s.value()),
            _ => None,
        },
        _ => None,
    };
    RustAttribute { name: attr.path().get_ident().map(|i| i.to_string()), value }
}

/// The [`MacroToken`] of a token, variant by variant. A literal that `syn`
/// reads as a string is one.
#[verifier::external_body]
fn token_of(token: proc_macro2::TokenTree) -> (out: MacroToken) {
    match token {
        proc_macro2::TokenTree::Ident(i) => MacroToken::Word(i.to_string()),
        proc_macro2::TokenTree::Punct(p) => MacroToken::Mark(p.as_char()),
        proc_macro2::TokenTree::Literal(l) => syn::parse2::<syn::LitStr>(
            proc_macro2::TokenTree::Literal(l).into(),
        )
            .map(|s| MacroToken::Text(s.value()))
            .unwrap_or(MacroToken::Literal),
        proc_macro2::TokenTree::Group(_) => MacroToken::Group,
    }
}

/// The name, the fields and the attributes of a struct.
#[verifier::external_body]
fn struct_of(item: &syn::ItemStruct) -> (out: RustItem) {
    let fields = item.fields.iter().map(|f| f.ident.as_ref().map(|i| i.to_string())).collect();
    let attributes = item.attrs.iter().map(attribute_of).collect();
    RustItem::Struct(item.ident.to_string(), fields, attributes)
}

/// The name, the variants and the attributes of an enum.
#[verifier::external_body]
fn enum_of(item: &syn::ItemEnum) -> (out: RustItem) {
    let variants = item.variants.iter().map(|v| v.ident.to_string()).collect();
    let attributes = item.attrs.iter().map(attribute_of).collect();
    RustItem::Enum(item.ident.to_string(), variants, attributes)
}

/// The last part of the path of a type that is a reference to a path.
#[verifier::external_body]
fn referred_type(output: &syn::ReturnType) -> (out: Option<String>) {
    match output {
        syn::ReturnType::Type(_, ty) => match ty.as_ref() {
            syn::Type::Reference(r) => match r.elem.as_ref() {
                syn::Type::Path(p) => p.path.segments.last().map(|s| s.ident.to_string()),
                _ => None,
            },
            _ => None,
        },
        syn::ReturnType::Default => None,
    }
}

/// The name, the number of parameters, the attributes and the returned
/// reference of a function.
#[verifier::external_body]
fn function_of(item: &syn::ItemFn) -> (out: RustItem) {
    let attributes = item.attrs.iter().map(attribute_of).collect();
    let returned = referred_type(&item.sig.output);
    RustItem::Function(item.sig.ident.to_string(), item.sig.inputs.len(), attributes, returned)
}

/// The [`RustItem`] of an item, variant by variant.
#[verifier::external_body]
fn item_of(item: &syn::Item) -> (out: RustItem) {
    match item {
        syn::Item::Fn(f) => function_of(f),
        syn::Item::Struct(s) => struct_of(s),
        syn::Item::Enum(e) => enum_of(e),
        syn::Item::Macro(m) => {
            RustItem::Macro(m.mac.tokens.clone().into_iter().map(token_of).collect())
        },
        _ => RustItem::Other,
    }
}

/// The items of a Rust file, or what is wrong with it.
pub uninterp spec fn rust_items(source: Seq<char>) -> Result<Seq<ItemView>, Seq<char>>;

/// `syn::parse_file`: the items, or the message of the error, are a function of
/// the source.
#[verifier::external_body]
pub(crate) fn parse_rust(source: &str) -> (out: Result<Vec<RustItem>, String>)
    ensures
        match out {
            Ok(items) => rust_items(source@) == Ok::<Seq<ItemView>, Seq<char>>(item_views(items@)),
            Err(e) => rust_items(source@) == Err::<Seq<ItemView>, Seq<char>>(e@),
        },
{
    let file = syn::parse_file(source).map_err(|e| e.to_string())?;
    Ok(file.items.iter().map(item_of).collect())
}

/// The value of a JSON document in bytes, or what is wrong with it.
pub uninterp spec fn json_parsed_bytes(bytes: Seq<u8>) -> Result<JsonView, Seq<char>>;

/// `serde_json::from_slice`: the value, or the message of the error, is a
/// function of the bytes.
#[verifier::external_body]
pub(crate) fn parse_json_bytes(bytes: &[u8]) -> (out: Result<Json, String>)
    ensures
        match out {
            Ok(v) => json_parsed_bytes(bytes@) == Ok::<JsonView, Seq<char>>(v@),
            Err(e) => json_parsed_bytes(bytes@) == Err::<JsonView, Seq<char>>(e@),
        },
{
    serde_json::from_slice(bytes).map(from_serde).map_err(|e| e.to_string())
}

/// The canonical JSON document of a value, or why it has none.
pub uninterp spec fn canonical_document(value: CanonView) -> Result<Seq<u8>, Seq<char>>;

/// `serde_jcs::to_vec`: the canonical document is a function of what the value
/// holds, whatever the order of its keys: the crate sorts them.
#[verifier::external_body]
pub(crate) fn canonical_json(value: &Json) -> (out: Result<Vec<u8>, String>)
    ensures
        match out {
            Ok(bytes) => canonical_document(canon(value@)) == Ok::<Seq<u8>, Seq<char>>(bytes@),
            Err(e) => canonical_document(canon(value@)) == Err::<Seq<u8>, Seq<char>>(e@),
        },
{
    serde_jcs::to_vec(&to_serde(value)).map_err(|e| e.to_string())
}

} // verus!
