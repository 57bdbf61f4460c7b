//! Solidity contracts as the dynamic engine sees them: function selectors,
//! the callable surface read from a compiler's ABI, creation bytecode, and
//! the well-known ERC20 and Ownable surfaces used to probe contracts that
//! come without an ABI.
use vstd::prelude::*;
use sha3::Digest;
use crate::dynamic::{FunctionSpec, ParamKind};
use crate::text::{joined, push_str, str_eq, str_starts_with, string_from};
use crate::threat_model::str_views;

verus! {

// ---------------------------------------------------------------------------
// Selectors
// ---------------------------------------------------------------------------
/// What keccak-256 gives for the bytes.
pub uninterp spec fn keccak256(data: Seq<u8>) -> Seq<u8>;

/// `Keccak256::digest` of the `sha3` crate: the keccak-256 digest of the
/// bytes, named by `keccak256`.
#[verifier::external_body]
fn keccak_digest(data: &[u8]) -> (r: [u8; 32])
    ensures
        r@ == keccak256(data@),
{
    sha3::Keccak256::digest(data).into()
}

/// The canonical signature `name(type1,type2,...)`.
pub open spec fn signature_text(name: Seq<char>, types: Seq<Seq<char>>) -> Seq<char> {
    name + "("@ + joined(types, ","@) + ")"@
}

/// The selector of a function: the first four bytes of the keccak-256
/// digest of its signature's UTF-8 bytes.
pub open spec fn selector_of(name: Seq<char>, types: Seq<Seq<char>>) -> Seq<u8> {
    keccak256(vstd::utf8::encode_utf8(signature_text(name, types))).subrange(0, 4)
}

/// The selector a digest gives: its first four bytes.
pub fn selector_from_digest(digest: &[u8; 32]) -> (r: [u8; 4])
    ensures
        r@ == digest@.subrange(0, 4),
{
    let r = [digest[0], digest[1], digest[2], digest[3]];
    assert(r@ =~= digest@.subrange(0, 4));
    r
}

/// The 4-byte Solidity selector of `name` with parameters of these types.
pub fn selector_for(name: &str, solidity_types: &[&str]) -> (r: [u8; 4])
    ensures
        r@ == selector_of(name@, str_views(solidity_types@)),
{
    let ghost types = str_views(solidity_types@);
    let mut sig = string_from(name);
    push_str(&mut sig, "(");
    let mut i: usize = 0;
    let mut list = String::new();
    assert(types.subrange(0, 0) =~= Seq::<Seq<char>>::empty());
    while i < solidity_types.len()
        invariant
            i <= solidity_types.len(),
            types == str_views(solidity_types@),
            list@ == joined(types.subrange(0, i as int), ","@),
        decreases solidity_types.len() - i,
    {
        if i > 0 {
            push_str(&mut list, ",");
        }
        push_str(&mut list, solidity_types[i]);
        proof {
            let sub = types.subrange(0, i + 1);
            assert(sub.drop_last() =~= types.subrange(0, i as int));
            assert(sub.last() == solidity_types@[i as int]@);
            if i == 0 {
                assert(list@ =~= sub[0]);
            } else {
                assert(list@ =~= joined(types.subrange(0, i as int), ","@) + ","@ + sub.last());
            }
        }
        i = i + 1;
    }
    assert(types.subrange(0, solidity_types.len() as int) =~= types);
    push_str(&mut sig, list.as_str());
    push_str(&mut sig, ")");
    assert(sig@ =~= signature_text(name@, types));
    let digest = keccak_digest(sig.as_str().as_bytes());
    selector_from_digest(&digest)
}

/// The parameter kind of a Solidity type, where the encoder supports it.
pub open spec fn param_kind_of(t: Seq<char>) -> Option<ParamKind> {
    if t == "address"@ {
        Some(ParamKind::Address)
    } else if t == "bool"@ {
        Some(ParamKind::Bool)
    } else if t == "bytes32"@ {
        Some(ParamKind::Bytes32)
    } else if crate::text::has_prefix(t, "uint"@) {
        Some(ParamKind::Uint256)
    } else {
        None
    }
}

/// The parameter kind of a Solidity type: addresses, booleans, `bytes32`
/// and the unsigned integers; `None` for the types the encoder cannot
/// handle.
pub fn param_kind_for(solidity_type: &str) -> (r: Option<ParamKind>)
    ensures
        r == param_kind_of(solidity_type@),
{
    if str_eq(solidity_type, "address") {
        Some(ParamKind::Address)
    } else if str_eq(solidity_type, "bool") {
        Some(ParamKind::Bool)
    } else if str_eq(solidity_type, "bytes32") {
        Some(ParamKind::Bytes32)
    } else if str_starts_with(solidity_type, "uint") {
        Some(ParamKind::Uint256)
    } else {
        None
    }
}

// ---------------------------------------------------------------------------
// JSON values
// ---------------------------------------------------------------------------
/// A JSON value, as a compiler's output holds it.
#[derive(Debug)]
pub enum JsonValue {
    /// `null`.
    Null,
    /// `true` or `false`.
    Bool(bool),
    /// A number, by its text.
    Number(String),
    /// A string.
    String(String),
    /// An array.
    Array(Vec<JsonValue>),
    /// An object: its members, each key once.
    Object(Vec<(String, JsonValue)>),
}

/// The first member of `fields` from `i` on named `key`.
pub open spec fn member_from(fields: Seq<(String, JsonValue)>, key: Seq<char>, i: int) -> Option<
    JsonValue,
>
    decreases fields.len() - i,
{
    if i < 0 || i >= fields.len() {
        None
    } else if fields[i].0@ == key {
        Some(fields[i].1)
    } else {
        member_from(fields, key, i + 1)
    }
}

/// `value.get(key)`: the member named `key` of an object.
pub open spec fn json_get(v: JsonValue, key: Seq<char>) -> Option<JsonValue> {
    match v {
        JsonValue::Object(fields) => member_from(fields@, key, 0),
        _ => None,
    }
}

/// The text of a JSON string, read from an optional value.
pub open spec fn json_str(v: Option<JsonValue>) -> Option<Seq<char>> {
    match v {
        Some(JsonValue::String(s)) => Some(s@),
        _ => None,
    }
}

impl JsonValue {
    /// The member named `key`, if this is an object that has one.
    pub fn get(&self, key: &str) -> (r: Option<&JsonValue>)
        ensures
            match r {
                Some(x) => json_get(*self, key@) == Some(*x),
                None => json_get(*self, key@) is None,
            },
    {
        match self {
            JsonValue::Object(fields) => {
                let mut i: usize = 0;
                while i < fields.len()
                    invariant
                        i <= fields.len(),
                        json_get(*self, key@) == member_from(fields@, key@, 0),
                        member_from(fields@, key@, i as int) == member_from(fields@, key@, 0),
                    decreases fields.len() - i,
                {
                    if str_eq(fields[i].0.as_str(), key) {
                        return Some(&fields[i].1);
                    }
                    i = i + 1;
                }
                None
            },
            _ => None,
        }
    }
}

fn as_str_of(v: Option<&JsonValue>) -> (r: Option<&str>)
    ensures
        match r {
            Some(s) => json_str(
                match v {
                    Some(x) => Some(*x),
                    None => None,
                },
            ) == Some(s@),
            None => json_str(
                match v {
                    Some(x) => Some(*x),
                    None => None,
                },
            ) is None,
        },
{
    match v {
        Some(JsonValue::String(s)) => Some(s.as_str()),
        _ => None,
    }
}

// ---------------------------------------------------------------------------
// ABI
// ---------------------------------------------------------------------------
/// The types of a function's inputs, where each input names its type.
pub open spec fn input_types(items: Seq<JsonValue>) -> Option<Seq<Seq<char>>>
    decreases items.len(),
{
    if items.len() == 0 {
        Some(Seq::empty())
    } else {
        match (input_types(items.drop_last()), json_str(json_get(items.last(), "type"@))) {
            (Some(ts), Some(t)) => Some(ts.push(t)),
            _ => None,
        }
    }
}

/// The parameter kinds of the types, where the encoder supports each.
pub open spec fn param_kinds(types: Seq<Seq<char>>) -> Option<Seq<ParamKind>>
    decreases types.len(),
{
    if types.len() == 0 {
        Some(Seq::empty())
    } else {
        match (param_kinds(types.drop_last()), param_kind_of(types.last())) {
            (Some(ks), Some(k)) => Some(ks.push(k)),
            _ => None,
        }
    }
}

/// What an ABI entry describes, if it is a function the fuzzer can call:
/// its name, input types, parameter kinds and state mutability (default
/// `nonpayable`).
pub open spec fn abi_function(e: JsonValue) -> Option<
    (Seq<char>, Seq<Seq<char>>, Seq<ParamKind>, Seq<char>),
> {
    if json_str(json_get(e, "type"@)) != Some("function"@) {
        None
    } else {
        match json_str(json_get(e, "name"@)) {
            None => None,
            Some(name) => {
                let items = match json_get(e, "inputs"@) {
                    Some(JsonValue::Array(items)) => items@,
                    _ => Seq::empty(),
                };
                match input_types(items) {
                    None => None,
                    Some(types) => match param_kinds(types) {
                        None => None,
                        Some(kinds) => Some(
                            (
                                name,
                                types,
                                kinds,
                                match json_str(json_get(e, "stateMutability"@)) {
                                    Some(m) => m,
                                    None => "nonpayable"@,
                                },
                            ),
                        ),
                    },
                }
            },
        }
    }
}

/// `f` is the callable function an ABI entry describes.
pub open spec fn spec_matches(
    f: FunctionSpec,
    d: (Seq<char>, Seq<Seq<char>>, Seq<ParamKind>, Seq<char>),
) -> bool {
    &&& f.name@ == d.0
    &&& f.selector@ == selector_of(d.0, d.1)
    &&& f.inputs@ == d.2
    &&& f.mutates_state == !(d.3 == "view"@ || d.3 == "pure"@)
    &&& f.payable == (d.3 == "payable"@)
}

/// The functions of the entries, in order: one for each entry that is a
/// callable function.
pub open spec fn abi_functions_are(entries: Seq<JsonValue>, fs: Seq<FunctionSpec>) -> bool
    decreases entries.len(),
{
    if entries.len() == 0 {
        fs.len() == 0
    } else {
        match abi_function(entries.last()) {
            Some(d) => fs.len() > 0 && spec_matches(fs.last(), d) && abi_functions_are(
                entries.drop_last(),
                fs.drop_last(),
            ),
            None => abi_functions_are(entries.drop_last(), fs),
        }
    }
}

/// The function one ABI entry describes, if the fuzzer can call it.
fn abi_entry_function(e: &JsonValue) -> (r: Option<FunctionSpec>)
    ensures
        match r {
            Some(f) => abi_function(*e) matches Some(d) && spec_matches(f, d),
            None => abi_function(*e) is None,
        },
{
    match as_str_of(e.get("type")) {
        Some(t) => {
            if !str_eq(t, "function") {
                return None;
            }
        },
        None => {
            return None;
        },
    }
    let name = match as_str_of(e.get("name")) {
        Some(n) => n,
        None => {
            return None;
        },
    };
    let none: Vec<JsonValue> = Vec::new();
    let items: &Vec<JsonValue> = match e.get("inputs") {
        Some(JsonValue::Array(items)) => items,
        _ => &none,
    };
    let mut types: Vec<&str> = Vec::new();
    let mut kinds: Vec<ParamKind> = Vec::new();
    let mut i: usize = 0;
    assert(items@.subrange(0, 0) =~= Seq::<JsonValue>::empty());
    while i < items.len()
        invariant
            i <= items.len(),
            abi_function(*e) == (match input_types(items@) {
                None => None,
                Some(types) => match param_kinds(types) {
                    None => None,
                    Some(kinds) => Some(
                        (
                            name@,
                            types,
                            kinds,
                            match json_str(json_get(*e, "stateMutability"@)) {
                                Some(m) => m,
                                None => "nonpayable"@,
                            },
                        ),
                    ),
                },
            }),
            input_types(items@.subrange(0, i as int)) == Some(str_views(types@)),
            param_kinds(str_views(types@)) == Some(kinds@),
        decreases items.len() - i,
    {
        let ghost sub = items@.subrange(0, i + 1);
        proof {
            assert(sub.drop_last() =~= items@.subrange(0, i as int));
            assert(sub.last() == items@[i as int]);
        }
        let t = match as_str_of(items[i].get("type")) {
            Some(t) => t,
            None => {
                proof {
                    lemma_input_types_none(items@, i + 1);
                    assert(items@.subrange(0, items@.len() as int) =~= items@);
                    assert(input_types(items@) is None);
                }
                return None;
            },
        };
        let ghost before = str_views(types@);
        types.push(t);
        assert(str_views(types@) =~= before.push(t@));
        assert(str_views(types@).drop_last() =~= before);
        match param_kind_for(t) {
            Some(k) => {
                kinds.push(k);
            },
            None => {
                proof {
                    assert(param_kinds(str_views(types@)) is None);
                    lemma_input_types_prefix(items@, i + 1, str_views(types@));
                }
                return None;
            },
        }
        i = i + 1;
    }
    assert(items@.subrange(0, items@.len() as int) =~= items@);
    let m = match as_str_of(e.get("stateMutability")) {
        Some(m) => m,
        None => "nonpayable",
    };
    let mutates_state = !(str_eq(m, "view") || str_eq(m, "pure"));
    let payable = str_eq(m, "payable");
    let selector = selector_for(name, types.as_slice());
    Some(FunctionSpec { name: string_from(name), selector, inputs: kinds, mutates_state, payable })
}

/// An input without a type makes every longer list of inputs untyped.
proof fn lemma_input_types_none(items: Seq<JsonValue>, k: int)
    requires
        0 < k <= items.len(),
        json_str(json_get(items[k - 1], "type"@)) is None,
    ensures
        forall|n: int| k <= n <= items.len() ==> input_types(#[trigger] items.subrange(0, n)) is None,
    decreases items.len() - k,
{
    assert forall|n: int| k <= n <= items.len() implies input_types(#[trigger] items.subrange(0, n)) is None by {
        lemma_input_types_none_at(items, k, n);
    }
}

proof fn lemma_input_types_none_at(items: Seq<JsonValue>, k: int, n: int)
    requires
        0 < k <= n <= items.len(),
        json_str(json_get(items[k - 1], "type"@)) is None,
    ensures
        input_types(items.subrange(0, n)) is None,
    decreases n,
{
    let sub = items.subrange(0, n);
    assert(sub.drop_last() =~= items.subrange(0, n - 1));
    if n > k {
        lemma_input_types_none_at(items, k, n - 1);
    } else {
        assert(sub.last() == items[k - 1]);
    }
}

/// When the types read so far hold one the encoder cannot handle, the kinds
/// of all the inputs' types are undefined too, or the inputs are untyped.
proof fn lemma_input_types_prefix(items: Seq<JsonValue>, k: int, ts: Seq<Seq<char>>)
    requires
        0 < k <= items.len(),
        input_types(items.subrange(0, k)) == Some(ts),
        param_kinds(ts) is None,
    ensures
        match input_types(items) {
            Some(all) => param_kinds(all) is None,
            None => true,
        },
    decreases items.len() - k,
{
    if k < items.len() {
        let next = items.subrange(0, k + 1);
        assert(next.drop_last() =~= items.subrange(0, k));
        match input_types(next) {
            Some(t2) => {
                assert(t2.drop_last() == ts);
                lemma_input_types_prefix(items, k + 1, t2);
            },
            None => {
                lemma_input_types_prefix_none(items, k + 1);
            },
        }
    } else {
        assert(items.subrange(0, k) =~= items);
    }
}

proof fn lemma_input_types_prefix_none(items: Seq<JsonValue>, k: int)
    requires
        0 < k <= items.len(),
        input_types(items.subrange(0, k)) is None,
    ensures
        input_types(items) is None,
    decreases items.len() - k,
{
    if k < items.len() {
        let next = items.subrange(0, k + 1);
        assert(next.drop_last() =~= items.subrange(0, k));
        lemma_input_types_prefix_none(items, k + 1);
    } else {
        assert(items.subrange(0, k) =~= items);
    }
}

/// The callable functions of an ABI: one per entry of type `function` that
/// has a name and whose inputs all have types the encoder supports, in
/// order; nothing for a value that is not an array.
pub fn parse_abi(abi: &JsonValue) -> (r: Vec<FunctionSpec>)
    ensures
        match abi {
            JsonValue::Array(entries) => abi_functions_are(entries@, r@),
            _ => r@.len() == 0,
        },
{
    let entries = match abi {
        JsonValue::Array(entries) => entries,
        _ => {
            return Vec::new();
        },
    };
    let mut out: Vec<FunctionSpec> = Vec::new();
    let mut i: usize = 0;
    while i < entries.len()
        invariant
            i <= entries.len(),
            abi_functions_are(entries@.subrange(0, i as int), out@),
        decreases entries.len() - i,
    {
        let ghost sub = entries@.subrange(0, i + 1);
        proof {
            assert(sub.drop_last() =~= entries@.subrange(0, i as int));
            assert(sub.last() == entries@[i as int]);
        }
        match abi_entry_function(&entries[i]) {
            Some(f) => {
                let ghost before = out@;
                out.push(f);
                assert(out@.drop_last() =~= before);
            },
            None => {},
        }
        i = i + 1;
    }
    assert(entries@.subrange(0, entries@.len() as int) =~= entries@);
    out
}


// ---------------------------------------------------------------------------
// Bytecode
// ---------------------------------------------------------------------------
/// The value of a hexadecimal digit byte.
pub open spec fn hex_value(b: u8) -> Option<u8> {
    if 0x41 <= b && b <= 0x46 {
        Some((b - 0x41 + 10) as u8)
    } else if 0x61 <= b && b <= 0x66 {
        Some((b - 0x61 + 10) as u8)
    } else if 0x30 <= b && b <= 0x39 {
        Some((b - 0x30) as u8)
    } else {
        None
    }
}

/// The first position from `i` on that holds no hexadecimal digit.
pub open spec fn first_non_hex(b: Seq<u8>, i: int) -> Option<int>
    decreases b.len() - i,
{
    if i < 0 || i >= b.len() {
        None
    } else if hex_value(b[i]) is None {
        Some(i)
    } else {
        first_non_hex(b, i + 1)
    }
}

/// The bytes that pairs of hexadecimal digits spell, high digit first.
pub open spec fn hex_bytes(b: Seq<u8>) -> Seq<u8> {
    Seq::new(
        b.len() / 2,
        |k: int| (hex_value(b[2 * k])->0 * 16 + hex_value(b[2 * k + 1])->0) as u8,
    )
}

/// Why hexadecimal text does not decode.
#[derive(Debug, Clone, Copy, PartialEq, Eq, Structural)]
pub enum HexError {
    /// A byte that is not a hexadecimal digit, as a character, and its
    /// position.
    InvalidHexCharacter { c: char, index: usize },
    /// An odd number of digits.
    OddLength,
    /// A length that does not fit the output.
    InvalidStringLength,
}

/// `hex::decode` of the `hex` crate: the bytes that the text's pairs of
/// hexadecimal digits (either case) spell; an odd length is refused first,
/// then the first byte that is not a digit, with its position.
#[verifier::external_body]
fn hex_decode(s: &str) -> (r: Result<Vec<u8>, HexError>)
    ensures
        match r {
            Ok(v) => vstd::utf8::encode_utf8(s@).len() % 2 == 0 && first_non_hex(vstd::utf8::encode_utf8(s@), 0) is None
                && v@ == hex_bytes(vstd::utf8::encode_utf8(s@)),
            Err(HexError::OddLength) => vstd::utf8::encode_utf8(s@).len() % 2 == 1,
            Err(HexError::InvalidHexCharacter { c, index }) => vstd::utf8::encode_utf8(s@).len() % 2 == 0
                && first_non_hex(vstd::utf8::encode_utf8(s@), 0) == Some(index as int) && c == (
            vstd::utf8::encode_utf8(s@)[index as int] as char),
            Err(HexError::InvalidStringLength) => false,
        },
{
    match hex::decode(s) {
        Ok(v) => Ok(v),
        Err(hex::FromHexError::InvalidHexCharacter { c, index }) => Err(
            HexError::InvalidHexCharacter { c, index },
        ),
        Err(hex::FromHexError::OddLength) => Err(HexError::OddLength),
        Err(hex::FromHexError::InvalidStringLength) => Err(HexError::InvalidStringLength),
    }
}

/// What `{:?}` prints for a character: quoted, special characters escaped.
pub uninterp spec fn char_debug(c: char) -> Seq<char>;

/// `format!("{:?}", c)` for a character, named by `char_debug`.
#[verifier::external_body]
fn debug_char(c: char) -> (r: String)
    ensures
        r@ == char_debug(c),
{
    format!("{:?}", c)
}

/// The message of a decoding error.
pub open spec fn hex_error_text(e: HexError) -> Seq<char> {
    match e {
        HexError::InvalidHexCharacter { c, index } => "Invalid character "@ + char_debug(c)
            + " at position "@ + crate::text::dec_digits(index as nat),
        HexError::OddLength => "Odd number of digits"@,
        HexError::InvalidStringLength => "Invalid string length"@,
    }
}

impl HexError {
    /// The message of this error.
    pub fn to_string(&self) -> (r: String)
        ensures
            r@ == hex_error_text(*self),
    {
        match self {
            HexError::InvalidHexCharacter { c, index } => {
                let mut m = string_from("Invalid character ");
                let q = debug_char(*c);
                push_str(&mut m, q.as_str());
                push_str(&mut m, " at position ");
                crate::text::push_u128(&mut m, *index as u128);
                m
            },
            HexError::OddLength => string_from("Odd number of digits"),
            HexError::InvalidStringLength => string_from("Invalid string length"),
        }
    }
}

/// Hexadecimal text without a leading `0x`.
pub open spec fn without_0x(bin: Seq<char>) -> Seq<char> {
    if crate::text::has_prefix(bin, "0x"@) {
        bin.subrange(2, bin.len() as int)
    } else {
        bin
    }
}

/// What decoding creation bytecode text yields: the bytes, or the message
/// for empty text or text that is not hexadecimal.
pub open spec fn bytecode_outcome(bin: Seq<char>) -> Result<Seq<u8>, Seq<char>> {
    let d = without_0x(bin);
    let b = vstd::utf8::encode_utf8(d);
    if d.len() == 0 {
        Err("empty bytecode — is this an interface/abstract contract?"@)
    } else if b.len() % 2 == 1 {
        Err("invalid hex in solc bytecode output: "@ + hex_error_text(HexError::OddLength))
    } else {
        match first_non_hex(b, 0) {
            Some(i) => Err(
                "invalid hex in solc bytecode output: "@ + hex_error_text(
                    HexError::InvalidHexCharacter { c: b[i] as char, index: i as usize },
                ),
            ),
            None => Ok(hex_bytes(b)),
        }
    }
}

/// Decodes a compiler's `bin` field, hexadecimal creation bytecode with or
/// without a `0x` prefix, into bytes.
pub fn parse_bytecode(bin: &str) -> (r: Result<Vec<u8>, String>)
    ensures
        match r {
            Ok(v) => bytecode_outcome(bin@) == Ok::<Seq<u8>, Seq<char>>(v@),
            Err(m) => bytecode_outcome(bin@) == Err::<Seq<u8>, Seq<char>>(m@),
        },
{
    let digits = if str_starts_with(bin, "0x") {
        let cs = crate::text::chars_of(bin);
        proof {
            reveal_strlit("0x");
        }
        crate::text::span_text(&cs, 2, cs.len())
    } else {
        string_from(bin)
    };
    if digits.as_str().is_empty() {
        return Err(string_from("empty bytecode — is this an interface/abstract contract?"));
    }
    match hex_decode(digits.as_str()) {
        Ok(v) => Ok(v),
        Err(e) => {
            let mut m = string_from("invalid hex in solc bytecode output: ");
            let t = e.to_string();
            push_str(&mut m, t.as_str());
            Err(m)
        },
    }
}

/// A compiled contract: its creation bytecode and the functions it can be
/// called through.
pub struct CompiledContract {
    /// Creation bytecode.
    pub init_code: Vec<u8>,
    /// Callable functions.
    pub functions: Vec<FunctionSpec>,
}

// ---------------------------------------------------------------------------
// Well-known surfaces
// ---------------------------------------------------------------------------
/// `f` is the well-known function `name` with these parameter types and
/// kinds, mutating or not, not payable.
pub open spec fn well_known(
    f: FunctionSpec,
    name: Seq<char>,
    types: Seq<Seq<char>>,
    kinds: Seq<ParamKind>,
    mutates: bool,
) -> bool {
    &&& f.name@ == name
    &&& f.selector@ == selector_of(name, types)
    &&& f.inputs@ == kinds
    &&& f.mutates_state == mutates
    &&& !f.payable
}

/// The ERC20 read surface: `totalSupply()`, `balanceOf(address)` and
/// `decimals()`.
pub fn erc20_probe_functions() -> (r: Vec<FunctionSpec>)
    ensures
        r@.len() == 3,
        well_known(r@[0], "totalSupply"@, seq![], seq![], false),
        well_known(r@[1], "balanceOf"@, seq!["address"@], seq![ParamKind::Address], false),
        well_known(r@[2], "decimals"@, seq![], seq![], false),
{
    let none: [&str; 0] = [];
    let addr: [&str; 1] = ["address"];
    assert(str_views(none@) =~= Seq::<Seq<char>>::empty());
    assert(str_views(addr@) =~= seq!["address"@]);
    let a = FunctionSpec::new("totalSupply", selector_for("totalSupply", &none), vec![], false);
    let b = FunctionSpec::new(
        "balanceOf",
        selector_for("balanceOf", &addr),
        vec![ParamKind::Address],
        false,
    );
    let c = FunctionSpec::new("decimals", selector_for("decimals", &none), vec![], false);
    assert(a.inputs@ =~= Seq::<ParamKind>::empty());
    assert(b.inputs@ =~= seq![ParamKind::Address]);
    assert(c.inputs@ =~= Seq::<ParamKind>::empty());
    vec![a, b, c]
}

/// The ERC20 mutating surface: `transfer(address,uint256)`,
/// `approve(address,uint256)` and `transferFrom(address,address,uint256)`.
pub fn erc20_mutator_functions() -> (r: Vec<FunctionSpec>)
    ensures
        r@.len() == 3,
        well_known(
            r@[0],
            "transfer"@,
            seq!["address"@, "uint256"@],
            seq![ParamKind::Address, ParamKind::Uint256],
            true,
        ),
        well_known(
            r@[1],
            "approve"@,
            seq!["address"@, "uint256"@],
            seq![ParamKind::Address, ParamKind::Uint256],
            true,
        ),
        well_known(
            r@[2],
            "transferFrom"@,
            seq!["address"@, "address"@, "uint256"@],
            seq![ParamKind::Address, ParamKind::Address, ParamKind::Uint256],
            true,
        ),
{
    let two: [&str; 2] = ["address", "uint256"];
    let three: [&str; 3] = ["address", "address", "uint256"];
    assert(str_views(two@) =~= seq!["address"@, "uint256"@]);
    assert(str_views(three@) =~= seq!["address"@, "address"@, "uint256"@]);
    let a = FunctionSpec::new(
        "transfer",
        selector_for("transfer", &two),
        vec![ParamKind::Address, ParamKind::Uint256],
        true,
    );
    let b = FunctionSpec::new(
        "approve",
        selector_for("approve", &two),
        vec![ParamKind::Address, ParamKind::Uint256],
        true,
    );
    let c = FunctionSpec::new(
        "transferFrom",
        selector_for("transferFrom", &three),
        vec![ParamKind::Address, ParamKind::Address, ParamKind::Uint256],
        true,
    );
    assert(a.inputs@ =~= seq![ParamKind::Address, ParamKind::Uint256]);
    assert(b.inputs@ =~= seq![ParamKind::Address, ParamKind::Uint256]);
    assert(c.inputs@ =~= seq![ParamKind::Address, ParamKind::Address, ParamKind::Uint256]);
    vec![a, b, c]
}

/// The Ownable read surface: `owner()`.
pub fn ownable_probe_functions() -> (r: Vec<FunctionSpec>)
    ensures
        r@.len() == 1,
        well_known(r@[0], "owner"@, seq![], seq![], false),
{
    let none: [&str; 0] = [];
    assert(str_views(none@) =~= Seq::<Seq<char>>::empty());
    let a = FunctionSpec::new("owner", selector_for("owner", &none), vec![], false);
    assert(a.inputs@ =~= Seq::<ParamKind>::empty());
    vec![a]
}

/// The Ownable mutating surface: `transferOwnership(address)`.
pub fn ownable_mutator_functions() -> (r: Vec<FunctionSpec>)
    ensures
        r@.len() == 1,
        well_known(r@[0], "transferOwnership"@, seq!["address"@], seq![ParamKind::Address], true),
{
    let addr: [&str; 1] = ["address"];
    assert(str_views(addr@) =~= seq!["address"@]);
    let a = FunctionSpec::new(
        "transferOwnership",
        selector_for("transferOwnership", &addr),
        vec![ParamKind::Address],
        true,
    );
    assert(a.inputs@ =~= seq![ParamKind::Address]);
    vec![a]
}

/// What parsing an EVM address comes to: the twenty bytes its hexadecimal
/// digits spell, with or without `0x`; or the message for text that is not
/// hexadecimal or does not spell twenty bytes.
pub open spec fn address_outcome(s: Seq<char>) -> Result<Seq<u8>, Seq<char>> {
    let b = vstd::utf8::encode_utf8(without_0x(s));
    let head = "invalid address '"@ + s + "': "@;
    if b.len() % 2 == 1 {
        Err(head + hex_error_text(HexError::OddLength))
    } else {
        match first_non_hex(b, 0) {
            Some(i) => Err(
                head + hex_error_text(
                    HexError::InvalidHexCharacter { c: b[i] as char, index: i as usize },
                ),
            ),
            None => if hex_bytes(b).len() != 20 {
                Err(head + "expected 20 bytes, got "@ + crate::text::dec_digits(hex_bytes(b).len()))
            } else {
                Ok(hex_bytes(b))
            },
        }
    }
}

/// Parses a `0x`-prefixed (or bare) 40-digit hexadecimal EVM address.
pub fn parse_evm_address(s: &str) -> (r: Result<[u8; 20], String>)
    ensures
        match r {
            Ok(a) => address_outcome(s@) == Ok::<Seq<u8>, Seq<char>>(a@),
            Err(m) => address_outcome(s@) == Err::<Seq<u8>, Seq<char>>(m@),
        },
{
    let digits = if str_starts_with(s, "0x") {
        let cs = crate::text::chars_of(s);
        proof {
            reveal_strlit("0x");
        }
        crate::text::span_text(&cs, 2, cs.len())
    } else {
        string_from(s)
    };
    match hex_decode(digits.as_str()) {
        Err(e) => {
            let mut m = string_from("invalid address '");
            push_str(&mut m, s);
            push_str(&mut m, "': ");
            let t = e.to_string();
            push_str(&mut m, t.as_str());
            Err(m)
        },
        Ok(bytes) => {
            if bytes.len() != 20 {
                let mut m = string_from("invalid address '");
                push_str(&mut m, s);
                push_str(&mut m, "': ");
                push_str(&mut m, "expected 20 bytes, got ");
                crate::text::push_u128(&mut m, bytes.len() as u128);
                return Err(m);
            }
            let mut out: [u8; 20] = [0u8; 20];
            let mut i: usize = 0;
            while i < 20
                invariant
                    i <= 20,
                    bytes@.len() == 20,
                    out@.len() == 20,
                    forall|j: int| 0 <= j < i ==> #[trigger] out@[j] == bytes@[j],
                decreases 20 - i,
            {
                out[i] = bytes[i];
                i = i + 1;
            }
            assert(out@ =~= bytes@);
            Ok(out)
        },
    }
}

} // verus!
