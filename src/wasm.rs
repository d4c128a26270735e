//! Embedding signed claims in a WebAssembly module, as a custom section named
//! `jwt`, and extracting and verifying them.
//!
//! A module is parsed and written back by parity-wasm. Its custom sections are
//! modelled as a sequence of (name, payload) pairs, in module order. The
//! canonical hash of a module is the upper-case hexadecimal SHA-256 of the
//! module written back without any `jwt` section.

use crate::dates::{days_from_now, days_from_now_to_jwt_time, fits_after};
use crate::errors::ErrorKind;
use crate::keys::{public_key, public_key_of};
use crate::hash::{hash_hex, hex_upper, is_upper_hex, sha256_of};
use crate::jwt::{strings_view, Claims, ClaimsView, Token};
use vstd::prelude::*;
use vstd::slice::slice_to_vec;
use vstd::utf8::{decode_utf8, encode_utf8, valid_utf8};

verus! {

/// The name of the custom section that carries the token.
pub const SECTION_NAME: &'static str = "jwt";

/// `SECTION_NAME` as characters.
pub open spec fn section_name() -> Seq<char> {
    seq!['j', 'w', 't']
}

#[verifier::external_type_specification]
#[verifier::external_body]
pub struct ExModule(parity_wasm::elements::Module);

#[verifier::external_type_specification]
#[verifier::external_body]
pub struct ExWasmError(parity_wasm::elements::Error);

#[verifier::external_type_specification]
#[verifier::external_body]
pub struct ExFromUtf8Error(std::string::FromUtf8Error);


/// The custom sections of a module, in order, as (name, payload).
pub uninterp spec fn custom_sections(m: parity_wasm::elements::Module) -> Seq<(Seq<char>, Seq<u8>)>;

/// The bytes that a module is written as.
pub uninterp spec fn module_image(m: parity_wasm::elements::Module) -> Seq<u8>;

/// Whether a module can be written as bytes.
pub uninterp spec fn serializes(m: parity_wasm::elements::Module) -> bool;

/// The module that `b` parses to, or `None` where `b` is not a well-formed
/// module.
pub uninterp spec fn parsed_module(b: Seq<u8>) -> Option<parity_wasm::elements::Module>;

/// `m` with its first custom section named `name` removed, if it has one.
pub uninterp spec fn cleared(m: parity_wasm::elements::Module, name: Seq<char>) -> parity_wasm::elements::Module;

/// `m` with the custom section `name` set to `payload`: the first such
/// section replaced, or one appended where there is none.
pub uninterp spec fn with_custom(
    m: parity_wasm::elements::Module,
    name: Seq<char>,
    payload: Seq<u8>,
) -> parity_wasm::elements::Module;

/// Owned (name, payload) pairs as plain values.
pub open spec fn sections_view(v: Seq<(String, Vec<u8>)>) -> Seq<(Seq<char>, Seq<u8>)> {
    v.map_values(|s: (String, Vec<u8>)| (s.0@, s.1@))
}

/// Whether some section of `cs` is named `name`.
pub open spec fn has_named(cs: Seq<(Seq<char>, Seq<u8>)>, name: Seq<char>) -> bool {
    exists|i: int| 0 <= i < cs.len() && (#[trigger] cs[i]).0 == name
}

/// Whether `i` is the first section of `cs` named `name`.
pub open spec fn is_first_named(cs: Seq<(Seq<char>, Seq<u8>)>, name: Seq<char>, i: int) -> bool {
    &&& 0 <= i < cs.len()
    &&& cs[i].0 == name
    &&& forall|j: int| 0 <= j < i ==> (#[trigger] cs[j]).0 != name
}

/// The index of the first section of `cs` named `name`, where there is one.
pub open spec fn first_named(cs: Seq<(Seq<char>, Seq<u8>)>, name: Seq<char>) -> int {
    choose|i: int| is_first_named(cs, name, i)
}

/// How many sections of `cs` are named `name`.
pub open spec fn count_named(cs: Seq<(Seq<char>, Seq<u8>)>, name: Seq<char>) -> nat
    decreases cs.len(),
{
    if cs.len() == 0 {
        0
    } else {
        count_named(cs.drop_last(), name) + if cs.last().0 == name {
            1nat
        } else {
            0nat
        }
    }
}

/// `cs` without the sections named `name`, the others in their order.
pub open spec fn without_named(cs: Seq<(Seq<char>, Seq<u8>)>, name: Seq<char>) -> Seq<
    (Seq<char>, Seq<u8>),
>
    decreases cs.len(),
{
    if cs.len() == 0 {
        cs
    } else {
        let rest = without_named(cs.drop_last(), name);
        if cs.last().0 == name {
            rest
        } else {
            rest.push(cs.last())
        }
    }
}

/// `m` after its first section named `name` has been removed `n` times.
pub open spec fn cleared_times(m: parity_wasm::elements::Module, name: Seq<char>, n: nat) -> parity_wasm::elements::Module
    decreases n,
{
    if n == 0 {
        m
    } else {
        cleared(cleared_times(m, name, (n - 1) as nat), name)
    }
}

/// `m` without any custom section named `name`: one removal for each.
pub open spec fn stripped(m: parity_wasm::elements::Module, name: Seq<char>) -> parity_wasm::elements::Module {
    cleared_times(m, name, count_named(custom_sections(m), name))
}

/// The canonical hash of `m`: the upper-case hexadecimal SHA-256 of `m`
/// written without its `jwt` sections.
pub open spec fn canonical_hash(m: parity_wasm::elements::Module) -> Seq<char> {
    hex_upper(sha256_of(module_image(stripped(m, section_name()))))
}

/// `m` with its `jwt` sections replaced by one that holds `token` in UTF-8.
pub open spec fn embedded(m: parity_wasm::elements::Module, token: Seq<char>) -> parity_wasm::elements::Module {
    with_custom(stripped(m, section_name()), section_name(), encode_utf8(token))
}

/// Relies on parity_wasm::deserialize_buffer: it parses all of `b` as a
/// module, or fails, as a function of the bytes alone.
#[verifier::external_body]
fn parse_module(b: &[u8]) -> (r: Result<parity_wasm::elements::Module, parity_wasm::elements::Error>)
    ensures
        r is Ok <==> parsed_module(b@) is Some,
        r is Ok ==> r->Ok_0 == parsed_module(b@)->0,
{
    parity_wasm::deserialize_buffer(b)
}

/// Relies on parity_wasm::serialize: it succeeds or fails as a function of
/// the module alone, and on success gives the bytes of the module.
#[verifier::external_body]
fn serialize_module(m: parity_wasm::elements::Module) -> (r: Result<Vec<u8>, parity_wasm::elements::Error>)
    ensures
        r is Ok <==> serializes(m),
        r is Ok ==> r->Ok_0@ == module_image(m),
{
    parity_wasm::serialize(m)
}

/// Relies on parity_wasm's Module::custom_sections: the custom sections in
/// module order, each as its name and payload.
#[verifier::external_body]
fn custom_sections_of(m: &parity_wasm::elements::Module) -> (r: Vec<(String, Vec<u8>)>)
    ensures
        sections_view(r@) == custom_sections(*m),
{
    m.custom_sections().map(|s| (s.name().to_string(), s.payload().to_vec())).collect()
}

/// Relies on parity_wasm's Module::clear_custom_section: it removes the first
/// custom section named `name`, if there is one, leaves the other sections as
/// they were, and tells whether it removed one.
#[verifier::external_body]
fn clear_custom_section(m: &mut parity_wasm::elements::Module, name: &str) -> (removed: bool)
    ensures
        *final(m) == cleared(*old(m), name@),
        removed == has_named(custom_sections(*old(m)), name@),
        !removed ==> *final(m) == *old(m),
        forall|i: int|
            is_first_named(custom_sections(*old(m)), name@, i) ==> custom_sections(*final(m))
                == custom_sections(*old(m)).remove(i),
{
    m.clear_custom_section(name).is_some()
}

/// Relies on parity_wasm's Module::set_custom_section: it replaces the payload
/// of the first custom section named `name`, or, where there is none, appends
/// a section as the last one, which removing the first section named `name`
/// takes off again.
#[verifier::external_body]
fn set_custom_section(m: &mut parity_wasm::elements::Module, name: String, payload: Vec<u8>)
    ensures
        *final(m) == with_custom(*old(m), name@, payload@),
        !has_named(custom_sections(*old(m)), name@) ==> custom_sections(*final(m))
            == custom_sections(*old(m)).push((name@, payload@)),
        !has_named(custom_sections(*old(m)), name@) ==> cleared(*final(m), name@) == *old(m),
        forall|i: int|
            is_first_named(custom_sections(*old(m)), name@, i) ==> custom_sections(*final(m))
                == custom_sections(*old(m)).update(i, (name@, payload@)),
{
    m.set_custom_section(name, payload)
}

/// Relies on String::from_utf8: the text that `b` encodes, where `b` is valid
/// UTF-8.
#[verifier::external_body]
fn utf8_to_string(b: Vec<u8>) -> (r: Result<String, std::string::FromUtf8Error>)
    ensures
        r is Ok <==> valid_utf8(b@),
        r is Ok ==> r->Ok_0@ == decode_utf8(b@),
{
    String::from_utf8(b)
}

/// Removing a section named `name` leaves `without_named` as it was.
proof fn lemma_without_named_remove(cs: Seq<(Seq<char>, Seq<u8>)>, name: Seq<char>, i: int)
    requires
        0 <= i < cs.len(),
        cs[i].0 == name,
    ensures
        without_named(cs.remove(i), name) == without_named(cs, name),
    decreases cs.len(),
{
    if i == cs.len() - 1 {
        assert(cs.remove(i) =~= cs.drop_last());
    } else {
        let r = cs.remove(i);
        assert(r.drop_last() =~= cs.drop_last().remove(i));
        assert(r.last() == cs.last());
        lemma_without_named_remove(cs.drop_last(), name, i);
    }
}

/// Where no section is named `name`, `without_named` keeps them all.
proof fn lemma_without_named_none(cs: Seq<(Seq<char>, Seq<u8>)>, name: Seq<char>)
    requires
        !has_named(cs, name),
    ensures
        without_named(cs, name) == cs,
    decreases cs.len(),
{
    if cs.len() > 0 {
        let d = cs.drop_last();
        assert(!has_named(d, name)) by {
            if has_named(d, name) {
                let j = choose|j: int| 0 <= j < d.len() && (#[trigger] d[j]).0 == name;
                assert(cs[j] == d[j]);
            }
        }
        lemma_without_named_none(d, name);
        assert(cs.last() == cs[cs.len() - 1]);
        assert(d.push(cs.last()) =~= cs);
    }
}

/// No section of `without_named(cs, name)` is named `name`.
proof fn lemma_without_named_has_none(cs: Seq<(Seq<char>, Seq<u8>)>, name: Seq<char>)
    ensures
        !has_named(without_named(cs, name), name),
    decreases cs.len(),
{
    if cs.len() > 0 {
        lemma_without_named_has_none(cs.drop_last(), name);
        let rest = without_named(cs.drop_last(), name);
        if cs.last().0 != name {
            let w = rest.push(cs.last());
            if has_named(w, name) {
                let j = choose|j: int| 0 <= j < w.len() && (#[trigger] w[j]).0 == name;
                if j < rest.len() {
                    assert(w[j] == rest[j]);
                }
            }
        }
    }
}

/// The index of the first section of `sections` named `name`, if any.
pub fn find_section(sections: &Vec<(String, Vec<u8>)>, name: &str) -> (r: Option<usize>)
    ensures
        r is None <==> !has_named(sections_view(sections@), name@),
        r is Some ==> is_first_named(sections_view(sections@), name@, r->0 as int),
{
    let target = name.to_owned();
    let ghost cs = sections_view(sections@);
    let mut i: usize = 0;
    while i < sections.len()
        invariant
            i <= sections@.len(),
            cs == sections_view(sections@),
            target@ == name@,
            forall|j: int| 0 <= j < i ==> (#[trigger] cs[j]).0 != name@,
        decreases sections@.len() - i,
    {
        if sections[i].0 == target {
            assert(cs[i as int].0 == name@);
            return Some(i);
        }
        i = i + 1;
    }
    assert(!has_named(cs, name@)) by {
        if has_named(cs, name@) {
            let j = choose|j: int| 0 <= j < cs.len() && (#[trigger] cs[j]).0 == name@;
        }
    }
    None
}

/// The payload of the first custom section of `m` named `name`, if any.
pub fn custom_section(m: &parity_wasm::elements::Module, name: &str) -> (r: Option<Vec<u8>>)
    ensures
        r is None <==> !has_named(custom_sections(*m), name@),
        forall|i: int|
            is_first_named(custom_sections(*m), name@, i) ==> r is Some && r->0@ == custom_sections(
                *m,
            )[i].1,
{
    let sections = custom_sections_of(m);
    let ghost cs = custom_sections(*m);
    match find_section(&sections, name) {
        None => None,
        Some(i) => {
            proof {
                assert forall|k: int| is_first_named(cs, name@, k) implies k == i by {
                    if k < i {
                        assert(cs[k].0 != name@);
                    } else if k > i {
                        assert(cs[i as int].0 != name@);
                    }
                }
            }
            let payload = slice_to_vec(sections[i].1.as_slice());
            assert(payload@ == cs[i as int].1);
            Some(payload)
        },
    }
}

/// The first index at or before `i` of a section named `name`, where `i` is one.
proof fn first_index(cs: Seq<(Seq<char>, Seq<u8>)>, name: Seq<char>, i: int) -> (k: int)
    requires
        0 <= i < cs.len(),
        cs[i].0 == name,
    ensures
        is_first_named(cs, name, k),
    decreases i,
{
    if exists|j: int| 0 <= j < i && (#[trigger] cs[j]).0 == name {
        let j = choose|j: int| 0 <= j < i && (#[trigger] cs[j]).0 == name;
        first_index(cs, name, j)
    } else {
        i
    }
}

/// Removing a section named `name` takes one off their count.
proof fn lemma_count_remove(cs: Seq<(Seq<char>, Seq<u8>)>, name: Seq<char>, i: int)
    requires
        0 <= i < cs.len(),
        cs[i].0 == name,
    ensures
        count_named(cs.remove(i), name) + 1 == count_named(cs, name),
    decreases cs.len(),
{
    if i == cs.len() - 1 {
        assert(cs.remove(i) =~= cs.drop_last());
    } else {
        let r = cs.remove(i);
        assert(r.drop_last() =~= cs.drop_last().remove(i));
        assert(r.last() == cs.last());
        lemma_count_remove(cs.drop_last(), name, i);
    }
}

/// No section is named `name` exactly when their count is zero.
proof fn lemma_count_zero(cs: Seq<(Seq<char>, Seq<u8>)>, name: Seq<char>)
    ensures
        (count_named(cs, name) == 0) <==> !has_named(cs, name),
    decreases cs.len(),
{
    if cs.len() > 0 {
        let d = cs.drop_last();
        lemma_count_zero(d, name);
        if has_named(d, name) {
            let j = choose|j: int| 0 <= j < d.len() && (#[trigger] d[j]).0 == name;
            assert(cs[j] == d[j]);
        }
        if has_named(cs, name) && cs.last().0 != name {
            let j = choose|j: int| 0 <= j < cs.len() && (#[trigger] cs[j]).0 == name;
            assert(j < d.len());
            assert(d[j] == cs[j]);
        }
        assert(cs.last() == cs[cs.len() - 1]);
    }
}

/// Removes every custom section named `name`, keeping the others in order.
pub fn strip_custom_section(m: &mut parity_wasm::elements::Module, name: &str)
    ensures
        *final(m) == stripped(*old(m), name@),
        custom_sections(*final(m)) == without_named(custom_sections(*old(m)), name@),
        !has_named(custom_sections(*final(m)), name@),
{
    let ghost start = *m;
    let ghost mut k: nat = 0;
    loop
        invariant
            start == *old(m),
            *m == cleared_times(start, name@, k),
            count_named(custom_sections(*m), name@) + k == count_named(
                custom_sections(start),
                name@,
            ),
            without_named(custom_sections(*m), name@) == without_named(
                custom_sections(start),
                name@,
            ),
        ensures
            !has_named(custom_sections(*m), name@),
            *m == cleared_times(start, name@, k),
            count_named(custom_sections(*m), name@) + k == count_named(
                custom_sections(start),
                name@,
            ),
            without_named(custom_sections(*m), name@) == without_named(
                custom_sections(start),
                name@,
            ),
        decreases custom_sections(*m).len(),
    {
        let ghost before = custom_sections(*m);
        let removed = clear_custom_section(m, name);
        if !removed {
            break;
        }
        proof {
            let i = choose|i: int| 0 <= i < before.len() && (#[trigger] before[i]).0 == name@;
            let j = first_index(before, name@, i);
            lemma_without_named_remove(before, name@, j);
            lemma_count_remove(before, name@, j);
            k = k + 1;
        }
    }
    proof {
        lemma_count_zero(custom_sections(*m), name@);
        lemma_without_named_none(custom_sections(*m), name@);
    }
}

/// Replaces every custom section named `name` by one section with `payload`,
/// appended after the other sections.
pub fn replace_custom_section(m: &mut parity_wasm::elements::Module, name: &str, payload: Vec<u8>)
    ensures
        *final(m) == with_custom(stripped(*old(m), name@), name@, payload@),
        custom_sections(*final(m)) == without_named(custom_sections(*old(m)), name@).push(
            (name@, payload@),
        ),
        stripped(*final(m), name@) == stripped(*old(m), name@),
{
    strip_custom_section(m, name);
    let ghost s = *m;
    set_custom_section(m, name.to_owned(), payload);
    proof {
        lemma_count_zero(custom_sections(s), name@);
        let cs = custom_sections(*m);
        assert(cs.drop_last() =~= custom_sections(s));
        assert(count_named(cs, name@) == 1);
        assert(cleared_times(*m, name@, 1) == cleared(cleared_times(*m, name@, 0), name@));
    }
}

/// The canonical hash of `module`: the upper-case hexadecimal SHA-256 of the
/// module written without its `jwt` sections.
pub fn compute_hash_without_jwt(module: parity_wasm::elements::Module) -> (r: Result<
    String,
    ErrorKind,
>)
    ensures
        (r is Ok) <==> serializes(stripped(module, section_name())),
        r is Ok ==> r->Ok_0@ == canonical_hash(module) && r->Ok_0@.len() == 64 && is_upper_hex(
            r->Ok_0@,
        ),
        r is Err ==> r == Err::<String, ErrorKind>(ErrorKind::Serialization),
{
    let mut stripped_module = module;
    proof {
        reveal_strlit("jwt");
        assert(SECTION_NAME@ =~= section_name());
    }
    strip_custom_section(&mut stripped_module, SECTION_NAME);
    match serialize_module(stripped_module) {
        Ok(bytes) => Ok(hash_hex(bytes.as_slice())),
        Err(_) => Err(ErrorKind::Serialization),
    }
}

/// The text that UTF-8 bytes encode.
pub open spec fn text_of(b: Seq<u8>) -> Seq<char> {
    decode_utf8(b)
}

/// Whether `decode`, given a string with the characters `text`, may return
/// `out`.
pub open spec fn decodes_to<F: Fn(String) -> Option<Claims>>(
    decode: F,
    text: Seq<char>,
    out: Option<Claims>,
) -> bool {
    exists|s: String| s@ == text && #[trigger] decode.ensures((s,), out)
}

/// The outcome of checking a decoded token against the module's canonical
/// hash: no claims is a decoding failure; claims that declare another hash
/// are `InvalidModuleHash`; otherwise the token.
pub fn check_claims(jwt: String, decoded: Option<Claims>, hash: String) -> (r: Result<
    Option<Token>,
    ErrorKind,
>)
    ensures
        decoded is None ==> r == Err::<Option<Token>, ErrorKind>(ErrorKind::TokenDecode),
        decoded is Some && decoded->0.module_hash@ != hash@ ==> r == Err::<
            Option<Token>,
            ErrorKind,
        >(ErrorKind::InvalidModuleHash),
        decoded is Some && decoded->0.module_hash@ == hash@ ==> r == Ok::<
            Option<Token>,
            ErrorKind,
        >(Some(Token { jwt: jwt, claims: decoded->0 })),
{
    match decoded {
        None => Err(ErrorKind::TokenDecode),
        Some(claims) => {
            if claims.module_hash == hash {
                Ok(Some(Token { jwt, claims }))
            } else {
                Err(ErrorKind::InvalidModuleHash)
            }
        },
    }
}


/// What extracting from `contents` with `decode` may return.
///
/// A module without a `jwt` section holds no token. Otherwise the first `jwt`
/// section must hold UTF-8 text, the module without its `jwt` sections must
/// be writable, `decode` must accept the text, and the claims must declare
/// the module's canonical hash.
pub open spec fn extract_outcome<F: Fn(String) -> Option<Claims>>(
    contents: Seq<u8>,
    decode: F,
    r: Result<Option<Token>, ErrorKind>,
) -> bool {
    match parsed_module(contents) {
        None => r == Err::<Option<Token>, ErrorKind>(ErrorKind::Parse),
        Some(m) => {
            let cs = custom_sections(m);
            if !has_named(cs, section_name()) {
                r == Ok::<Option<Token>, ErrorKind>(None)
            } else {
                let p = cs[first_named(cs, section_name())].1;
                let text = text_of(p);
                let h = canonical_hash(m);
                if !valid_utf8(p) {
                    r == Err::<Option<Token>, ErrorKind>(ErrorKind::Encoding)
                } else if !serializes(stripped(m, section_name())) {
                    r == Err::<Option<Token>, ErrorKind>(ErrorKind::Serialization)
                } else {
                    &&& h.len() == 64 && is_upper_hex(h)
                    &&& r is Ok || r == Err::<Option<Token>, ErrorKind>(ErrorKind::TokenDecode)
                        || r == Err::<Option<Token>, ErrorKind>(ErrorKind::InvalidModuleHash)
                    &&& r == Err::<Option<Token>, ErrorKind>(ErrorKind::TokenDecode) ==> decodes_to(
                        decode,
                        text,
                        None,
                    )
                    &&& r == Err::<Option<Token>, ErrorKind>(ErrorKind::InvalidModuleHash) ==> exists|
                        c: Claims,
                    |
                        #[trigger] decodes_to(decode, text, Some(c)) && c.module_hash@ != h
                    &&& r is Ok ==> {
                        &&& r->Ok_0 is Some
                        &&& r->Ok_0->0.jwt@ == text
                        &&& decodes_to(decode, text, Some(r->Ok_0->0.claims))
                        &&& r->Ok_0->0.claims.module_hash@ == h
                    }
                }
            }
        },
    }
}

/// Extracts the claims embedded in the module `contents`, decoding the token
/// with `decode`, which returns `None` for a malformed token or one whose
/// signature does not verify.
pub fn extract_claims<F: Fn(String) -> Option<Claims>>(contents: &[u8], decode: F) -> (r: Result<
    Option<Token>,
    ErrorKind,
>)
    requires
        forall|s: String| decode.requires((s,)),
    ensures
        extract_outcome(contents@, decode, r),
{
    let module = match parse_module(contents) {
        Ok(m) => m,
        Err(_) => return Err(ErrorKind::Parse),
    };
    let ghost m = module;
    let ghost cs = custom_sections(module);
    proof {
        reveal_strlit("jwt");
        assert(SECTION_NAME@ =~= section_name());
    }
    match custom_section(&module, SECTION_NAME) {
        None => Ok(None),
        Some(payload) => {
            proof {
                let j = choose|j: int| 0 <= j < cs.len() && (#[trigger] cs[j]).0 == section_name();
                let k = first_index(cs, section_name(), j);
                assert(is_first_named(cs, section_name(), first_named(cs, section_name())));
            }
            let ghost p = cs[first_named(cs, section_name())].1;
            assert(payload@ == p);
            let jwt = match utf8_to_string(payload) {
                Ok(s) => s,
                Err(_) => return Err(ErrorKind::Encoding),
            };
            let arg = jwt.clone();
            let decoded = decode(arg);
            assert(decodes_to(decode, jwt@, decoded));
            let hash = match compute_hash_without_jwt(module) {
                Ok(h) => h,
                Err(e) => return Err(e),
            };
            let ghost d = decoded;
            let r = check_claims(jwt, decoded, hash);
            proof {
                assert(jwt@ == text_of(p));
                assert(hash@ == canonical_hash(m));
                if d is Some {
                    assert(decodes_to(decode, jwt@, Some(d->0)));
                }
            }
            r
        },
    }
}

/// Whether `e`, the module `m` with `token` embedded, has the sections of
/// `m` but for its `jwt` sections, then one that holds `token`; the same
/// canonical form as `m`; and whether `r` is what writing it gives.
pub open spec fn is_embedding_of(
    m: parity_wasm::elements::Module,
    token: Seq<char>,
    r: Result<Vec<u8>, ErrorKind>,
) -> bool {
    let e = embedded(m, token);
    &&& custom_sections(e) == without_named(custom_sections(m), section_name()).push(
        (section_name(), encode_utf8(token)),
    )
    &&& stripped(e, section_name()) == stripped(m, section_name())
    &&& if serializes(e) {
        r is Ok && r->Ok_0@ == module_image(e)
    } else {
        r == Err::<Vec<u8>, ErrorKind>(ErrorKind::Serialization)
    }
}

/// Whether `r` follows from handing `signed` to `encode` and embedding the
/// token it gives in `m`.
pub open spec fn signs_and_embeds<F: Fn(Claims) -> Option<String>>(
    m: parity_wasm::elements::Module,
    encode: F,
    signed: Claims,
    r: Result<Vec<u8>, ErrorKind>,
) -> bool {
    ||| encode.ensures((signed,), None) && r == Err::<Vec<u8>, ErrorKind>(ErrorKind::Signing)
    ||| exists|token: String|
        #[trigger] encode.ensures((signed,), Some(token)) && is_embedding_of(m, token@, r)
}

/// What embedding `claims` in `orig` with `encode` may return: the claims,
/// given the canonical hash of the parsed module as their module hash, are
/// signed once, and the token replaces the module's `jwt` sections.
pub open spec fn embed_outcome<F: Fn(Claims) -> Option<String>>(
    orig: Seq<u8>,
    claims: ClaimsView,
    encode: F,
    r: Result<Vec<u8>, ErrorKind>,
) -> bool {
    match parsed_module(orig) {
        None => r == Err::<Vec<u8>, ErrorKind>(ErrorKind::Parse),
        Some(m) => if !serializes(stripped(m, section_name())) {
            r == Err::<Vec<u8>, ErrorKind>(ErrorKind::Serialization)
        } else {
            let h = canonical_hash(m);
            &&& h.len() == 64 && is_upper_hex(h)
            &&& exists|signed: Claims|
                signed@ == (ClaimsView { module_hash: h, ..claims }) && #[trigger] signs_and_embeds(
                    m,
                    encode,
                    signed,
                    r,
                )
        },
    }
}

/// Embeds `claims` in the module `orig_bytecode`. The claims are given the
/// module's canonical hash and signed by `encode`, which returns `None` where
/// it cannot sign; the token replaces any `jwt` section of the module.
///
/// The hash is taken over the module as parity-wasm writes it back, not over
/// `orig_bytecode` itself, so the byte layout of the input does not matter.
pub fn embed_claims<F: Fn(Claims) -> Option<String>>(
    orig_bytecode: &[u8],
    claims: &Claims,
    encode: F,
) -> (r: Result<Vec<u8>, ErrorKind>)
    requires
        forall|c: Claims| encode.requires((c,)),
    ensures
        embed_outcome(orig_bytecode@, claims@, encode, r),
{
    let module = match parse_module(orig_bytecode) {
        Ok(m) => m,
        Err(_) => return Err(ErrorKind::Parse),
    };
    let ghost m = module;
    let hash = match compute_hash_without_jwt(module) {
        Ok(h) => h,
        Err(e) => return Err(e),
    };
    let signed = claims.with_module_hash(hash);
    let ghost sg = signed;
    let token = match encode(signed) {
        Some(t) => t,
        None => {
            assert(signs_and_embeds(m, encode, sg, Err(ErrorKind::Signing)));
            return Err(ErrorKind::Signing);
        },
    };
    let payload = slice_to_vec(token.as_str().as_bytes());
    let mut target = match parse_module(orig_bytecode) {
        Ok(m) => m,
        Err(_) => return Err(ErrorKind::Parse),
    };
    proof {
        reveal_strlit("jwt");
        assert(SECTION_NAME@ =~= section_name());
    }
    replace_custom_section(&mut target, SECTION_NAME, payload);
    assert(target == embedded(m, token@));
    let r = match serialize_module(target) {
        Ok(bytes) => Ok(bytes),
        Err(_) => Err(ErrorKind::Serialization),
    };
    assert(is_embedding_of(m, token@, r));
    assert(signs_and_embeds(m, encode, sg, r));
    r
}

/// Embeds in `buf` claims that `acct_kp` issues about the module key
/// `mod_kp`, with capabilities `caps` and tags `tags`, issued at `now` under
/// the identifier `id`. A not-before and an expiry given in days count from
/// `now`.
pub fn sign_buffer_with_claims<F: Fn(Claims) -> Option<String>>(
    buf: &[u8],
    mod_kp: &nkeys::KeyPair,
    acct_kp: &nkeys::KeyPair,
    expires_in_days: Option<u64>,
    not_before_days: Option<u64>,
    caps: Vec<String>,
    tags: Vec<String>,
    now: u64,
    id: String,
    encode: F,
) -> (r: Result<Vec<u8>, ErrorKind>)
    requires
        fits_after(now, expires_in_days),
        fits_after(now, not_before_days),
        forall|c: Claims| encode.requires((c,)),
    ensures
        embed_outcome(
            buf@,
            ClaimsView {
                module_hash: Seq::empty(),
                expires: days_from_now(expires_in_days, now),
                id: id@,
                issued_at: now,
                issuer: public_key_of(*acct_kp),
                subject: public_key_of(*mod_kp),
                not_before: days_from_now(not_before_days, now),
                tags: Some(strings_view(tags@)),
                caps: Some(strings_view(caps@)),
            },
            encode,
            r,
        ),
{
    let claims = Claims::with_dates(
        public_key(acct_kp),
        public_key(mod_kp),
        Some(caps),
        Some(tags),
        days_from_now_to_jwt_time(not_before_days, now),
        days_from_now_to_jwt_time(expires_in_days, now),
        now,
        id,
    );
    assert(claims@.module_hash =~= Seq::<char>::empty());
    embed_claims(buf, &claims, encode)
}

/// The first `jwt` section of an embedding is the new one, and its payload
/// is valid UTF-8 that reads back as the token.
proof fn lemma_embedded_token_readable(cs: Seq<(Seq<char>, Seq<u8>)>, token: Seq<char>)
    ensures
        ({
            let e = without_named(cs, section_name()).push((section_name(), encode_utf8(token)));
            &&& has_named(e, section_name())
            &&& first_named(e, section_name()) == e.len() - 1
            &&& valid_utf8(e[e.len() - 1].1)
            &&& text_of(e[e.len() - 1].1) == token
        }),
{
    let w = without_named(cs, section_name());
    let e = w.push((section_name(), encode_utf8(token)));
    lemma_without_named_has_none(cs, section_name());
    assert forall|j: int| 0 <= j < e.len() - 1 implies (#[trigger] e[j]).0 != section_name() by {
        assert(e[j] == w[j]);
    }
    assert(e[e.len() - 1].0 == section_name());
    assert(is_first_named(e, section_name(), e.len() - 1));
    let f = first_named(e, section_name());
    if f != e.len() - 1 {
        assert(e[f].0 == section_name());
    }
    vstd::utf8::encode_utf8_valid_utf8(token);
    vstd::utf8::encode_utf8_decode_utf8(token);
}

/// Round trip: extracting from a module that embedding wrote returns a token
/// whose claims are the embedded claims, with the original module's
/// canonical hash (64 upper-case hexadecimal digits) as their module hash.
/// This holds where parity-wasm reads back each module that it writes, and
/// `decode` turns the text of each token that `encode` gives back into the
/// claims that were signed.
pub proof fn lemma_round_trip<E: Fn(Claims) -> Option<String>, D: Fn(String) -> Option<Claims>>(
    orig: Seq<u8>,
    claims: ClaimsView,
    encode: E,
    decode: D,
    out: Vec<u8>,
    r: Result<Option<Token>, ErrorKind>,
)
    requires
        embed_outcome(orig, claims, encode, Ok(out)),
        extract_outcome(out@, decode, r),
        forall|x: parity_wasm::elements::Module|
            serializes(x) ==> #[trigger] parsed_module(module_image(x)) == Some(x),
        forall|c: Claims, t: String, s: String, d: Option<Claims>|
            #![trigger encode.ensures((c,), Some(t)), decode.ensures((s,), d)]
            encode.ensures((c,), Some(t)) && s@ == t@ && decode.ensures((s,), d) ==> d is Some
                && d->0@ == c@,
    ensures
        r is Ok && r->Ok_0 is Some,
        r->Ok_0->0.claims@ == (ClaimsView { module_hash: r->Ok_0->0.claims@.module_hash, ..claims }),
        r->Ok_0->0.claims.module_hash@ == canonical_hash(parsed_module(orig)->0),
        r->Ok_0->0.claims.module_hash@.len() == 64,
        is_upper_hex(r->Ok_0->0.claims.module_hash@),
{
    let m = parsed_module(orig)->0;
    let h = canonical_hash(m);
    let signed = choose|signed: Claims|
        signed@ == (ClaimsView { module_hash: h, ..claims }) && #[trigger] signs_and_embeds(
            m,
            encode,
            signed,
            Ok(out),
        );
    let token = choose|token: String|
        #[trigger] encode.ensures((signed,), Some(token)) && is_embedding_of(m, token@, Ok(out));
    let e = embedded(m, token@);
    assert(serializes(e));
    assert(parsed_module(out@) == Some(e));
    lemma_embedded_token_readable(custom_sections(m), token@);
    let cs = custom_sections(e);
    let p = cs[first_named(cs, section_name())].1;
    assert(text_of(p) == token@);
    assert(canonical_hash(e) == h);
    if r == Err::<Option<Token>, ErrorKind>(ErrorKind::TokenDecode) {
        let s = choose|s: String| s@ == token@ && #[trigger] decode.ensures((s,), None::<Claims>);
        assert(encode.ensures((signed,), Some(token)));
    }
    if r == Err::<Option<Token>, ErrorKind>(ErrorKind::InvalidModuleHash) {
        let c = choose|c: Claims| #[trigger] decodes_to(decode, token@, Some(c)) && c.module_hash@ != h;
        let s = choose|s: String| s@ == token@ && #[trigger] decode.ensures((s,), Some(c));
        assert(encode.ensures((signed,), Some(token)));
    }
    if r is Ok {
        let t = r->Ok_0->0;
        let s = choose|s: String| s@ == token@ && #[trigger] decode.ensures((s,), Some(t.claims));
        assert(encode.ensures((signed,), Some(token)));
    }
}

/// Embedding the same bytes twice: each output verifies on extraction, and
/// both declare the same module hash. Holds under the same conditions on
/// parity-wasm and on the codec as the round trip.
pub proof fn lemma_embeddings_verify<E: Fn(Claims) -> Option<String>, D: Fn(String) -> Option<Claims>>(
    orig: Seq<u8>,
    claims: ClaimsView,
    encode: E,
    decode: D,
    out1: Vec<u8>,
    out2: Vec<u8>,
    r1: Result<Option<Token>, ErrorKind>,
    r2: Result<Option<Token>, ErrorKind>,
)
    requires
        embed_outcome(orig, claims, encode, Ok(out1)),
        embed_outcome(orig, claims, encode, Ok(out2)),
        extract_outcome(out1@, decode, r1),
        extract_outcome(out2@, decode, r2),
        forall|x: parity_wasm::elements::Module|
            serializes(x) ==> #[trigger] parsed_module(module_image(x)) == Some(x),
        forall|c: Claims, t: String, s: String, d: Option<Claims>|
            #![trigger encode.ensures((c,), Some(t)), decode.ensures((s,), d)]
            encode.ensures((c,), Some(t)) && s@ == t@ && decode.ensures((s,), d) ==> d is Some
                && d->0@ == c@,
    ensures
        r1 is Ok && r1->Ok_0 is Some,
        r2 is Ok && r2->Ok_0 is Some,
        r1->Ok_0->0.claims.module_hash@ == r2->Ok_0->0.claims.module_hash@,
{
    lemma_round_trip(orig, claims, encode, decode, out1, r1);
    lemma_round_trip(orig, claims, encode, decode, out2, r2);
}

/// Embedding always sets the module hash: claims that declared none are
/// signed with a 64-character upper-case hexadecimal hash, which differs
/// from the empty one.
pub proof fn lemma_embedded_hash_is_fresh<E: Fn(Claims) -> Option<String>>(
    orig: Seq<u8>,
    claims: ClaimsView,
    encode: E,
    r: Result<Vec<u8>, ErrorKind>,
)
    requires
        claims.module_hash.len() == 0,
        embed_outcome(orig, claims, encode, r),
        r is Ok,
    ensures
        exists|signed: Claims|
            #[trigger] signs_and_embeds(parsed_module(orig)->0, encode, signed, r)
                && signed@.module_hash != claims.module_hash && signed@.module_hash.len() == 64
                && is_upper_hex(signed@.module_hash),
{
}


/// Embedding raw bytes or the bytes that parity-wasm writes back for them
/// signs the same hash, where parity-wasm reads back each module it writes.
pub proof fn lemma_reserialized_same_hash(m: parity_wasm::elements::Module)
    requires
        serializes(m),
        forall|x: parity_wasm::elements::Module|
            serializes(x) ==> #[trigger] parsed_module(module_image(x)) == Some(x),
    ensures
        parsed_module(module_image(m)) is Some,
        canonical_hash(parsed_module(module_image(m))->0) == canonical_hash(m),
{
}

} // verus!
