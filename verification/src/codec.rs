//! The stored form of a principal.
//!
//! A record is a version byte, then the fields in a fixed order: the
//! identifier, one byte for the kind, the quota, the name, the description,
//! the secrets, the addresses and the group identifiers. Numbers, lengths
//! and counts are variable-length integers; a string is its length in bytes
//! and its UTF-8 bytes; a list is its count and its items. Nothing names or
//! delimits a field, so the order is part of the format.

use crate::principal::{Principal, PrincipalView, Type};
use crate::varint::{
    decode_u32, decode_u64, encode, read_leb128_u32, read_leb128_u64, write_leb128,
};
use vstd::prelude::*;
use vstd::slice::{slice_subrange, slice_to_vec};
use vstd::utf8::{decode_utf8, encode_utf8, valid_utf8};

verus! {

/// The one version of the format that is read and written.
pub const VERSION: u8 = 1;

/// The string at the front of `bytes` and the number of bytes it takes.
#[verifier::opaque]
pub open spec fn decode_string(bytes: Seq<u8>) -> Option<(Seq<char>, nat)> {
    match decode_u64(bytes) {
        Some((len, n)) => {
            let body = bytes.subrange(n as int, n + len);
            if n + len <= bytes.len() && valid_utf8(body) {
                Some((decode_utf8(body), (n + len) as nat))
            } else {
                None
            }
        },
        None => None,
    }
}

/// The `count` strings at the front of `bytes` and the bytes they take.
pub open spec fn decode_strings(bytes: Seq<u8>, count: nat) -> Option<(Seq<Seq<char>>, nat)>
    decreases count,
{
    if count == 0 {
        Some((Seq::<Seq<char>>::empty(), 0nat))
    } else {
        match decode_string(bytes) {
            Some((first, n)) => match decode_strings(bytes.skip(n as int), (count - 1) as nat) {
                Some((rest, m)) => Some((seq![first] + rest, n + m)),
                None => None,
            },
            None => None,
        }
    }
}

/// The list of strings at the front of `bytes` and the bytes it takes.
#[verifier::opaque]
pub open spec fn decode_string_list(bytes: Seq<u8>) -> Option<(Seq<Seq<char>>, nat)> {
    match decode_u64(bytes) {
        Some((count, n)) => match decode_strings(bytes.skip(n as int), count as nat) {
            Some((list, m)) => Some((list, n + m)),
            None => None,
        },
        None => None,
    }
}

/// The `count` numbers at the front of `bytes` and the bytes they take.
pub open spec fn decode_u32s(bytes: Seq<u8>, count: nat) -> Option<(Seq<u32>, nat)>
    decreases count,
{
    if count == 0 {
        Some((Seq::<u32>::empty(), 0nat))
    } else {
        match decode_u32(bytes) {
            Some((first, n)) => match decode_u32s(bytes.skip(n as int), (count - 1) as nat) {
                Some((rest, m)) => Some((seq![first] + rest, n + m)),
                None => None,
            },
            None => None,
        }
    }
}

/// The list of numbers at the front of `bytes` and the bytes it takes.
#[verifier::opaque]
pub open spec fn decode_u32_list(bytes: Seq<u8>) -> Option<(Seq<u32>, nat)> {
    match decode_u64(bytes) {
        Some((count, n)) => match decode_u32s(bytes.skip(n as int), count as nat) {
            Some((list, m)) => Some((list, n + m)),
            None => None,
        },
        None => None,
    }
}

/// An empty description on the wire stands for none.
pub open spec fn description_of(text: Seq<char>) -> Option<Seq<char>> {
    if text.len() == 0 {
        None
    } else {
        Some(text)
    }
}

/// The fields that follow the quota: name, description, secrets, addresses
/// and group identifiers, with the bytes they take.
#[verifier::opaque]
pub open spec fn decode_tail(bytes: Seq<u8>, id: u32, typ: Type, quota: u32) -> Option<
    (PrincipalView, nat),
> {
    match decode_string(bytes) {
        Some((name, n1)) => match decode_string(bytes.skip(n1 as int)) {
            Some((text, n2)) => match decode_string_list(bytes.skip((n1 + n2) as int)) {
                Some((secrets, n3)) => match decode_string_list(
                    bytes.skip((n1 + n2 + n3) as int),
                ) {
                    Some((emails, n4)) => match decode_u32_list(
                        bytes.skip((n1 + n2 + n3 + n4) as int),
                    ) {
                        Some((member_of, n5)) => Some(
                            (
                                PrincipalView {
                                    id,
                                    typ,
                                    quota,
                                    name,
                                    secrets,
                                    emails,
                                    member_of,
                                    description: description_of(text),
                                },
                                n1 + n2 + n3 + n4 + n5,
                            ),
                        ),
                        None => None,
                    },
                    None => None,
                },
                None => None,
            },
            None => None,
        },
        None => None,
    }
}

/// The record at the front of `bytes` and the number of bytes it takes.
/// Whatever follows the record is not looked at.
pub open spec fn decode_record(bytes: Seq<u8>) -> Option<(PrincipalView, nat)> {
    if bytes.len() == 0 || bytes[0] != VERSION {
        None
    } else {
        match decode_u32(bytes.skip(1)) {
            Some((id, n1)) => if 1 + n1 >= bytes.len() {
                None
            } else {
                let typ = Type::of_ordinal(bytes[(1 + n1) as int]);
                match decode_u32(bytes.skip((2 + n1) as int)) {
                    Some((quota, n2)) => match decode_tail(
                        bytes.skip((2 + n1 + n2) as int),
                        id,
                        typ,
                        quota,
                    ) {
                        Some((record, n3)) => Some((record, 2 + n1 + n2 + n3)),
                        None => None,
                    },
                    None => None,
                }
            },
            None => None,
        }
    }
}

/// The principal that `bytes` hold, if they hold one.
pub open spec fn decode_principal(bytes: Seq<u8>) -> Option<PrincipalView> {
    match decode_record(bytes) {
        Some((record, _)) => Some(record),
        None => None,
    }
}

/// The bytes of a string: the length of its UTF-8 form, then that form.
pub open spec fn encode_string(text: Seq<char>) -> Seq<u8> {
    encode(encode_utf8(text).len()) + encode_utf8(text)
}

/// The strings of a list, one after the other.
pub open spec fn encode_strings(list: Seq<Seq<char>>) -> Seq<u8>
    decreases list.len(),
{
    if list.len() == 0 {
        Seq::<u8>::empty()
    } else {
        encode_string(list[0]) + encode_strings(list.drop_first())
    }
}

/// The bytes of a list of strings: its count, then its items.
pub open spec fn encode_string_list(list: Seq<Seq<char>>) -> Seq<u8> {
    encode(list.len()) + encode_strings(list)
}

/// The numbers of a list, one after the other.
pub open spec fn encode_u32s(list: Seq<u32>) -> Seq<u8>
    decreases list.len(),
{
    if list.len() == 0 {
        Seq::<u8>::empty()
    } else {
        encode(list[0] as nat) + encode_u32s(list.drop_first())
    }
}

/// The bytes of a list of numbers: its count, then its items.
pub open spec fn encode_u32_list(list: Seq<u32>) -> Seq<u8> {
    encode(list.len()) + encode_u32s(list)
}

/// The text that stands for a description on the wire.
pub open spec fn description_text(description: Option<Seq<char>>) -> Seq<char> {
    match description {
        Some(text) => text,
        None => Seq::<char>::empty(),
    }
}

/// The stored form of a principal.
pub open spec fn encode_principal(p: PrincipalView) -> Seq<u8> {
    seq![VERSION] + encode(p.id as nat) + seq![p.typ.ordinal()] + encode(p.quota as nat)
        + encode_string(p.name) + encode_string(description_text(p.description))
        + encode_string_list(p.secrets) + encode_string_list(p.emails) + encode_u32_list(
        p.member_of,
    )
}

/// `String::from_utf8` of std: the bytes are taken as a string exactly when
/// they are well-formed UTF-8, and the string is then the text they spell.
#[verifier::external_body]
fn string_from_utf8(bytes: Vec<u8>) -> (r: Option<String>)
    ensures
        r is Some <==> valid_utf8(bytes@),
        r matches Some(text) ==> text@ == decode_utf8(bytes@),
{
    match String::from_utf8(bytes) {
        Ok(text) => Some(text),
        Err(_) => None,
    }
}

/// Reads the string that starts at `pos` and gives it with the place of the
/// byte after it. `None` when the length cannot be read, when fewer bytes
/// are left than the length asks for, or when they are not UTF-8.
pub fn deserialize_string(bytes: &[u8], pos: usize) -> (r: Option<(String, usize)>)
    ensures
        pos > bytes.len() ==> r is None,
        pos <= bytes.len() ==> match decode_string(bytes@.skip(pos as int)) {
            Some((text, n)) => r matches Some((s, end)) && s@ == text && end == pos + n && end
                <= bytes.len(),
            None => r is None,
        },
{
    proof {
        reveal(decode_string);
    }
    let (len, start) = match read_leb128_u64(bytes, pos) {
        Some(found) => found,
        None => {
            return None;
        },
    };
    if len > (bytes.len() - start) as u64 {
        return None;
    }
    let end: usize = start + len as usize;
    let raw = slice_to_vec(slice_subrange(bytes, start, end));
    proof {
        let tail = bytes@.skip(pos as int);
        assert(tail.subrange(start - pos, end - pos) =~= bytes@.subrange(
            start as int,
            end as int,
        ));
    }
    match string_from_utf8(raw) {
        Some(text) => Some((text, end)),
        None => None,
    }
}

/// The items read so far, followed by what is read of the rest.
pub open spec fn then_strings(
    done: Seq<Seq<char>>,
    used: nat,
    rest: Option<(Seq<Seq<char>>, nat)>,
) -> Option<(Seq<Seq<char>>, nat)> {
    match rest {
        Some((more, m)) => Some((done + more, used + m)),
        None => None,
    }
}

/// The items read so far, followed by what is read of the rest.
pub open spec fn then_u32s(done: Seq<u32>, used: nat, rest: Option<(Seq<u32>, nat)>) -> Option<
    (Seq<u32>, nat),
> {
    match rest {
        Some((more, m)) => Some((done + more, used + m)),
        None => None,
    }
}

/// Reading `count` strings is reading one and then the others.
proof fn lemma_decode_strings_step(
    bytes: Seq<u8>,
    count: nat,
    done: Seq<Seq<char>>,
    used: nat,
)
    requires
        count > 0,
    ensures
        then_strings(done, used, decode_strings(bytes, count)) == match decode_string(bytes) {
            Some((first, n)) => then_strings(
                done.push(first),
                used + n,
                decode_strings(bytes.skip(n as int), (count - 1) as nat),
            ),
            None => None,
        },
{
    match decode_string(bytes) {
        Some((first, n)) => {
            match decode_strings(bytes.skip(n as int), (count - 1) as nat) {
                Some((rest, m)) => {
                    assert(done + (seq![first] + rest) =~= done.push(first) + rest);
                },
                None => {},
            }
        },
        None => {},
    }
}

/// Reading `count` numbers is reading one and then the others.
proof fn lemma_decode_u32s_step(bytes: Seq<u8>, count: nat, done: Seq<u32>, used: nat)
    requires
        count > 0,
    ensures
        then_u32s(done, used, decode_u32s(bytes, count)) == match decode_u32(bytes) {
            Some((first, n)) => then_u32s(
                done.push(first),
                used + n,
                decode_u32s(bytes.skip(n as int), (count - 1) as nat),
            ),
            None => None,
        },
{
    match decode_u32(bytes) {
        Some((first, n)) => {
            match decode_u32s(bytes.skip(n as int), (count - 1) as nat) {
                Some((rest, m)) => {
                    assert(done + (seq![first] + rest) =~= done.push(first) + rest);
                },
                None => {},
            }
        },
        None => {},
    }
}

/// Reads the list of strings that starts at `pos` and gives it with the
/// place of the byte after it. `None` when the count or one of that many
/// strings cannot be read.
pub fn deserialize_string_list(bytes: &[u8], pos: usize) -> (r: Option<(Vec<String>, usize)>)
    ensures
        pos > bytes.len() ==> r is None,
        pos <= bytes.len() ==> match decode_string_list(bytes@.skip(pos as int)) {
            Some((list, n)) => r matches Some((v, end)) && v.deep_view() == list && end == pos + n
                && end <= bytes.len(),
            None => r is None,
        },
{
    proof {
        reveal(decode_string_list);
    }
    let (count, start) = match read_leb128_u64(bytes, pos) {
        Some(found) => found,
        None => {
            return None;
        },
    };
    let ghost whole = decode_strings(bytes@.skip(start as int), count as nat);
    let mut list: Vec<String> = Vec::new();
    let mut at: usize = start;
    let mut i: u64 = 0;
    proof {
        assert(bytes@.skip(pos as int).skip(start - pos) =~= bytes@.skip(start as int));
        assert(list.deep_view() =~= Seq::<Seq<char>>::empty());
        match whole {
            Some((all, m)) => {
                assert(list.deep_view() + all =~= all);
            },
            None => {},
        }
    }
    while i < count
        invariant
            i <= count,
            pos <= start <= at <= bytes.len(),
            decode_u64(bytes@.skip(pos as int)) == Some((count, (start - pos) as nat)),
            bytes@.skip(pos as int).skip(start - pos) == bytes@.skip(start as int),
            whole == decode_strings(bytes@.skip(start as int), count as nat),
            whole == then_strings(
                list.deep_view(),
                (at - start) as nat,
                decode_strings(bytes@.skip(at as int), (count - i) as nat),
            ),
        decreases count - i,
    {
        proof {
            reveal(decode_string_list);
            lemma_decode_strings_step(
                bytes@.skip(at as int),
                (count - i) as nat,
                list.deep_view(),
                (at - start) as nat,
            );
        }
        match deserialize_string(bytes, at) {
            Some((text, next)) => {
                proof {
                    assert(bytes@.skip(at as int).skip(next - at) =~= bytes@.skip(next as int));
                }
                let ghost before = list.deep_view();
                list.push(text);
                proof {
                    assert(list.deep_view() =~= before.push(text@));
                }
                at = next;
                i = i + 1;
            },
            None => {
                return None;
            },
        }
    }
    proof {
        assert(list.deep_view() + Seq::<Seq<char>>::empty() =~= list.deep_view());
    }
    Some((list, at))
}

/// Reads the list of numbers that starts at `pos` and gives it with the
/// place of the byte after it. `None` when the count or one of that many
/// numbers cannot be read.
pub fn deserialize_u32_list(bytes: &[u8], pos: usize) -> (r: Option<(Vec<u32>, usize)>)
    ensures
        pos > bytes.len() ==> r is None,
        pos <= bytes.len() ==> match decode_u32_list(bytes@.skip(pos as int)) {
            Some((list, n)) => r matches Some((v, end)) && v@ == list && end == pos + n && end
                <= bytes.len(),
            None => r is None,
        },
{
    proof {
        reveal(decode_u32_list);
    }
    let (count, start) = match read_leb128_u64(bytes, pos) {
        Some(found) => found,
        None => {
            return None;
        },
    };
    let ghost whole = decode_u32s(bytes@.skip(start as int), count as nat);
    let mut list: Vec<u32> = Vec::new();
    let mut at: usize = start;
    let mut i: u64 = 0;
    proof {
        assert(bytes@.skip(pos as int).skip(start - pos) =~= bytes@.skip(start as int));
        match whole {
            Some((all, m)) => {
                assert(list@ + all =~= all);
            },
            None => {},
        }
    }
    while i < count
        invariant
            i <= count,
            pos <= start <= at <= bytes.len(),
            decode_u64(bytes@.skip(pos as int)) == Some((count, (start - pos) as nat)),
            bytes@.skip(pos as int).skip(start - pos) == bytes@.skip(start as int),
            whole == decode_u32s(bytes@.skip(start as int), count as nat),
            whole == then_u32s(
                list@,
                (at - start) as nat,
                decode_u32s(bytes@.skip(at as int), (count - i) as nat),
            ),
        decreases count - i,
    {
        proof {
            reveal(decode_u32_list);
            lemma_decode_u32s_step(
                bytes@.skip(at as int),
                (count - i) as nat,
                list@,
                (at - start) as nat,
            );
        }
        match read_leb128_u32(bytes, at) {
            Some((value, next)) => {
                proof {
                    assert(bytes@.skip(at as int).skip(next - at) =~= bytes@.skip(next as int));
                }
                list.push(value);
                at = next;
                i = i + 1;
            },
            None => {
                return None;
            },
        }
    }
    proof {
        assert(list@ + Seq::<u32>::empty() =~= list@);
    }
    Some((list, at))
}

/// Reads the five fields that follow the quota, starting at `pos`.
fn deserialize_tail(bytes: &[u8], pos: usize, id: u32, typ: Type, quota: u32) -> (r: Option<
    Principal,
>)
    requires
        pos <= bytes.len(),
    ensures
        match decode_tail(bytes@.skip(pos as int), id, typ, quota) {
            Some((record, n)) => r matches Some(p) && p@ == record,
            None => r is None,
        },
{
    proof {
        reveal(decode_tail);
    }
    let ghost tail = bytes@.skip(pos as int);
    let (name, at1) = match deserialize_string(bytes, pos) {
        Some(found) => found,
        None => {
            return None;
        },
    };
    proof {
        assert(tail.skip(at1 - pos) =~= bytes@.skip(at1 as int));
    }
    let (text, at2) = match deserialize_string(bytes, at1) {
        Some(found) => found,
        None => {
            return None;
        },
    };
    proof {
        assert(tail.skip(at2 - pos) =~= bytes@.skip(at2 as int));
    }
    let (secrets, at3) = match deserialize_string_list(bytes, at2) {
        Some(found) => found,
        None => {
            return None;
        },
    };
    proof {
        assert(tail.skip(at3 - pos) =~= bytes@.skip(at3 as int));
    }
    let (emails, at4) = match deserialize_string_list(bytes, at3) {
        Some(found) => found,
        None => {
            return None;
        },
    };
    proof {
        assert(tail.skip(at4 - pos) =~= bytes@.skip(at4 as int));
    }
    let (member_of, _) = match deserialize_u32_list(bytes, at4) {
        Some(found) => found,
        None => {
            return None;
        },
    };
    let description = if text.as_str().is_empty() {
        None
    } else {
        Some(text)
    };
    Some(Principal { id, typ, quota, name, secrets, emails, member_of, description })
}

/// Reads a principal from its stored form. `None` when the first byte is
/// not the version that is understood, when the bytes end before the last
/// field does, or when a string is not UTF-8. A kind that is not known reads
/// as `Other`. Bytes after the last field are not looked at.
pub fn deserialize(bytes: &[u8]) -> (r: Option<Principal>)
    ensures
        match decode_principal(bytes@) {
            Some(record) => r matches Some(p) && p@ == record,
            None => r is None,
        },
{
    if bytes.len() == 0 || bytes[0] != VERSION {
        return None;
    }
    let (id, at1) = match read_leb128_u32(bytes, 1) {
        Some(found) => found,
        None => {
            return None;
        },
    };
    if at1 >= bytes.len() {
        return None;
    }
    let typ = Type::from_u8(bytes[at1]);
    let (quota, at2) = match read_leb128_u32(bytes, at1 + 1) {
        Some(found) => found,
        None => {
            return None;
        },
    };
    deserialize_tail(bytes, at2, id, typ, quota)
}

/// Appends the stored form of a string to `out`.
fn write_string(out: &mut Vec<u8>, text: &str)
    ensures
        final(out)@ == old(out)@ + encode_string(text@),
{
    let raw = text.as_bytes();
    let ghost start = out@;
    write_leb128(out, raw.len() as u64);
    out.extend_from_slice(raw);
    proof {
        assert(out@ =~= start + encode_string(text@));
    }
}

/// Appends the stored form of a list of strings to `out`.
fn write_string_list(out: &mut Vec<u8>, list: &Vec<String>)
    ensures
        final(out)@ == old(out)@ + encode_string_list(list.deep_view()),
{
    let ghost start = out@;
    let ghost items = list.deep_view();
    write_leb128(out, list.len() as u64);
    let ghost counted = out@;
    let mut i: usize = 0;
    proof {
        assert(items.skip(0) =~= items);
    }
    while i < list.len()
        invariant
            i <= list.len(),
            items == list.deep_view(),
            out@ + encode_strings(items.skip(i as int)) == counted + encode_strings(items),
        decreases list.len() - i,
    {
        let ghost before = out@;
        write_string(out, list[i].as_str());
        proof {
            let rest = items.skip(i as int);
            assert(rest[0] == list[i as int]@);
            assert(rest.drop_first() =~= items.skip(i + 1));
            assert(out@ + encode_strings(items.skip(i + 1)) =~= before + encode_strings(rest));
        }
        i = i + 1;
    }
    proof {
        assert(items.skip(i as int) =~= Seq::<Seq<char>>::empty());
        assert(out@ =~= start + encode_string_list(items));
    }
}

/// Appends the stored form of a list of numbers to `out`.
fn write_u32_list(out: &mut Vec<u8>, list: &Vec<u32>)
    ensures
        final(out)@ == old(out)@ + encode_u32_list(list@),
{
    let ghost start = out@;
    write_leb128(out, list.len() as u64);
    let ghost counted = out@;
    let mut i: usize = 0;
    proof {
        assert(list@.skip(0) =~= list@);
    }
    while i < list.len()
        invariant
            i <= list.len(),
            out@ + encode_u32s(list@.skip(i as int)) == counted + encode_u32s(list@),
        decreases list.len() - i,
    {
        let ghost before = out@;
        write_leb128(out, list[i] as u64);
        proof {
            let rest = list@.skip(i as int);
            assert(rest[0] == list[i as int]);
            assert(rest.drop_first() =~= list@.skip(i + 1));
            assert(out@ + encode_u32s(list@.skip(i + 1)) =~= before + encode_u32s(rest));
        }
        i = i + 1;
    }
    proof {
        assert(list@.skip(i as int) =~= Seq::<u32>::empty());
        assert(out@ =~= start + encode_u32_list(list@));
    }
}

/// Why a stored value could not be used.
#[derive(Debug, Clone, PartialEq, Eq)]
pub enum DecodeError {
    /// The stored bytes are not what was once written.
    InternalError(String),
}

impl DecodeError {
    /// What went wrong, in words.
    pub open spec fn message(self) -> Seq<char> {
        match self {
            DecodeError::InternalError(message) => message@,
        }
    }
}

impl Principal {
    /// Writes the principal in its stored form.
    pub fn serialize(&self) -> (bytes: Vec<u8>)
        ensures
            bytes@ == encode_principal(self@),
    {
        let mut out: Vec<u8> = Vec::new();
        out.push(VERSION);
        write_leb128(&mut out, self.id as u64);
        out.push(self.typ.to_u8());
        write_leb128(&mut out, self.quota as u64);
        write_string(&mut out, self.name.as_str());
        match &self.description {
            Some(text) => write_string(&mut out, text.as_str()),
            None => write_string(&mut out, ""),
        }
        proof {
            reveal_strlit("");
        }
        write_string_list(&mut out, &self.secrets);
        write_string_list(&mut out, &self.emails);
        write_u32_list(&mut out, &self.member_of);
        proof {
            assert(out@ =~= encode_principal(self@));
        }
        out
    }

    /// Reads a principal from its stored form, or says that it could not.
    /// Nothing of a record that cannot be read in full is handed out.
    pub fn deserialize(bytes: &[u8]) -> (r: Result<Principal, DecodeError>)
        ensures
            match decode_principal(bytes@) {
                Some(record) => r matches Ok(p) && p@ == record,
                None => r matches Err(e) && e.message() == "Failed to deserialize principal"@,
            },
    {
        match deserialize(bytes) {
            Some(principal) => Ok(principal),
            None => Err(DecodeError::InternalError("Failed to deserialize principal".to_owned())),
        }
    }
}

} // verus!
