//! What holds of the stored form: a record that was written is read back as
//! it was, and a record that lost bytes at its end is not read at all.

use crate::codec::{
    decode_principal, decode_record, decode_string, decode_string_list, decode_strings,
    decode_tail, decode_u32_list, decode_u32s, description_of, description_text, encode_principal,
    encode_string, encode_string_list, encode_strings, encode_u32_list, encode_u32s, VERSION,
};
use crate::principal::{text_fits, texts_fit, PrincipalView, Type};
use crate::varint::{
    decode_u32, decode_u64, encode, lemma_decode_u32_encode, lemma_decode_u32_prefix,
    lemma_decode_u64_encode, lemma_decode_u64_prefix,
};
use vstd::prelude::*;
use vstd::utf8::{encode_utf8, encode_utf8_decode_utf8, encode_utf8_valid_utf8};

verus! {

/// A string that was written is read back, whatever follows it.
pub proof fn lemma_decode_string_encode(text: Seq<char>, rest: Seq<u8>)
    requires
        text_fits(text),
    ensures
        decode_string(encode_string(text) + rest) == Some((text, encode_string(text).len())),
{
    reveal(decode_string);
    let raw = encode_utf8(text);
    let head = encode(raw.len());
    let all = encode_string(text) + rest;
    assert(all =~= head + (raw + rest));
    lemma_decode_u64_encode(raw.len() as u64, raw + rest);
    assert(all.subrange(head.len() as int, (head.len() + raw.len()) as int) =~= raw);
    encode_utf8_valid_utf8(text);
    encode_utf8_decode_utf8(text);
}

/// Strings that were written one after the other are read back.
pub proof fn lemma_decode_strings_encode(list: Seq<Seq<char>>, rest: Seq<u8>)
    requires
        forall|i: int| 0 <= i < list.len() ==> text_fits(#[trigger] list[i]),
    ensures
        decode_strings(encode_strings(list) + rest, list.len()) == Some(
            (list, encode_strings(list).len()),
        ),
    decreases list.len(),
{
    if list.len() == 0 {
        assert(list =~= Seq::<Seq<char>>::empty());
    } else {
        let first = list[0];
        let others = list.drop_first();
        let all = encode_strings(list) + rest;
        assert(all =~= encode_string(first) + (encode_strings(others) + rest));
        lemma_decode_string_encode(first, encode_strings(others) + rest);
        assert(all.skip(encode_string(first).len() as int) =~= encode_strings(others) + rest);
        assert forall|i: int| 0 <= i < others.len() implies text_fits(#[trigger] others[i]) by {
            assert(others[i] == list[i + 1]);
        }
        lemma_decode_strings_encode(others, rest);
        assert(seq![first] + others =~= list);
    }
}

/// A list of strings that was written is read back, whatever follows it.
pub proof fn lemma_decode_string_list_encode(list: Seq<Seq<char>>, rest: Seq<u8>)
    requires
        texts_fit(list),
    ensures
        decode_string_list(encode_string_list(list) + rest) == Some(
            (list, encode_string_list(list).len()),
        ),
{
    reveal(decode_string_list);
    let head = encode(list.len());
    let body = encode_strings(list);
    let all = encode_string_list(list) + rest;
    assert(all =~= head + (body + rest));
    lemma_decode_u64_encode(list.len() as u64, body + rest);
    assert(all.skip(head.len() as int) =~= body + rest);
    lemma_decode_strings_encode(list, rest);
}

/// Numbers that were written one after the other are read back.
pub proof fn lemma_decode_u32s_encode(list: Seq<u32>, rest: Seq<u8>)
    ensures
        decode_u32s(encode_u32s(list) + rest, list.len()) == Some((list, encode_u32s(list).len())),
    decreases list.len(),
{
    if list.len() == 0 {
        assert(list =~= Seq::<u32>::empty());
    } else {
        let first = list[0];
        let others = list.drop_first();
        let all = encode_u32s(list) + rest;
        assert(all =~= encode(first as nat) + (encode_u32s(others) + rest));
        lemma_decode_u32_encode(first, encode_u32s(others) + rest);
        assert(all.skip(encode(first as nat).len() as int) =~= encode_u32s(others) + rest);
        lemma_decode_u32s_encode(others, rest);
        assert(seq![first] + others =~= list);
    }
}

/// A list of numbers that was written is read back, whatever follows it.
pub proof fn lemma_decode_u32_list_encode(list: Seq<u32>, rest: Seq<u8>)
    requires
        list.len() <= u64::MAX,
    ensures
        decode_u32_list(encode_u32_list(list) + rest) == Some((list, encode_u32_list(list).len())),
{
    reveal(decode_u32_list);
    let head = encode(list.len());
    let body = encode_u32s(list);
    let all = encode_u32_list(list) + rest;
    assert(all =~= head + (body + rest));
    lemma_decode_u64_encode(list.len() as u64, body + rest);
    assert(all.skip(head.len() as int) =~= body + rest);
    lemma_decode_u32s_encode(list, rest);
}

/// The bytes of the five fields that follow the quota.
pub open spec fn encode_tail(p: PrincipalView) -> Seq<u8> {
    encode_string(p.name) + encode_string(description_text(p.description)) + encode_string_list(
        p.secrets,
    ) + encode_string_list(p.emails) + encode_u32_list(p.member_of)
}

/// The five fields that follow the quota are read back as they were
/// written, an empty description as none.
pub proof fn lemma_decode_tail_encode(p: PrincipalView, rest: Seq<u8>)
    requires
        p.storable(),
    ensures
        decode_tail(encode_tail(p) + rest, p.id, p.typ, p.quota) == Some(
            (p.normalized(), encode_tail(p).len()),
        ),
{
    reveal(decode_tail);
    let text = description_text(p.description);
    let f1 = encode_string(p.name);
    let f2 = encode_string(text);
    let f3 = encode_string_list(p.secrets);
    let f4 = encode_string_list(p.emails);
    let f5 = encode_u32_list(p.member_of);
    let all = encode_tail(p) + rest;
    let r5 = f5 + rest;
    let r4 = f4 + r5;
    let r3 = f3 + r4;
    let r2 = f2 + r3;
    assert(all =~= f1 + r2);
    lemma_decode_string_encode(p.name, r2);
    assert(all.skip(f1.len() as int) =~= r2);
    assert(text_fits(text)) by {
        if p.description is None {
            assert(encode_utf8(Seq::<char>::empty()).len() == 0);
        }
    }
    lemma_decode_string_encode(text, r3);
    assert(all.skip((f1.len() + f2.len()) as int) =~= r3);
    lemma_decode_string_list_encode(p.secrets, r4);
    assert(all.skip((f1.len() + f2.len() + f3.len()) as int) =~= r4);
    lemma_decode_string_list_encode(p.emails, r5);
    assert(all.skip((f1.len() + f2.len() + f3.len() + f4.len()) as int) =~= r5);
    lemma_decode_u32_list_encode(p.member_of, rest);
    assert(description_of(text) == p.normalized().description) by {
        if text.len() == 0 {
            assert(text =~= Seq::<char>::empty());
        }
    }
    assert(encode_tail(p).len() == f1.len() + f2.len() + f3.len() + f4.len() + f5.len());
}

/// A record is read from bytes that are laid out as a record is: the
/// version, an identifier, a byte for the kind, a quota and the five fields
/// that follow.
proof fn lemma_decode_record_layout(
    id: u32,
    ordinal: u8,
    quota: u32,
    tail: Seq<u8>,
    rest: Seq<u8>,
    record: PrincipalView,
)
    requires
        decode_tail(tail + rest, id, Type::of_ordinal(ordinal), quota) == Some(
            (record, tail.len()),
        ),
    ensures
        decode_record(
            seq![VERSION] + encode(id as nat) + seq![ordinal] + encode(quota as nat) + tail + rest,
        ) == Some(
            (record, (2 + encode(id as nat).len() + encode(quota as nat).len() + tail.len()) as nat),
        ),
{
    let e_id = encode(id as nat);
    let e_quota = encode(quota as nat);
    let all = seq![VERSION] + e_id + seq![ordinal] + e_quota + tail + rest;
    let r3 = tail + rest;
    let r2 = e_quota + r3;
    let r1 = seq![ordinal] + r2;
    let n1 = e_id.len();
    let n2 = e_quota.len();
    assert(all =~= seq![VERSION] + (e_id + r1));
    assert(all.len() > 0 && all[0] == VERSION);
    assert(decode_u32(all.skip(1)) == Some((id, n1))) by {
        assert(all.skip(1) =~= e_id + r1);
        lemma_decode_u32_encode(id, r1);
    }
    assert(1 + n1 < all.len() && all[(1 + n1) as int] == ordinal);
    assert(decode_u32(all.skip((2 + n1) as int)) == Some((quota, n2))) by {
        assert(all.skip((2 + n1) as int) =~= r2);
        lemma_decode_u32_encode(quota, r3);
    }
    assert(all.skip((2 + n1 + n2) as int) == r3) by {
        assert(all.skip((2 + n1 + n2) as int) =~= r3);
    }
}

/// A record that was written is read back as it was, an empty description
/// as none, whatever follows it.
pub proof fn lemma_decode_record_encode(p: PrincipalView, rest: Seq<u8>)
    requires
        p.storable(),
    ensures
        decode_record(encode_principal(p) + rest) == Some(
            (p.normalized(), encode_principal(p).len()),
        ),
{
    let tail = encode_tail(p);
    let laid_out = seq![VERSION] + encode(p.id as nat) + seq![p.typ.ordinal()] + encode(
        p.quota as nat,
    ) + tail;
    assert(encode_principal(p) == laid_out) by {
        assert(encode_principal(p) =~= laid_out);
    }
    p.typ.lemma_ordinal_roundtrip();
    lemma_decode_tail_encode(p, rest);
    lemma_decode_record_layout(p.id, p.typ.ordinal(), p.quota, tail, rest, p.normalized());
}

/// Reading what was written gives the record back: for every valid
/// principal, decoding its stored form yields that principal, whether its
/// description is set or not, whether its lists are empty or not, and
/// however many groups it belongs to.
pub proof fn lemma_roundtrip(p: PrincipalView)
    requires
        p.valid(),
        p.storable(),
    ensures
        decode_principal(encode_principal(p)) == Some(p),
{
    lemma_decode_record_encode(p, Seq::<u8>::empty());
    assert(encode_principal(p) + Seq::<u8>::empty() =~= encode_principal(p));
}

/// Cutting after `k` bytes and then skipping `n` is skipping `n` and then
/// cutting after `k - n`.
proof fn lemma_take_skip(bytes: Seq<u8>, k: int, n: int)
    requires
        0 <= n <= k <= bytes.len(),
    ensures
        bytes.take(k).skip(n) == bytes.skip(n).take(k - n),
{
    assert(bytes.take(k).skip(n) =~= bytes.skip(n).take(k - n));
}

/// A string is made of its own bytes alone: cutting the input after them
/// changes nothing, cutting into them leaves no string.
pub proof fn lemma_decode_string_prefix(bytes: Seq<u8>, k: int)
    requires
        decode_string(bytes) is Some,
        0 <= k <= bytes.len(),
    ensures
        decode_string(bytes) matches Some((text, n)) && 1 <= n <= bytes.len() && if k >= n {
            decode_string(bytes.take(k)) == Some((text, n))
        } else {
            decode_string(bytes.take(k)) is None
        },
{
    reveal(decode_string);
    lemma_decode_u64_prefix(bytes, k);
    let (len, h) = decode_u64(bytes)->0;
    if k >= h + len {
        assert(bytes.take(k).subrange(h as int, h + len) =~= bytes.subrange(h as int, h + len));
    }
}

/// Strings that follow one another are made of their own bytes alone.
pub proof fn lemma_decode_strings_prefix(bytes: Seq<u8>, count: nat, k: int)
    requires
        decode_strings(bytes, count) is Some,
        0 <= k <= bytes.len(),
    ensures
        decode_strings(bytes, count) matches Some((list, n)) && n <= bytes.len() && if k >= n {
            decode_strings(bytes.take(k), count) == Some((list, n))
        } else {
            decode_strings(bytes.take(k), count) is None
        },
    decreases count,
{
    if count > 0 {
        lemma_decode_string_prefix(bytes, k);
        let (first, h) = decode_string(bytes)->0;
        let rest = bytes.skip(h as int);
        if k >= h {
            lemma_take_skip(bytes, k, h as int);
            lemma_decode_strings_prefix(rest, (count - 1) as nat, k - h);
        } else {
            lemma_decode_strings_prefix(rest, (count - 1) as nat, 0);
        }
    }
}

/// A list of strings is made of its own bytes alone.
pub proof fn lemma_decode_string_list_prefix(bytes: Seq<u8>, k: int)
    requires
        decode_string_list(bytes) is Some,
        0 <= k <= bytes.len(),
    ensures
        decode_string_list(bytes) matches Some((list, n)) && 1 <= n <= bytes.len() && if k >= n {
            decode_string_list(bytes.take(k)) == Some((list, n))
        } else {
            decode_string_list(bytes.take(k)) is None
        },
{
    reveal(decode_string_list);
    lemma_decode_u64_prefix(bytes, k);
    let (count, h) = decode_u64(bytes)->0;
    let rest = bytes.skip(h as int);
    if k >= h {
        lemma_take_skip(bytes, k, h as int);
        lemma_decode_strings_prefix(rest, count as nat, k - h);
    } else {
        lemma_decode_strings_prefix(rest, count as nat, 0);
    }
}

/// Numbers that follow one another are made of their own bytes alone.
pub proof fn lemma_decode_u32s_prefix(bytes: Seq<u8>, count: nat, k: int)
    requires
        decode_u32s(bytes, count) is Some,
        0 <= k <= bytes.len(),
    ensures
        decode_u32s(bytes, count) matches Some((list, n)) && n <= bytes.len() && if k >= n {
            decode_u32s(bytes.take(k), count) == Some((list, n))
        } else {
            decode_u32s(bytes.take(k), count) is None
        },
    decreases count,
{
    if count > 0 {
        lemma_decode_u32_prefix(bytes, k);
        let (first, h) = decode_u32(bytes)->0;
        let rest = bytes.skip(h as int);
        if k >= h {
            lemma_take_skip(bytes, k, h as int);
            lemma_decode_u32s_prefix(rest, (count - 1) as nat, k - h);
        } else {
            lemma_decode_u32s_prefix(rest, (count - 1) as nat, 0);
        }
    }
}

/// A list of numbers is made of its own bytes alone.
pub proof fn lemma_decode_u32_list_prefix(bytes: Seq<u8>, k: int)
    requires
        decode_u32_list(bytes) is Some,
        0 <= k <= bytes.len(),
    ensures
        decode_u32_list(bytes) matches Some((list, n)) && 1 <= n <= bytes.len() && if k >= n {
            decode_u32_list(bytes.take(k)) == Some((list, n))
        } else {
            decode_u32_list(bytes.take(k)) is None
        },
{
    reveal(decode_u32_list);
    lemma_decode_u64_prefix(bytes, k);
    let (count, h) = decode_u64(bytes)->0;
    let rest = bytes.skip(h as int);
    if k >= h {
        lemma_take_skip(bytes, k, h as int);
        lemma_decode_u32s_prefix(rest, count as nat, k - h);
    } else {
        lemma_decode_u32s_prefix(rest, count as nat, 0);
    }
}

/// The five fields that follow the quota are made of their own bytes alone.
pub proof fn lemma_decode_tail_prefix(bytes: Seq<u8>, id: u32, typ: Type, quota: u32, k: int)
    requires
        decode_tail(bytes, id, typ, quota) is Some,
        0 <= k <= bytes.len(),
    ensures
        decode_tail(bytes, id, typ, quota) matches Some((record, n)) && 1 <= n <= bytes.len()
            && if k >= n {
            decode_tail(bytes.take(k), id, typ, quota) == Some((record, n))
        } else {
            decode_tail(bytes.take(k), id, typ, quota) is None
        },
{
    reveal(decode_tail);
    let cut = bytes.take(k);
    lemma_decode_string_prefix(bytes, k);
    let (name, n1) = decode_string(bytes)->0;
    let o1 = n1 as int;
    let k1 = if k >= o1 { k - o1 } else { 0 };
    lemma_decode_string_prefix(bytes.skip(o1), k1);
    let (text, n2) = decode_string(bytes.skip(o1))->0;
    let o2 = o1 + n2;
    let k2 = if k >= o2 { k - o2 } else { 0 };
    lemma_decode_string_list_prefix(bytes.skip(o2), k2);
    let (secrets, n3) = decode_string_list(bytes.skip(o2))->0;
    let o3 = o2 + n3;
    let k3 = if k >= o3 { k - o3 } else { 0 };
    lemma_decode_string_list_prefix(bytes.skip(o3), k3);
    let (emails, n4) = decode_string_list(bytes.skip(o3))->0;
    let o4 = o3 + n4;
    let k4 = if k >= o4 { k - o4 } else { 0 };
    lemma_decode_u32_list_prefix(bytes.skip(o4), k4);
    if k >= o1 {
        lemma_take_skip(bytes, k, o1);
    }
    if k >= o2 {
        lemma_take_skip(bytes, k, o2);
    }
    if k >= o3 {
        lemma_take_skip(bytes, k, o3);
    }
    if k >= o4 {
        lemma_take_skip(bytes, k, o4);
    }
}

/// A record is made of its own bytes alone: cutting the input after them
/// changes nothing, cutting into them leaves no record.
pub proof fn lemma_decode_record_prefix(bytes: Seq<u8>, k: int)
    requires
        decode_record(bytes) is Some,
        0 <= k <= bytes.len(),
    ensures
        decode_record(bytes) matches Some((record, n)) && 1 <= n <= bytes.len() && if k >= n {
            decode_record(bytes.take(k)) == Some((record, n))
        } else {
            decode_record(bytes.take(k)) is None
        },
{
    let cut = bytes.take(k);
    if k >= 1 {
        assert(cut[0] == bytes[0]);
        lemma_take_skip(bytes, k, 1);
        lemma_decode_u32_prefix(bytes.skip(1), k - 1);
        let (id, n1) = decode_u32(bytes.skip(1))->0;
        let typ = Type::of_ordinal(bytes[(1 + n1) as int]);
        let o2 = (2 + n1) as int;
        let k2 = if k >= o2 { k - o2 } else { 0 };
        lemma_decode_u32_prefix(bytes.skip(o2), k2);
        let (quota, n2) = decode_u32(bytes.skip(o2))->0;
        let o3 = o2 + n2;
        let k3 = if k >= o3 { k - o3 } else { 0 };
        lemma_decode_tail_prefix(bytes.skip(o3), id, typ, quota, k3);
        if k >= o2 {
            assert(cut[(1 + n1) as int] == bytes[(1 + n1) as int]);
            lemma_take_skip(bytes, k, o2);
        }
        if k >= o3 {
            lemma_take_skip(bytes, k, o3);
        }
    } else {
        lemma_decode_u32_prefix(bytes.skip(1), 0);
        let (id, n1) = decode_u32(bytes.skip(1))->0;
        let typ = Type::of_ordinal(bytes[(1 + n1) as int]);
        let o2 = (2 + n1) as int;
        lemma_decode_u32_prefix(bytes.skip(o2), 0);
        let (quota, n2) = decode_u32(bytes.skip(o2))->0;
        lemma_decode_tail_prefix(bytes.skip(o2 + n2), id, typ, quota, 0);
    }
}

/// Reading fails closed: a stored principal that lost one or more bytes at
/// its end is not read as a principal, whichever bytes are left.
pub proof fn lemma_truncated_is_rejected(p: PrincipalView, k: int)
    requires
        p.storable(),
        0 <= k < encode_principal(p).len(),
    ensures
        decode_principal(encode_principal(p).take(k)) is None,
{
    let bytes = encode_principal(p);
    lemma_decode_record_encode(p, Seq::<u8>::empty());
    assert(bytes + Seq::<u8>::empty() =~= bytes);
    lemma_decode_record_prefix(bytes, k);
}

/// A kind that is not known is no reason to reject a record: where the
/// fields around the byte of the kind can be read, the record is read, and
/// an ordinal above those in use gives the kind `Other`.
pub proof fn lemma_unknown_kind_reads_as_other(p: PrincipalView, ordinal: u8, rest: Seq<u8>)
    requires
        p.storable(),
        ordinal >= 6,
    ensures
        decode_principal(
            seq![VERSION] + encode(p.id as nat) + seq![ordinal] + encode(p.quota as nat)
                + encode_tail(p) + rest,
        ) == Some(PrincipalView { typ: Type::Other, ..p.normalized() }),
{
    let q = PrincipalView { typ: Type::Other, ..p };
    assert(encode_tail(q) == encode_tail(p));
    lemma_decode_tail_encode(q, rest);
    lemma_decode_record_layout(p.id, ordinal, p.quota, encode_tail(p), rest, q.normalized());
}

} // verus!
