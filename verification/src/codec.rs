//! The byte encoding of task records: a self-describing, bounded binary
//! layout (fixed-width integers, length-prefixed UTF-8 strings) that
//! round-trips exactly. Records must fit `MAX_RECORD_BYTES` to be stored.

use vstd::prelude::*;

use vstd::bytes::{
    lemma_auto_spec_u64_to_from_le_bytes, spec_u64_from_le_bytes, spec_u64_to_le_bytes,
    u64_from_le_bytes, u64_to_le_bytes,
};
use vstd::slice::{slice_subrange, slice_to_vec};
use vstd::utf8::{decode_utf8, encode_utf8, valid_utf8};

use crate::task::{Task, TaskSpec};

verus! {

/// Upper bound on the encoded size of a stored record.
pub const MAX_RECORD_BYTES: usize = 1024;

/// Encoded bytes taken by everything except the three strings: the id, the
/// three length prefixes, the due date, the completed flag, the creation
/// time, and the tagged update time.
pub const RECORD_OVERHEAD_BYTES: usize = 58;

/// The number of bytes `spec_encode_task` produces for a record.
pub open spec fn spec_encoded_len(t: TaskSpec) -> int {
    RECORD_OVERHEAD_BYTES + encode_utf8(t.owner).len() + encode_utf8(t.title).len()
        + encode_utf8(t.description).len()
}

/// A record small enough for the bounded encoding; exceeding the bound is a
/// fatal condition, so operations that store a record demand this up front.
pub open spec fn record_fits(t: TaskSpec) -> bool {
    spec_encoded_len(t) <= MAX_RECORD_BYTES
}

/// Decides `record_fits` for a record that would be built from these parts:
/// the overhead plus the UTF-8 byte lengths of owner, title and description
/// must stay within the bound. The encoded size depends on nothing else.
pub fn parts_fit(owner: &String, title: &String, description: &String) -> (r: bool)
    ensures
        r == (RECORD_OVERHEAD_BYTES + encode_utf8(owner@).len() + encode_utf8(title@).len()
            + encode_utf8(description@).len() <= MAX_RECORD_BYTES),
{
    broadcast use vstd::slice::axiom_spec_len;

    let lo = owner.as_str().as_bytes().len() as u128;
    let lt = title.as_str().as_bytes().len() as u128;
    let ld = description.as_str().as_bytes().len() as u128;
    lo + lt + ld + (RECORD_OVERHEAD_BYTES as u128) <= MAX_RECORD_BYTES as u128
}

/// A string field: its UTF-8 byte length as a little-endian u64, then its
/// UTF-8 bytes.
pub open spec fn spec_enc_str(s: Seq<char>) -> Seq<u8> {
    spec_u64_to_le_bytes(encode_utf8(s).len() as u64) + encode_utf8(s)
}

/// A boolean: one byte, 0 or 1.
pub open spec fn spec_enc_bool(b: bool) -> Seq<u8> {
    if b {
        seq![1u8]
    } else {
        seq![0u8]
    }
}

/// An optional timestamp: a presence byte, then the value (0 when absent).
pub open spec fn spec_enc_opt_u64(o: Option<u64>) -> Seq<u8> {
    match o {
        Some(v) => spec_enc_bool(true) + spec_u64_to_le_bytes(v),
        None => spec_enc_bool(false) + spec_u64_to_le_bytes(0),
    }
}

/// The full record layout, fields in declaration order.
pub open spec fn spec_encode_task(t: TaskSpec) -> Seq<u8> {
    spec_u64_to_le_bytes(t.id) + spec_enc_str(t.owner) + spec_enc_str(t.title) + spec_enc_str(
        t.description,
    ) + spec_u64_to_le_bytes(t.due_date) + spec_enc_bool(t.completed) + spec_u64_to_le_bytes(
        t.created_at,
    ) + spec_enc_opt_u64(t.updated_at)
}

/// Reads a little-endian u64 at offset `i`; yields the value and the next
/// offset.
pub open spec fn spec_dec_u64(b: Seq<u8>, i: int) -> Option<(u64, int)> {
    if 0 <= i && i + 8 <= b.len() {
        Some((spec_u64_from_le_bytes(b.subrange(i, i + 8)), i + 8))
    } else {
        None
    }
}

/// Reads a length-prefixed UTF-8 string at offset `i`.
pub open spec fn spec_dec_str(b: Seq<u8>, i: int) -> Option<(Seq<char>, int)> {
    match spec_dec_u64(b, i) {
        Some((n, j)) => {
            if j + n <= b.len() && valid_utf8(b.subrange(j, j + n)) {
                Some((decode_utf8(b.subrange(j, j + n)), j + n))
            } else {
                None
            }
        },
        None => None,
    }
}

/// Reads a boolean byte at offset `i`; anything but 0 or 1 is malformed.
pub open spec fn spec_dec_bool(b: Seq<u8>, i: int) -> Option<(bool, int)> {
    if 0 <= i && i + 1 <= b.len() && (b[i] == 0 || b[i] == 1) {
        Some((b[i] == 1, i + 1))
    } else {
        None
    }
}

/// Reads an optional timestamp at offset `i`; an absent value must be
/// zero-filled.
pub open spec fn spec_dec_opt_u64(b: Seq<u8>, i: int) -> Option<(Option<u64>, int)> {
    match spec_dec_bool(b, i) {
        Some((tag, j)) => match spec_dec_u64(b, j) {
            Some((v, k)) => {
                if !tag && v != 0 {
                    None
                } else {
                    Some((if tag { Some(v) } else { None }, k))
                }
            },
            None => None,
        },
        None => None,
    }
}

/// Decodes a full record; fails on any malformed or trailing bytes.
pub open spec fn spec_decode_task(b: Seq<u8>) -> Option<TaskSpec> {
    match spec_dec_u64(b, 0) {
        Some((id, o1)) => match spec_dec_str(b, o1) {
            Some((owner, o2)) => match spec_dec_str(b, o2) {
                Some((title, o3)) => match spec_dec_str(b, o3) {
                    Some((description, o4)) => match spec_dec_u64(b, o4) {
                        Some((due_date, o5)) => match spec_dec_bool(b, o5) {
                            Some((completed, o6)) => match spec_dec_u64(b, o6) {
                                Some((created_at, o7)) => match spec_dec_opt_u64(b, o7) {
                                    Some((updated_at, o8)) => {
                                        if o8 == b.len() {
                                            Some(
                                                TaskSpec {
                                                    id,
                                                    owner,
                                                    title,
                                                    description,
                                                    due_date,
                                                    completed,
                                                    created_at,
                                                    updated_at,
                                                },
                                            )
                                        } else {
                                            None
                                        }
                                    },
                                    None => None,
                                },
                                None => None,
                            },
                            None => None,
                        },
                        None => None,
                    },
                    None => None,
                },
                None => None,
            },
            None => None,
        },
        None => None,
    }
}

proof fn lemma_dec_str_at(b: Seq<u8>, i: int, s: Seq<char>)
    requires
        0 <= i,
        encode_utf8(s).len() <= u64::MAX,
        i + 8 + encode_utf8(s).len() <= b.len(),
        b.subrange(i, i + 8 + encode_utf8(s).len()) == spec_enc_str(s),
    ensures
        spec_dec_str(b, i) == Some((s, i + 8 + encode_utf8(s).len())),
{
    broadcast use vstd::utf8::encode_utf8_valid_utf8, vstd::utf8::encode_utf8_decode_utf8;

    lemma_auto_spec_u64_to_from_le_bytes();
    let u = encode_utf8(s);
    let n = u.len() as u64;
    let whole = b.subrange(i, i + 8 + u.len());
    assert(spec_u64_to_le_bytes(n).len() == 8);
    assert forall|k: int| 0 <= k < 8 implies b.subrange(i, i + 8)[k] == spec_u64_to_le_bytes(n)[k] by {
        assert(whole[k] == b[i + k]);
        assert(whole[k] == spec_u64_to_le_bytes(n)[k]);
    }
    assert(b.subrange(i, i + 8) =~= spec_u64_to_le_bytes(n));
    assert(spec_dec_u64(b, i) == Some((n, i + 8)));
    assert forall|k: int| 0 <= k < u.len() implies b.subrange(i + 8, i + 8 + u.len())[k] == u[k] by {
        assert(whole[8 + k] == b[i + 8 + k]);
        assert(whole[8 + k] == u[k]);
    }
    assert(b.subrange(i + 8, i + 8 + u.len()) =~= u);
    assert(valid_utf8(u));
    assert(decode_utf8(u) == s);
}

/// Round-trip: decoding an encoded record yields the record itself, for any
/// record whose string fields have representable lengths.
pub proof fn lemma_encode_decode_task(t: TaskSpec)
    requires
        encode_utf8(t.owner).len() <= u64::MAX,
        encode_utf8(t.title).len() <= u64::MAX,
        encode_utf8(t.description).len() <= u64::MAX,
    ensures
        spec_decode_task(spec_encode_task(t)) == Some(t),
{
    lemma_auto_spec_u64_to_from_le_bytes();
    let uo = encode_utf8(t.owner);
    let ut = encode_utf8(t.title);
    let ud = encode_utf8(t.description);
    let b = spec_encode_task(t);
    let o1: int = 8;
    let o2: int = o1 + 8 + uo.len();
    let o3: int = o2 + 8 + ut.len();
    let o4: int = o3 + 8 + ud.len();
    let o5: int = o4 + 8;
    let o6: int = o5 + 1;
    let o7: int = o6 + 8;
    let o8: int = o7 + 9;
    assert(b.len() == o8);
    assert(b.subrange(0, 8) =~= spec_u64_to_le_bytes(t.id));
    assert(spec_dec_u64(b, 0) == Some((t.id, o1)));
    assert(b.subrange(o1, o2) =~= spec_enc_str(t.owner));
    lemma_dec_str_at(b, o1, t.owner);
    assert(b.subrange(o2, o3) =~= spec_enc_str(t.title));
    lemma_dec_str_at(b, o2, t.title);
    assert(b.subrange(o3, o4) =~= spec_enc_str(t.description));
    lemma_dec_str_at(b, o3, t.description);
    assert(b.subrange(o4, o5) =~= spec_u64_to_le_bytes(t.due_date));
    assert(spec_dec_u64(b, o4) == Some((t.due_date, o5)));
    assert(b[o5] == spec_enc_bool(t.completed)[0]);
    assert(spec_dec_bool(b, o5) == Some((t.completed, o6)));
    assert(b.subrange(o6, o7) =~= spec_u64_to_le_bytes(t.created_at));
    assert(spec_dec_u64(b, o6) == Some((t.created_at, o7)));
    match t.updated_at {
        Some(v) => {
            assert(b[o7] == 1u8);
            assert(spec_dec_bool(b, o7) == Some((true, o7 + 1)));
            assert(b.subrange(o7 + 1, o8) =~= spec_u64_to_le_bytes(v));
            assert(spec_dec_u64(b, o7 + 1) == Some((v, o8)));
            assert(spec_dec_opt_u64(b, o7) == Some((t.updated_at, o8)));
        },
        None => {
            assert(b[o7] == 0u8);
            assert(spec_dec_bool(b, o7) == Some((false, o7 + 1)));
            assert(b.subrange(o7 + 1, o8) =~= spec_u64_to_le_bytes(0));
            assert(spec_dec_u64(b, o7 + 1) == Some((0u64, o8)));
            assert(spec_dec_opt_u64(b, o7) == Some((t.updated_at, o8)));
        },
    }
    assert(spec_decode_task(b) == Some(t));
}

proof fn lemma_enc_of_dec_str(b: Seq<u8>, i: int)
    requires
        spec_dec_str(b, i) is Some,
    ensures
        ({
            let (s, j) = spec_dec_str(b, i)->Some_0;
            &&& spec_enc_str(s) == b.subrange(i, j)
            &&& encode_utf8(s).len() == j - i - 8
            &&& i + 8 <= j <= b.len()
        }),
{
    broadcast use vstd::utf8::decode_utf8_encode_utf8;

    lemma_auto_spec_u64_to_from_le_bytes();
    let pre = b.subrange(i, i + 8);
    let n = spec_u64_from_le_bytes(pre);
    let j = i + 8 + n;
    let u = b.subrange(i + 8, j);
    let s = decode_utf8(u);
    assert(encode_utf8(s) == u);
    assert(spec_u64_to_le_bytes(n) == pre);
    assert(spec_enc_str(s) == pre + u);
    assert(spec_enc_str(s) =~= b.subrange(i, j));
}

/// Canonicity: a byte string that decodes at all is exactly the encoding of
/// the record it decodes to, so each record has one stored representation.
pub proof fn lemma_decode_encode_task(b: Seq<u8>)
    requires
        spec_decode_task(b) is Some,
    ensures
        spec_encode_task(spec_decode_task(b)->Some_0) == b,
{
    lemma_auto_spec_u64_to_from_le_bytes();
    let t = spec_decode_task(b)->Some_0;
    let (id, o1) = spec_dec_u64(b, 0)->Some_0;
    let (owner, o2) = spec_dec_str(b, o1)->Some_0;
    let (title, o3) = spec_dec_str(b, o2)->Some_0;
    let (description, o4) = spec_dec_str(b, o3)->Some_0;
    let (due_date, o5) = spec_dec_u64(b, o4)->Some_0;
    let (completed, o6) = spec_dec_bool(b, o5)->Some_0;
    let (created_at, o7) = spec_dec_u64(b, o6)->Some_0;
    let (updated_at, o8) = spec_dec_opt_u64(b, o7)->Some_0;
    assert(o8 == b.len());
    assert(spec_u64_to_le_bytes(id) == b.subrange(0, o1));
    lemma_enc_of_dec_str(b, o1);
    lemma_enc_of_dec_str(b, o2);
    lemma_enc_of_dec_str(b, o3);
    assert(spec_u64_to_le_bytes(due_date) == b.subrange(o4, o5));
    assert(spec_enc_bool(completed) =~= b.subrange(o5, o6));
    assert(spec_u64_to_le_bytes(created_at) == b.subrange(o6, o7));
    assert(spec_enc_bool(updated_at is Some) =~= b.subrange(o7, o7 + 1));
    assert(spec_u64_to_le_bytes(spec_dec_u64(b, o7 + 1)->Some_0.0) == b.subrange(o7 + 1, o8));
    assert(spec_enc_opt_u64(updated_at) =~= b.subrange(o7, o8));
    assert(spec_encode_task(t) =~= b);
}

fn append_u64(out: &mut Vec<u8>, v: u64)
    ensures
        final(out)@ == old(out)@ + spec_u64_to_le_bytes(v),
{
    let mut b = u64_to_le_bytes(v);
    out.append(&mut b);
}

fn append_str(out: &mut Vec<u8>, s: &String)
    ensures
        final(out)@ == old(out)@ + spec_enc_str(s@),
{
    let mut bytes = slice_to_vec(s.as_str().as_bytes());
    append_u64(out, bytes.len() as u64);
    out.append(&mut bytes);
    assert(out@ =~= old(out)@ + spec_enc_str(s@));
}

/// Encodes a record into the byte layout `spec_encode_task` describes.
pub fn encode_task(t: &Task) -> (r: Vec<u8>)
    ensures
        r@ == spec_encode_task(t@),
{
    let mut out: Vec<u8> = Vec::new();
    append_u64(&mut out, t.id);
    append_str(&mut out, &t.owner);
    append_str(&mut out, &t.title);
    append_str(&mut out, &t.description);
    append_u64(&mut out, t.due_date);
    out.push(if t.completed {
        1u8
    } else {
        0u8
    });
    append_u64(&mut out, t.created_at);
    match t.updated_at {
        Some(v) => {
            out.push(1u8);
            append_u64(&mut out, v);
        },
        None => {
            out.push(0u8);
            append_u64(&mut out, 0);
        },
    }
    assert(out@ =~= spec_encode_task(t@));
    out
}

/// Relies on `String::from_utf8`: succeeds exactly on well-formed UTF-8 and
/// returns the string those bytes spell.
#[verifier::external_body]
fn string_from_utf8(v: Vec<u8>) -> (r: Option<String>)
    ensures
        match r {
            Some(s) => valid_utf8(v@) && s@ == decode_utf8(v@),
            None => !valid_utf8(v@),
        },
{
    String::from_utf8(v).ok()
}

fn read_u64(b: &Vec<u8>, i: usize) -> (r: Option<(u64, usize)>)
    ensures
        match r {
            Some(p) => spec_dec_u64(b@, i as int) == Some((p.0, p.1 as int)),
            None => spec_dec_u64(b@, i as int) is None,
        },
{
    if b.len() >= 8 && i <= b.len() - 8 {
        let s = slice_subrange(b.as_slice(), i, i + 8);
        let v = u64_from_le_bytes(s);
        Some((v, i + 8))
    } else {
        None
    }
}

fn read_string(b: &Vec<u8>, i: usize) -> (r: Option<(String, usize)>)
    ensures
        match r {
            Some(p) => spec_dec_str(b@, i as int) matches Some(q) && p.0@ == q.0 && p.1 as int
                == q.1,
            None => spec_dec_str(b@, i as int) is None,
        },
{
    match read_u64(b, i) {
        Some((n, j)) => {
            if n <= (b.len() - j) as u64 {
                let n_us = n as usize;
                assert(n_us as u64 == n);
                let sl = slice_subrange(b.as_slice(), j, j + n_us);
                let v = slice_to_vec(sl);
                match string_from_utf8(v) {
                    Some(s) => Some((s, j + n_us)),
                    None => None,
                }
            } else {
                None
            }
        },
        None => None,
    }
}

fn read_bool(b: &Vec<u8>, i: usize) -> (r: Option<(bool, usize)>)
    ensures
        match r {
            Some(p) => spec_dec_bool(b@, i as int) == Some((p.0, p.1 as int)),
            None => spec_dec_bool(b@, i as int) is None,
        },
{
    if i < b.len() {
        let byte = b[i];
        if byte == 0 || byte == 1 {
            Some((byte == 1, i + 1))
        } else {
            None
        }
    } else {
        None
    }
}

fn read_opt_u64(b: &Vec<u8>, i: usize) -> (r: Option<(Option<u64>, usize)>)
    ensures
        match r {
            Some(p) => spec_dec_opt_u64(b@, i as int) == Some((p.0, p.1 as int)),
            None => spec_dec_opt_u64(b@, i as int) is None,
        },
{
    match read_bool(b, i) {
        Some((tag, j)) => match read_u64(b, j) {
            Some((v, k)) => {
                if !tag && v != 0 {
                    None
                } else {
                    Some((
                        if tag {
                            Some(v)
                        } else {
                            None
                        },
                        k,
                    ))
                }
            },
            None => None,
        },
        None => None,
    }
}

/// Decodes a record from the byte layout, failing exactly where
/// `spec_decode_task` does.
pub fn decode_task(b: &Vec<u8>) -> (r: Option<Task>)
    ensures
        match r {
            Some(t) => spec_decode_task(b@) == Some(t@),
            None => spec_decode_task(b@) is None,
        },
{
    let id_r = read_u64(b, 0);
    if id_r.is_none() {
        return None;
    }
    let (id, o1) = id_r.unwrap();
    let owner_r = read_string(b, o1);
    if owner_r.is_none() {
        return None;
    }
    let (owner, o2) = owner_r.unwrap();
    let title_r = read_string(b, o2);
    if title_r.is_none() {
        return None;
    }
    let (title, o3) = title_r.unwrap();
    let desc_r = read_string(b, o3);
    if desc_r.is_none() {
        return None;
    }
    let (description, o4) = desc_r.unwrap();
    let due_r = read_u64(b, o4);
    if due_r.is_none() {
        return None;
    }
    let (due_date, o5) = due_r.unwrap();
    let comp_r = read_bool(b, o5);
    if comp_r.is_none() {
        return None;
    }
    let (completed, o6) = comp_r.unwrap();
    let created_r = read_u64(b, o6);
    if created_r.is_none() {
        return None;
    }
    let (created_at, o7) = created_r.unwrap();
    let upd_r = read_opt_u64(b, o7);
    if upd_r.is_none() {
        return None;
    }
    let (updated_at, o8) = upd_r.unwrap();
    if o8 != b.len() {
        return None;
    }
    let t = Task { id, owner, title, description, due_date, completed, created_at, updated_at };
    assert(spec_decode_task(b@) == Some(t@));
    Some(t)
}

} // verus!
