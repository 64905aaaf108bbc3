//! A byte codec for the recursive parameter value model: the
//! interconversion between a [`ParameterValue`] and the flat byte sequence
//! the transport carries.
//!
//! Every node is a tag byte followed by its payload; byte strings, arrays,
//! dictionaries and keys carry a 64-bit big-endian length or count, and
//! keys travel as UTF-8.  Encoding and decoding are specified as spec
//! functions over the mathematical model, the executable functions are
//! proved to match them exactly, and decoding an encoding is proved to
//! reproduce the original value.

use vstd::prelude::*;
use vstd::utf8::{decode_utf8, encode_utf8, valid_utf8};

use crate::values::{model_entries, model_seq, ParameterValue, ValueModel};

verus! {

/// Tag byte of a number node.
pub const TAG_NUMBER: u8 = 0;

/// Tag byte of a boolean node.
pub const TAG_BOOL: u8 = 1;

/// Tag byte of a byte-string node.
pub const TAG_BYTES: u8 = 2;

/// Tag byte of an array node.
pub const TAG_ARRAY: u8 = 3;

/// Tag byte of a dictionary node.
pub const TAG_DICT: u8 = 4;

/// The eight big-endian bytes of a 64-bit integer.
pub open spec fn enc_u64(n: u64) -> Seq<u8> {
    seq![
        ((n >> 56) & 0xff) as u8,
        ((n >> 48) & 0xff) as u8,
        ((n >> 40) & 0xff) as u8,
        ((n >> 32) & 0xff) as u8,
        ((n >> 24) & 0xff) as u8,
        ((n >> 16) & 0xff) as u8,
        ((n >> 8) & 0xff) as u8,
        (n & 0xff) as u8,
    ]
}

/// The 64-bit integer read big-endian from the first eight bytes.
pub open spec fn dec_u64(b: Seq<u8>) -> u64 {
    ((b[0] as u64) << 56) | ((b[1] as u64) << 48) | ((b[2] as u64) << 40) | ((b[3] as u64) << 32)
        | ((b[4] as u64) << 24) | ((b[5] as u64) << 16) | ((b[6] as u64) << 8) | (b[7] as u64)
}

/// Reading back the eight big-endian bytes of an integer yields the
/// integer.
pub proof fn lemma_u64_round_trip(n: u64)
    ensures
        dec_u64(enc_u64(n)) == n,
{
    assert((((((n >> 56) & 0xff) as u8) as u64) << 56) | (((((n >> 48) & 0xff) as u8) as u64)
        << 48) | (((((n >> 40) & 0xff) as u8) as u64) << 40) | (((((n >> 32) & 0xff) as u8) as u64)
        << 32) | (((((n >> 24) & 0xff) as u8) as u64) << 24) | (((((n >> 16) & 0xff) as u8) as u64)
        << 16) | (((((n >> 8) & 0xff) as u8) as u64) << 8) | (((n & 0xff) as u8) as u64) == n)
        by (bit_vector);
}

/// The encoding of a key: the byte length of its UTF-8 form, then the
/// UTF-8 bytes themselves.
pub open spec fn enc_str(s: Seq<char>) -> Seq<u8> {
    enc_u64(encode_utf8(s).len() as u64) + encode_utf8(s)
}

/// The encoding of one model value.
pub open spec fn spec_encode(m: ValueModel) -> Seq<u8>
    decreases m,
{
    match m {
        ValueModel::Number(bits) => seq![TAG_NUMBER] + enc_u64(bits),
        ValueModel::Bool(v) => seq![
            TAG_BOOL,
            if v {
                1u8
            } else {
                0u8
            },
        ],
        ValueModel::Bytes(bs) => seq![TAG_BYTES] + enc_u64(bs.len() as u64) + bs,
        ValueModel::Array(vs) => seq![TAG_ARRAY] + enc_u64(vs.len() as u64) + spec_encode_list(vs),
        ValueModel::Dict(es) => seq![TAG_DICT] + enc_u64(es.len() as u64) + spec_encode_entries(es),
    }
}

/// The concatenated encodings of a sequence of values.
pub open spec fn spec_encode_list(vs: Seq<ValueModel>) -> Seq<u8>
    decreases vs,
{
    if vs.len() == 0 {
        Seq::empty()
    } else {
        spec_encode(vs[0]) + spec_encode_list(vs.subrange(1, vs.len() as int))
    }
}

/// The concatenated encodings of a sequence of dictionary entries, each a
/// key followed by its value.
pub open spec fn spec_encode_entries(es: Seq<(Seq<char>, ValueModel)>) -> Seq<u8>
    decreases es,
{
    if es.len() == 0 {
        Seq::empty()
    } else {
        enc_str(es[0].0) + spec_encode(es[0].1) + spec_encode_entries(
            es.subrange(1, es.len() as int),
        )
    }
}

/// The machine limit under which an encoding is faithful: every byte
/// string, array, dictionary and UTF-8 key length fits the 64-bit length
/// fields.  Every value built from in-memory vectors and strings is under
/// it.
pub open spec fn size_ok(m: ValueModel) -> bool
    decreases m,
{
    match m {
        ValueModel::Number(_) => true,
        ValueModel::Bool(_) => true,
        ValueModel::Bytes(bs) => bs.len() <= u64::MAX,
        ValueModel::Array(vs) => vs.len() <= u64::MAX && forall|i: int|
            0 <= i < vs.len() ==> size_ok(#[trigger] vs[i]),
        ValueModel::Dict(es) => es.len() <= u64::MAX && forall|i: int|
            0 <= i < es.len() ==> encode_utf8((#[trigger] es[i]).0).len() <= u64::MAX && size_ok(
                es[i].1,
            ),
    }
}

/// Decodes a key at the front of `b`: `Some` holds the characters and the
/// bytes consumed.
pub open spec fn spec_decode_str(b: Seq<u8>) -> Option<(Seq<char>, int)> {
    if b.len() >= 8 {
        let n = dec_u64(b.subrange(0, 8)) as int;
        if 8 + n <= b.len() && valid_utf8(b.subrange(8, 8 + n)) {
            Some((decode_utf8(b.subrange(8, 8 + n)), 8 + n))
        } else {
            None
        }
    } else {
        None
    }
}

/// Decodes one value at the front of `b`: `Some` holds the value and the
/// bytes consumed.
pub open spec fn spec_decode(b: Seq<u8>) -> Option<(ValueModel, int)>
    decreases b.len(), 0int,
{
    if b.len() < 1 {
        None
    } else if b[0] == TAG_NUMBER {
        if b.len() >= 9 {
            Some((ValueModel::Number(dec_u64(b.subrange(1, 9))), 9))
        } else {
            None
        }
    } else if b[0] == TAG_BOOL {
        if b.len() >= 2 && (b[1] == 0 || b[1] == 1) {
            Some((ValueModel::Bool(b[1] == 1), 2))
        } else {
            None
        }
    } else if b[0] == TAG_BYTES {
        if b.len() >= 9 {
            let n = dec_u64(b.subrange(1, 9)) as int;
            if 9 + n <= b.len() {
                Some((ValueModel::Bytes(b.subrange(9, 9 + n)), 9 + n))
            } else {
                None
            }
        } else {
            None
        }
    } else if b[0] == TAG_ARRAY {
        if b.len() >= 9 {
            let k = dec_u64(b.subrange(1, 9)) as int;
            match spec_decode_list(b.skip(9), k) {
                Some((vs, n)) => Some((ValueModel::Array(vs), 9 + n)),
                None => None,
            }
        } else {
            None
        }
    } else if b[0] == TAG_DICT {
        if b.len() >= 9 {
            let k = dec_u64(b.subrange(1, 9)) as int;
            match spec_decode_entries(b.skip(9), k) {
                Some((es, n)) => Some((ValueModel::Dict(es), 9 + n)),
                None => None,
            }
        } else {
            None
        }
    } else {
        None
    }
}

/// Decodes `k` consecutive values at the front of `b`.
pub open spec fn spec_decode_list(b: Seq<u8>, k: int) -> Option<(Seq<ValueModel>, int)>
    decreases b.len(), 1int,
{
    if k <= 0 {
        Some((Seq::empty(), 0))
    } else {
        match spec_decode(b) {
            None => None,
            Some((v, n)) => if 1 <= n <= b.len() {
                match spec_decode_list(b.skip(n), k - 1) {
                    Some((vs, n2)) => Some((vs.insert(0, v), n + n2)),
                    None => None,
                }
            } else {
                None
            },
        }
    }
}

/// Decodes `k` consecutive key/value entries at the front of `b`.
pub open spec fn spec_decode_entries(b: Seq<u8>, k: int) -> Option<
    (Seq<(Seq<char>, ValueModel)>, int),
>
    decreases b.len(), 1int,
{
    if k <= 0 {
        Some((Seq::empty(), 0))
    } else {
        match spec_decode_str(b) {
            None => None,
            Some((s, ns)) => if 1 <= ns <= b.len() {
                match spec_decode(b.skip(ns)) {
                    None => None,
                    Some((v, nv)) => if 1 <= nv <= b.len() - ns {
                        match spec_decode_entries(b.skip(ns + nv), k - 1) {
                            Some((es, n2)) => Some((es.insert(0, (s, v)), ns + nv + n2)),
                            None => None,
                        }
                    } else {
                        None
                    },
                }
            } else {
                None
            },
        }
    }
}

/// Appending one value to a list appends its encoding.
pub proof fn lemma_encode_list_push(vs: Seq<ValueModel>, x: ValueModel)
    ensures
        spec_encode_list(vs.push(x)) == spec_encode_list(vs) + spec_encode(x),
    decreases vs,
{
    if vs.len() == 0 {
        let s1 = vs.push(x);
        assert(s1[0] == x);
        assert(s1.subrange(1, 1) =~= Seq::<ValueModel>::empty());
        assert(spec_encode_list(s1) == spec_encode(x) + spec_encode_list(s1.subrange(1, 1)));
        assert(spec_encode_list(s1) =~= spec_encode_list(vs) + spec_encode(x));
    } else {
        let tail = vs.subrange(1, vs.len() as int);
        assert(vs.push(x)[0] == vs[0]);
        assert(vs.push(x).subrange(1, vs.push(x).len() as int) =~= tail.push(x));
        lemma_encode_list_push(tail, x);
        assert(spec_encode_list(vs.push(x)) == spec_encode(vs[0]) + (spec_encode_list(tail)
            + spec_encode(x)));
        assert(spec_encode(vs[0]) + (spec_encode_list(tail) + spec_encode(x)) =~= (spec_encode(
            vs[0],
        ) + spec_encode_list(tail)) + spec_encode(x));
    }
}

/// Appending one entry to a dictionary appends its key and value
/// encodings.
pub proof fn lemma_encode_entries_push(es: Seq<(Seq<char>, ValueModel)>, x: (Seq<char>, ValueModel))
    ensures
        spec_encode_entries(es.push(x)) == spec_encode_entries(es) + enc_str(x.0) + spec_encode(
            x.1,
        ),
    decreases es,
{
    if es.len() == 0 {
        let s1 = es.push(x);
        assert(s1[0] == x);
        assert(s1.subrange(1, 1) =~= Seq::<(Seq<char>, ValueModel)>::empty());
        assert(spec_encode_entries(s1) == enc_str(x.0) + spec_encode(x.1) + spec_encode_entries(
            s1.subrange(1, 1),
        ));
        assert(spec_encode_entries(s1) =~= spec_encode_entries(es) + enc_str(x.0) + spec_encode(
            x.1,
        ));
    } else {
        let tail = es.subrange(1, es.len() as int);
        let head = enc_str(es[0].0) + spec_encode(es[0].1);
        assert(es.push(x)[0] == es[0]);
        assert(es.push(x).subrange(1, es.push(x).len() as int) =~= tail.push(x));
        lemma_encode_entries_push(tail, x);
        assert(spec_encode_entries(es.push(x)) == head + (spec_encode_entries(tail) + enc_str(x.0)
            + spec_encode(x.1)));
        assert(head + (spec_encode_entries(tail) + enc_str(x.0) + spec_encode(x.1)) =~= (head
            + spec_encode_entries(tail)) + enc_str(x.0) + spec_encode(x.1));
    }
}

/// Writes the eight big-endian bytes of `n`.
fn write_u64(out: &mut Vec<u8>, n: u64)
    ensures
        final(out)@ == old(out)@ + enc_u64(n),
{
    out.push(((n >> 56) & 0xff) as u8);
    out.push(((n >> 48) & 0xff) as u8);
    out.push(((n >> 40) & 0xff) as u8);
    out.push(((n >> 32) & 0xff) as u8);
    out.push(((n >> 24) & 0xff) as u8);
    out.push(((n >> 16) & 0xff) as u8);
    out.push(((n >> 8) & 0xff) as u8);
    out.push((n & 0xff) as u8);
    proof {
        assert(out@ =~= old(out)@ + enc_u64(n));
    }
}

/// Writes the length-prefixed UTF-8 form of a key.
fn write_str(out: &mut Vec<u8>, s: &String)
    ensures
        final(out)@ == old(out)@ + enc_str(s@),
{
    let bytes = s.as_str().as_bytes();
    write_u64(out, bytes.len() as u64);
    let mut i: usize = 0;
    let ghost mid = out@;
    while i < bytes.len()
        invariant
            i <= bytes.len(),
            bytes@ == encode_utf8(s@),
            out@ == mid + bytes@.subrange(0, i as int),
        decreases bytes.len() - i,
    {
        out.push(bytes[i]);
        proof {
            assert(out@ =~= mid + bytes@.subrange(0, i + 1));
        }
        i = i + 1;
    }
    proof {
        assert(bytes@.subrange(0, bytes@.len() as int) =~= bytes@);
        assert(out@ =~= old(out)@ + enc_str(s@));
    }
}

/// Appends the encoding of one value.
pub fn encode_value(v: &ParameterValue, out: &mut Vec<u8>)
    ensures
        final(out)@ == old(out)@ + spec_encode(v@),
    decreases *v,
{
    match v {
        ParameterValue::Number(bits) => {
            out.push(TAG_NUMBER);
            write_u64(out, *bits);
            proof {
                assert(out@ =~= old(out)@ + spec_encode(v@));
            }
        },
        ParameterValue::Bool(val) => {
            out.push(TAG_BOOL);
            out.push(if *val { 1 } else { 0 });
            proof {
                assert(out@ =~= old(out)@ + spec_encode(v@));
            }
        },
        ParameterValue::Bytes(bs) => {
            out.push(TAG_BYTES);
            write_u64(out, bs.len() as u64);
            let ghost mid = out@;
            let mut i: usize = 0;
            while i < bs.len()
                invariant
                    i <= bs.len(),
                    out@ == mid + bs@.subrange(0, i as int),
                decreases bs.len() - i,
            {
                out.push(bs[i]);
                proof {
                    assert(out@ =~= mid + bs@.subrange(0, i + 1));
                }
                i = i + 1;
            }
            proof {
                assert(bs@.subrange(0, bs@.len() as int) =~= bs@);
                assert(out@ =~= old(out)@ + spec_encode(v@));
            }
        },
        ParameterValue::Array(vs) => {
            let ghost mseq = model_seq(vs@);
            proof {
                crate::values::lemma_model_seq(vs@);
            }
            out.push(TAG_ARRAY);
            write_u64(out, vs.len() as u64);
            let ghost mid = out@;
            let mut i: usize = 0;
            while i < vs.len()
                invariant
                    i <= vs.len(),
                    mseq == model_seq(vs@),
                    mseq.len() == vs@.len(),
                    forall|j: int| 0 <= j < vs@.len() ==> mseq[j] == vs@[j].model(),
                    *v == ParameterValue::Array(*vs),
                    out@ == mid + spec_encode_list(mseq.subrange(0, i as int)),
                decreases vs.len() - i,
            {
                proof {
                    assert(decreases_to!(*v => vs@[i as int])) by {
                        assert(*v == ParameterValue::Array(*vs));
                        assert(decreases_to!(*v => v->Array_0));
                        assert(decreases_to!(*vs => vs@));
                        assert(decreases_to!(vs@ => vs@[i as int]));
                    }
                }
                encode_value(&vs[i], out);
                proof {
                    lemma_encode_list_push(mseq.subrange(0, i as int), mseq[i as int]);
                    assert(mseq.subrange(0, i + 1) =~= mseq.subrange(0, i as int).push(
                        mseq[i as int],
                    ));
                    assert(out@ =~= mid + spec_encode_list(mseq.subrange(0, i + 1)));
                }
                i = i + 1;
            }
            proof {
                assert(mseq.subrange(0, mseq.len() as int) =~= mseq);
                assert(out@ =~= old(out)@ + spec_encode(v@));
            }
        },
        ParameterValue::Dict(es) => {
            let ghost ments = model_entries(es@);
            proof {
                crate::values::lemma_model_entries(es@);
            }
            out.push(TAG_DICT);
            write_u64(out, es.len() as u64);
            let ghost mid = out@;
            let mut i: usize = 0;
            while i < es.len()
                invariant
                    i <= es.len(),
                    ments == model_entries(es@),
                    ments.len() == es@.len(),
                    forall|j: int|
                        0 <= j < es@.len() ==> ments[j] == (es@[j].0@, es@[j].1.model()),
                    *v == ParameterValue::Dict(*es),
                    out@ == mid + spec_encode_entries(ments.subrange(0, i as int)),
                decreases es.len() - i,
            {
                let entry = &es[i];
                write_str(out, &entry.0);
                proof {
                    assert(decreases_to!(*v => es@[i as int].1)) by {
                        assert(*v == ParameterValue::Dict(*es));
                        assert(decreases_to!(*v => v->Dict_0));
                        assert(decreases_to!(*es => es@));
                        assert(decreases_to!(es@ => es@[i as int]));
                        assert(decreases_to!(es@[i as int] => es@[i as int].1));
                    }
                }
                encode_value(&entry.1, out);
                proof {
                    lemma_encode_entries_push(ments.subrange(0, i as int), ments[i as int]);
                    assert(ments.subrange(0, i + 1) =~= ments.subrange(0, i as int).push(
                        ments[i as int],
                    ));
                    assert(out@ =~= mid + spec_encode_entries(ments.subrange(0, i + 1)));
                }
                i = i + 1;
            }
            proof {
                assert(ments.subrange(0, ments.len() as int) =~= ments);
                assert(out@ =~= old(out)@ + spec_encode(v@));
            }
        },
    }
}

/// Round trip of one value, compositionally: at the front of any buffer,
/// the encoding of `m` decodes back to `m`, consuming exactly itself.
pub proof fn lemma_round_trip_value(m: ValueModel, rest: Seq<u8>)
    requires
        size_ok(m),
    ensures
        spec_encode(m).len() >= 1,
        spec_decode(spec_encode(m) + rest) == Some((m, spec_encode(m).len() as int)),
    decreases m,
{
    let e = spec_encode(m);
    let b = e + rest;
    match m {
        ValueModel::Number(bits) => {
            assert(b[0] == TAG_NUMBER);
            assert(b.subrange(1, 9) =~= enc_u64(bits));
            lemma_u64_round_trip(bits);
        },
        ValueModel::Bool(v) => {
            assert(b[0] == TAG_BOOL);
            assert(b[1] == if v { 1u8 } else { 0u8 });
        },
        ValueModel::Bytes(bs) => {
            let len64 = bs.len() as u64;
            assert(b[0] == TAG_BYTES);
            assert(b.subrange(1, 9) =~= enc_u64(len64));
            lemma_u64_round_trip(len64);
            assert(len64 as int == bs.len());
            assert(b.subrange(9, 9 + bs.len() as int) =~= bs);
            assert(e.len() == 9 + bs.len());
        },
        ValueModel::Array(vs) => {
            let k64 = vs.len() as u64;
            let lst = spec_encode_list(vs);
            assert(b[0] == TAG_ARRAY);
            assert(b.subrange(1, 9) =~= enc_u64(k64));
            lemma_u64_round_trip(k64);
            assert(k64 as int == vs.len());
            assert(b.skip(9) =~= lst + rest);
            lemma_round_trip_list(vs, rest);
            assert(e.len() == 9 + lst.len());
        },
        ValueModel::Dict(es) => {
            let k64 = es.len() as u64;
            let ent = spec_encode_entries(es);
            assert(b[0] == TAG_DICT);
            assert(b.subrange(1, 9) =~= enc_u64(k64));
            lemma_u64_round_trip(k64);
            assert(k64 as int == es.len());
            assert(b.skip(9) =~= ent + rest);
            lemma_round_trip_entries(es, rest);
            assert(e.len() == 9 + ent.len());
        },
    }
}

/// Round trip of a value sequence at the front of any buffer.
pub proof fn lemma_round_trip_list(vs: Seq<ValueModel>, rest: Seq<u8>)
    requires
        forall|i: int| 0 <= i < vs.len() ==> size_ok(#[trigger] vs[i]),
    ensures
        spec_decode_list(spec_encode_list(vs) + rest, vs.len() as int) == Some(
            (vs, spec_encode_list(vs).len() as int),
        ),
    decreases vs,
{
    if vs.len() == 0 {
        assert(spec_encode_list(vs) + rest =~= rest);
        assert(vs =~= Seq::<ValueModel>::empty());
    } else {
        let tail = vs.subrange(1, vs.len() as int);
        let e0 = spec_encode(vs[0]);
        let lt = spec_encode_list(tail);
        let b = spec_encode_list(vs) + rest;
        assert(b =~= e0 + (lt + rest));
        lemma_round_trip_value(vs[0], lt + rest);
        assert(spec_decode(b) == Some((vs[0], e0.len() as int)));
        assert(b.skip(e0.len() as int) =~= lt + rest);
        assert forall|i: int| 0 <= i < tail.len() implies size_ok(#[trigger] tail[i]) by {
            assert(tail[i] == vs[i + 1]);
        }
        lemma_round_trip_list(tail, rest);
        assert(tail.insert(0, vs[0]) =~= vs);
        assert(spec_encode_list(vs).len() == e0.len() + lt.len());
    }
}

/// Round trip of a key at the front of any buffer.
pub proof fn lemma_round_trip_str(s: Seq<char>, rest: Seq<u8>)
    requires
        encode_utf8(s).len() <= u64::MAX,
    ensures
        enc_str(s).len() >= 8,
        spec_decode_str(enc_str(s) + rest) == Some((s, enc_str(s).len() as int)),
{
    let u = encode_utf8(s).len() as u64;
    let b = enc_str(s) + rest;
    assert(b.subrange(0, 8) =~= enc_u64(u));
    lemma_u64_round_trip(u);
    assert(u as int == encode_utf8(s).len());
    assert(b.subrange(8, 8 + encode_utf8(s).len() as int) =~= encode_utf8(s));
    vstd::utf8::encode_utf8_valid_utf8(s);
    vstd::utf8::encode_utf8_decode_utf8(s);
}

/// Round trip of a dictionary entry sequence at the front of any buffer.
#[verifier::rlimit(60)]
pub proof fn lemma_round_trip_entries(es: Seq<(Seq<char>, ValueModel)>, rest: Seq<u8>)
    requires
        forall|i: int|
            0 <= i < es.len() ==> encode_utf8((#[trigger] es[i]).0).len() <= u64::MAX && size_ok(
                es[i].1,
            ),
    ensures
        spec_decode_entries(spec_encode_entries(es) + rest, es.len() as int) == Some(
            (es, spec_encode_entries(es).len() as int),
        ),
    decreases es,
{
    if es.len() == 0 {
        assert(spec_encode_entries(es) + rest =~= rest);
        assert(es =~= Seq::<(Seq<char>, ValueModel)>::empty());
    } else {
        let tail = es.subrange(1, es.len() as int);
        let s0 = es[0].0;
        let v0 = es[0].1;
        let ks = enc_str(s0);
        let ev = spec_encode(v0);
        let lt = spec_encode_entries(tail);
        let b = spec_encode_entries(es) + rest;
        assert(b =~= ks + (ev + (lt + rest)));
        lemma_round_trip_str(s0, ev + (lt + rest));
        assert(spec_decode_str(b) == Some((s0, ks.len() as int)));
        assert(b.skip(ks.len() as int) =~= ev + (lt + rest));
        assert(decreases_to!(es => v0)) by {
            assert(decreases_to!(es => es[0]));
            assert(decreases_to!(es[0] => es[0].1));
        }
        lemma_round_trip_value(v0, lt + rest);
        assert(b.skip(ks.len() as int).skip(ev.len() as int) =~= lt + rest);
        assert(b.skip(ks.len() as int + ev.len() as int) =~= lt + rest);
        assert forall|i: int|
            0 <= i < tail.len() implies encode_utf8((#[trigger] tail[i]).0).len() <= u64::MAX
            && size_ok(tail[i].1) by {
            assert(tail[i] == es[i + 1]);
        }
        lemma_round_trip_entries(tail, rest);
        assert(tail.insert(0, (s0, v0)) =~= es);
        assert(es[0] == (s0, v0));
        assert(spec_encode_entries(es).len() == ks.len() + ev.len() + lt.len());
    }
}

/// Round trip through the codec: decoding the encoding of any value under
/// the machine size limit reproduces an equal structure, consuming the
/// whole encoding.
pub proof fn lemma_codec_round_trip(m: ValueModel)
    requires
        size_ok(m),
    ensures
        spec_decode(spec_encode(m)) == Some((m, spec_encode(m).len() as int)),
{
    lemma_round_trip_value(m, Seq::empty());
    assert(spec_encode(m) + Seq::<u8>::empty() =~= spec_encode(m));
}

/// Reads eight big-endian bytes at `pos`.
fn read_u64(b: &Vec<u8>, pos: usize) -> (n: u64)
    requires
        pos + 8 <= b@.len(),
    ensures
        n == dec_u64(b@.subrange(pos as int, pos as int + 8)),
{
    proof {
        assert(b.len() == b@.len());
    }
    ((b[pos] as u64) << 56) | ((b[pos + 1] as u64) << 48) | ((b[pos + 2] as u64) << 40) | ((b[pos
        + 3] as u64) << 32) | ((b[pos + 4] as u64) << 24) | ((b[pos + 5] as u64) << 16) | ((b[pos
        + 6] as u64) << 8) | (b[pos + 7] as u64)
}

/// Copies `n` bytes starting at `pos` into a fresh vector.
fn read_chunk(b: &Vec<u8>, pos: usize, n: usize) -> (r: Vec<u8>)
    requires
        pos + n <= b@.len(),
    ensures
        r@ == b@.subrange(pos as int, pos as int + n as int),
{
    proof {
        assert(b.len() == b@.len());
    }
    let mut r: Vec<u8> = Vec::new();
    let mut i: usize = 0;
    while i < n
        invariant
            i <= n,
            pos + n <= b@.len(),
            b@.len() <= usize::MAX,
            r@ == b@.subrange(pos as int, pos as int + i as int),
        decreases n - i,
    {
        r.push(b[pos + i]);
        proof {
            assert(r@ =~= b@.subrange(pos as int, pos as int + i + 1));
        }
        i = i + 1;
    }
    r
}

/// Relies on `String::from_utf8`: the call succeeds exactly when the
/// bytes are valid UTF-8, and then returns the string whose characters
/// are their UTF-8 decoding.
#[verifier::external_body]
fn bytes_to_string(bytes: Vec<u8>) -> (r: Option<String>)
    ensures
        match r {
            Some(s) => valid_utf8(bytes@) && s@ == decode_utf8(bytes@),
            None => !valid_utf8(bytes@),
        },
{
    String::from_utf8(bytes).ok()
}

/// Decodes a length-prefixed UTF-8 key at `pos`.
fn decode_string_at(b: &Vec<u8>, pos: usize) -> (r: Option<(String, usize)>)
    requires
        pos <= b@.len(),
    ensures
        match r {
            Some((s, n)) => spec_decode_str(b@.skip(pos as int)) == Some((s@, n as int)) && 8 <= n
                && pos + n <= b@.len(),
            None => spec_decode_str(b@.skip(pos as int)) is None,
        },
{
    let ghost sk = b@.skip(pos as int);
    let rem = b.len() - pos;
    if rem < 8 {
        return None;
    }
    let len64 = read_u64(b, pos);
    proof {
        assert(sk.subrange(0, 8) =~= b@.subrange(pos as int, pos as int + 8));
    }
    if len64 > (rem - 8) as u64 {
        return None;
    }
    let n = len64 as usize;
    let chunk = read_chunk(b, pos + 8, n);
    proof {
        assert(chunk@ =~= sk.subrange(8, 8 + n as int));
    }
    match bytes_to_string(chunk) {
        Some(s) => Some((s, 8 + n)),
        None => None,
    }
}

/// Decodes one value at `pos`, returning it with the bytes consumed.
pub fn decode_value_at(b: &Vec<u8>, pos: usize) -> (r: Option<(ParameterValue, usize)>)
    requires
        pos <= b@.len(),
    ensures
        match r {
            Some((v, n)) => spec_decode(b@.skip(pos as int)) == Some((v@, n as int)) && 1 <= n
                && pos + n <= b@.len(),
            None => spec_decode(b@.skip(pos as int)) is None,
        },
    decreases b@.len() - pos, 0int,
{
    let ghost sk = b@.skip(pos as int);
    let rem = b.len() - pos;
    if rem < 1 {
        return None;
    }
    let tag = b[pos];
    proof {
        assert(sk[0] == b@[pos as int]);
    }
    if tag == TAG_NUMBER {
        if rem < 9 {
            return None;
        }
        let bits = read_u64(b, pos + 1);
        proof {
            assert(sk.subrange(1, 9) =~= b@.subrange(pos + 1, pos + 1 + 8));
        }
        Some((ParameterValue::Number(bits), 9))
    } else if tag == TAG_BOOL {
        if rem < 2 {
            return None;
        }
        let byte = b[pos + 1];
        proof {
            assert(sk[1] == b@[pos + 1]);
        }
        if byte == 0 {
            Some((ParameterValue::Bool(false), 2))
        } else if byte == 1 {
            Some((ParameterValue::Bool(true), 2))
        } else {
            None
        }
    } else if tag == TAG_BYTES {
        if rem < 9 {
            return None;
        }
        let len64 = read_u64(b, pos + 1);
        proof {
            assert(sk.subrange(1, 9) =~= b@.subrange(pos + 1, pos + 1 + 8));
        }
        if len64 > (rem - 9) as u64 {
            return None;
        }
        let n = len64 as usize;
        let chunk = read_chunk(b, pos + 9, n);
        proof {
            assert(chunk@ =~= sk.subrange(9, 9 + n as int));
        }
        Some((ParameterValue::Bytes(chunk), 9 + n))
    } else if tag == TAG_ARRAY {
        if rem < 9 {
            return None;
        }
        let k64 = read_u64(b, pos + 1);
        proof {
            assert(sk.subrange(1, 9) =~= b@.subrange(pos + 1, pos + 1 + 8));
            assert(sk.skip(9) =~= b@.skip(pos + 9));
        }
        match decode_list_at(b, pos + 9, k64) {
            Some((items, n2)) => Some((ParameterValue::Array(items), 9 + n2)),
            None => None,
        }
    } else if tag == TAG_DICT {
        if rem < 9 {
            return None;
        }
        let k64 = read_u64(b, pos + 1);
        proof {
            assert(sk.subrange(1, 9) =~= b@.subrange(pos + 1, pos + 1 + 8));
            assert(sk.skip(9) =~= b@.skip(pos + 9));
        }
        match decode_entries_at(b, pos + 9, k64) {
            Some((entries, n2)) => Some((ParameterValue::Dict(entries), 9 + n2)),
            None => None,
        }
    } else {
        None
    }
}

/// Decodes `k` consecutive values at `pos`.
fn decode_list_at(b: &Vec<u8>, pos: usize, k: u64) -> (r: Option<(Vec<ParameterValue>, usize)>)
    requires
        pos <= b@.len(),
    ensures
        match r {
            Some((vs, n)) => spec_decode_list(b@.skip(pos as int), k as int) == Some(
                (model_seq(vs@), n as int),
            ) && pos + n <= b@.len(),
            None => spec_decode_list(b@.skip(pos as int), k as int) is None,
        },
    decreases b@.len() - pos, 1int,
{
    let ghost sk = b@.skip(pos as int);
    proof {
        assert(b.len() == b@.len());
    }
    if k == 0 {
        let empty: Vec<ParameterValue> = Vec::new();
        proof {
            assert(model_seq(empty@) =~= Seq::<ValueModel>::empty());
        }
        return Some((empty, 0));
    }
    match decode_value_at(b, pos) {
        None => None,
        Some((v, n)) => {
            let ghost vm = v@;
            proof {
                assert(sk.skip(n as int) =~= b@.skip(pos + n));
            }
            match decode_list_at(b, pos + n, k - 1) {
                None => None,
                Some((vs, n2)) => {
                    let ghost vold = vs@;
                    let mut vs = vs;
                    vs.insert(0, v);
                    proof {
                        assert(vs@[0]@ == vm);
                        assert(vs@.subrange(1, vs@.len() as int) =~= vold);
                        assert(model_seq(vs@) == model_seq(vold).insert(0, vm));
                    }
                    Some((vs, n + n2))
                },
            }
        },
    }
}

/// Decodes `k` consecutive key/value entries at `pos`.
fn decode_entries_at(b: &Vec<u8>, pos: usize, k: u64) -> (r: Option<
    (Vec<(String, ParameterValue)>, usize),
>)
    requires
        pos <= b@.len(),
    ensures
        match r {
            Some((es, n)) => spec_decode_entries(b@.skip(pos as int), k as int) == Some(
                (model_entries(es@), n as int),
            ) && pos + n <= b@.len(),
            None => spec_decode_entries(b@.skip(pos as int), k as int) is None,
        },
    decreases b@.len() - pos, 1int,
{
    let ghost sk = b@.skip(pos as int);
    proof {
        assert(b.len() == b@.len());
    }
    if k == 0 {
        let empty: Vec<(String, ParameterValue)> = Vec::new();
        proof {
            assert(model_entries(empty@) =~= Seq::<(Seq<char>, ValueModel)>::empty());
        }
        return Some((empty, 0));
    }
    match decode_string_at(b, pos) {
        None => None,
        Some((s, ns)) => {
            let ghost sm = s@;
            proof {
                assert(sk.skip(ns as int) =~= b@.skip(pos + ns));
            }
            match decode_value_at(b, pos + ns) {
                None => None,
                Some((v, nv)) => {
                    let ghost vm = v@;
                    proof {
                        assert(sk.skip(ns + nv as int) =~= b@.skip(pos + ns + nv));
                    }
                    match decode_entries_at(b, pos + ns + nv, k - 1) {
                        None => None,
                        Some((es, n2)) => {
                            let ghost eold = es@;
                            let mut es = es;
                            es.insert(0, (s, v));
                            proof {
                                assert(es@[0].0@ == sm);
                                assert(es@[0].1@ == vm);
                                assert(es@.subrange(1, es@.len() as int) =~= eold);
                                assert(model_entries(es@) == model_entries(eold).insert(
                                    0,
                                    (sm, vm),
                                ));
                            }
                            Some((es, ns + nv + n2))
                        },
                    }
                },
            }
        },
    }
}

/// Decodes one value from a whole buffer; trailing bytes are rejected.
pub fn decode(b: &Vec<u8>) -> (r: Option<ParameterValue>)
    ensures
        match spec_decode(b@) {
            Some((m, n)) => if n == b@.len() {
                r matches Some(v) && v@ == m
            } else {
                r is None
            },
            None => r is None,
        },
{
    proof {
        assert(b@.skip(0) =~= b@);
    }
    match decode_value_at(b, 0) {
        Some((v, n)) => if n == b.len() {
            Some(v)
        } else {
            None
        },
        None => None,
    }
}

/// Encodes one value as a fresh byte vector.
pub fn encode(v: &ParameterValue) -> (out: Vec<u8>)
    ensures
        out@ == spec_encode(v@),
{
    let mut out: Vec<u8> = Vec::new();
    encode_value(v, &mut out);
    proof {
        assert(out@ =~= spec_encode(v@));
    }
    out
}

} // verus!
