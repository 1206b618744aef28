//! Compact little-endian binary encoding of the fixed-width values that
//! handlers take and return, and of ordered argument tuples.
use vstd::prelude::*;

verus! {

/// The argument and result types that a handler can declare.
#[derive(Clone, Copy, Debug, PartialEq, Eq, Structural)]
pub enum ArgType {
    Bool,
    U8,
    U16,
    U32,
    U64,
    U128,
}

/// A decoded value of one of the supported types.
#[derive(Clone, Copy, Debug, PartialEq, Eq, Structural)]
pub enum Value {
    Bool(bool),
    U8(u8),
    U16(u16),
    U32(u32),
    U64(u64),
    U128(u128),
}

/// Number of bytes that a value of type `t` occupies once encoded.
pub open spec fn width(t: ArgType) -> nat {
    match t {
        ArgType::Bool => 1,
        ArgType::U8 => 1,
        ArgType::U16 => 2,
        ArgType::U32 => 4,
        ArgType::U64 => 8,
        ArgType::U128 => 16,
    }
}

pub open spec fn type_of(v: Value) -> ArgType {
    match v {
        Value::Bool(_) => ArgType::Bool,
        Value::U8(_) => ArgType::U8,
        Value::U16(_) => ArgType::U16,
        Value::U32(_) => ArgType::U32,
        Value::U64(_) => ArgType::U64,
        Value::U128(_) => ArgType::U128,
    }
}

pub open spec fn types_of(vs: Seq<Value>) -> Seq<ArgType> {
    vs.map_values(|v: Value| type_of(v))
}

pub open spec fn pow256(n: nat) -> nat
    decreases n,
{
    if n == 0 {
        1
    } else {
        256 * pow256((n - 1) as nat)
    }
}

/// The number whose little-endian base-256 digits are `bytes`.
pub open spec fn le_value(bytes: Seq<u8>) -> nat
    decreases bytes.len(),
{
    if bytes.len() == 0 {
        0
    } else {
        bytes[0] as nat + 256 * le_value(bytes.drop_first())
    }
}

/// The `w` lowest little-endian base-256 digits of `n`.
pub open spec fn le_bytes(n: nat, w: nat) -> Seq<u8>
    decreases w,
{
    if w == 0 {
        Seq::empty()
    } else {
        seq![(n % 256) as u8] + le_bytes(n / 256, (w - 1) as nat)
    }
}

/// The integer that a value holds (a boolean counts as 0 or 1).
pub open spec fn numeric(v: Value) -> nat {
    match v {
        Value::Bool(b) => if b { 1 } else { 0 },
        Value::U8(n) => n as nat,
        Value::U16(n) => n as nat,
        Value::U32(n) => n as nat,
        Value::U64(n) => n as nat,
        Value::U128(n) => n as nat,
    }
}

/// Encoding of one value: its little-endian bytes, one byte for a boolean.
pub open spec fn encode_value(v: Value) -> Seq<u8> {
    le_bytes(numeric(v), width(type_of(v)))
}

/// Encoding of an argument tuple: the encodings of its values in order,
/// with nothing between them.
pub open spec fn encode_args(vs: Seq<Value>) -> Seq<u8>
    decreases vs.len(),
{
    if vs.len() == 0 {
        Seq::empty()
    } else {
        encode_value(vs[0]) + encode_args(vs.drop_first())
    }
}

/// The bytes that a handler's result is returned as: none for a handler
/// without a result.
pub open spec fn encode_output(o: Option<Value>) -> Seq<u8> {
    match o {
        None => Seq::empty(),
        Some(v) => encode_value(v),
    }
}

/// Decoding of a value of type `t` from the front of `bytes`; what follows
/// the value's own width is not read.
pub open spec fn decode_value(t: ArgType, bytes: Seq<u8>) -> Option<Value> {
    if bytes.len() < width(t) {
        None
    } else {
        let n = le_value(bytes.take(width(t) as int));
        match t {
            ArgType::Bool => if n == 0 {
                Some(Value::Bool(false))
            } else if n == 1 {
                Some(Value::Bool(true))
            } else {
                None
            },
            ArgType::U8 => Some(Value::U8(n as u8)),
            ArgType::U16 => Some(Value::U16(n as u16)),
            ArgType::U32 => Some(Value::U32(n as u32)),
            ArgType::U64 => Some(Value::U64(n as u64)),
            ArgType::U128 => Some(Value::U128(n as u128)),
        }
    }
}

/// Decoding of values of the types `ts`, left to right, from the front of
/// `bytes`; bytes left over after the last value are ignored.
pub open spec fn decode_args(ts: Seq<ArgType>, bytes: Seq<u8>) -> Option<Seq<Value>>
    decreases ts.len(),
{
    if ts.len() == 0 {
        Some(Seq::empty())
    } else {
        match decode_value(ts[0], bytes) {
            None => None,
            Some(v) => match decode_args(ts.drop_first(), bytes.skip(width(ts[0]) as int)) {
                None => None,
                Some(rest) => Some(seq![v] + rest),
            },
        }
    }
}

pub proof fn lemma_le_value_bound(bytes: Seq<u8>)
    ensures
        le_value(bytes) < pow256(bytes.len()),
    decreases bytes.len(),
{
    if bytes.len() > 0 {
        let rest = bytes.drop_first();
        lemma_le_value_bound(rest);
        let a = bytes[0] as nat;
        let b = le_value(rest);
        let p = pow256(rest.len());
        assert(a + 256 * b < 256 * p) by (nonlinear_arith)
            requires
                a < 256,
                b < p,
        ;
    }
}

proof fn lemma_le_round_trip(n: nat, w: nat)
    requires
        n < pow256(w),
    ensures
        le_bytes(n, w).len() == w,
        le_value(le_bytes(n, w)) == n,
    decreases w,
{
    if w > 0 {
        let q = n / 256;
        assert(q < pow256((w - 1) as nat)) by (nonlinear_arith)
            requires
                n < 256 * pow256((w - 1) as nat),
                q == n / 256,
        ;
        lemma_le_round_trip(q, (w - 1) as nat);
        let s = le_bytes(n, w);
        assert(s.drop_first() =~= le_bytes(q, (w - 1) as nat));
        assert(n == (n % 256) + 256 * q) by (nonlinear_arith)
            requires
                q == n / 256,
        ;
    }
}

proof fn lemma_pow256_values()
    ensures
        pow256(1) == 0x100,
        pow256(2) == 0x1_0000,
        pow256(4) == 0x1_0000_0000,
        pow256(8) == 0x1_0000_0000_0000_0000,
        pow256(16) == 0x1_0000_0000_0000_0000_0000_0000_0000_0000,
{
    reveal_with_fuel(pow256, 17);
}

/// Decoding the encoding of a value, followed by any bytes at all, gives
/// the value back.
pub proof fn lemma_value_round_trip(v: Value, rest: Seq<u8>)
    ensures
        encode_value(v).len() == width(type_of(v)),
        decode_value(type_of(v), encode_value(v) + rest) == Some(v),
{
    lemma_pow256_values();
    let w = width(type_of(v));
    let e = encode_value(v);
    lemma_le_round_trip(numeric(v), w);
    assert((e + rest).take(w as int) =~= e);
}

/// Decoding the encoding of an argument tuple, followed by any bytes at
/// all, against the tuple's own types gives the tuple back.
pub proof fn lemma_args_round_trip(vs: Seq<Value>, rest: Seq<u8>)
    ensures
        decode_args(types_of(vs), encode_args(vs) + rest) == Some(vs),
    decreases vs.len(),
{
    let ts = types_of(vs);
    if vs.len() > 0 {
        let v = vs[0];
        let tail = vs.drop_first();
        let bytes = encode_args(vs) + rest;
        lemma_value_round_trip(v, encode_args(tail) + rest);
        assert(bytes =~= encode_value(v) + (encode_args(tail) + rest));
        assert(ts.drop_first() =~= types_of(tail));
        assert(bytes.skip(width(ts[0]) as int) =~= encode_args(tail) + rest);
        lemma_args_round_trip(tail, rest);
        assert(seq![v] + tail =~= vs);
    } else {
        assert(ts =~= Seq::<ArgType>::empty());
    }
}

proof fn lemma_pow256_mono(a: nat, b: nat)
    requires
        a <= b,
    ensures
        pow256(a) <= pow256(b),
    decreases b,
{
    if a < b {
        lemma_pow256_mono(a, (b - 1) as nat);
    }
}

/// Encoded width of a value of type `t`.
pub fn type_width(t: ArgType) -> (r: usize)
    ensures
        r == width(t),
        r <= 16,
{
    match t {
        ArgType::Bool => 1,
        ArgType::U8 => 1,
        ArgType::U16 => 2,
        ArgType::U32 => 4,
        ArgType::U64 => 8,
        ArgType::U128 => 16,
    }
}

/// The little-endian number held in `input[pos..pos + w]`.
fn read_le(input: &[u8], pos: usize, w: usize) -> (r: u128)
    requires
        w <= 16,
        pos + w <= input@.len(),
    ensures
        r == le_value(input@.subrange(pos as int, pos + w)),
{
    let len = input.len();
    let mut acc: u128 = 0;
    let mut k: usize = w;
    proof {
        lemma_pow256_values();
    }
    while k > 0
        invariant
            k <= w <= 16,
            pos + w <= len == input@.len(),
            acc == le_value(input@.subrange(pos + k, pos + w)),
            acc < pow256((w - k) as nat),
            pow256(16) == 0x1_0000_0000_0000_0000_0000_0000_0000_0000,
        decreases k,
    {
        let b = input[pos + k - 1];
        proof {
            let s = input@.subrange(pos + k - 1, pos + w);
            assert(s.drop_first() =~= input@.subrange(pos + k, pos + w));
            lemma_pow256_mono((w - k + 1) as nat, 16);
            let p = pow256((w - k) as nat);
            assert(acc * 256 + b < 256 * p) by (nonlinear_arith)
                requires
                    acc < p,
                    b < 256,
            ;
        }
        acc = acc * 256 + b as u128;
        k = k - 1;
    }
    acc
}

/// Decodes a value of type `t` from `input[pos..]`; bytes after the value
/// are not read.
pub fn decode_value_at(t: ArgType, input: &[u8], pos: usize) -> (r: Option<Value>)
    requires
        pos <= input@.len(),
    ensures
        r == decode_value(t, input@.skip(pos as int)),
{
    let w = type_width(t);
    if input.len() - pos < w {
        return None;
    }
    let n = read_le(input, pos, w);
    proof {
        assert(input@.skip(pos as int).take(w as int) =~= input@.subrange(pos as int, pos + w));
        lemma_le_value_bound(input@.subrange(pos as int, pos + w));
        lemma_pow256_values();
    }
    match t {
        ArgType::Bool => if n == 0 {
            Some(Value::Bool(false))
        } else if n == 1 {
            Some(Value::Bool(true))
        } else {
            None
        },
        ArgType::U8 => Some(Value::U8(n as u8)),
        ArgType::U16 => Some(Value::U16(n as u16)),
        ArgType::U32 => Some(Value::U32(n as u32)),
        ArgType::U64 => Some(Value::U64(n as u64)),
        ArgType::U128 => Some(Value::U128(n)),
    }
}

/// Decodes values of the types `ts`, in order, from `input[pos..]`;
/// trailing bytes are ignored.
pub fn decode_args_at(ts: &[ArgType], input: &[u8], pos: usize) -> (r: Option<Vec<Value>>)
    requires
        pos <= input@.len(),
    ensures
        match r {
            Some(vs) => decode_args(ts@, input@.skip(pos as int)) == Some(vs@),
            None => decode_args(ts@, input@.skip(pos as int)) is None,
        },
{
    let len = input.len();
    let mut out: Vec<Value> = Vec::new();
    let mut i: usize = 0;
    let mut p: usize = pos;
    proof {
        assert(ts@.skip(0) =~= ts@);
        match decode_args(ts@, input@.skip(pos as int)) {
            Some(rest) => {
                assert(out@ + rest =~= rest);
            },
            None => {},
        }
    }
    while i < ts.len()
        invariant
            i <= ts@.len(),
            pos <= p <= len == input@.len(),
            decode_args(ts@, input@.skip(pos as int)) == match decode_args(
                ts@.skip(i as int),
                input@.skip(p as int),
            ) {
                Some(rest) => Some(out@ + rest),
                None => None::<Seq<Value>>,
            },
        decreases ts@.len() - i,
    {
        let t = ts[i];
        let ghost tail = ts@.skip(i as int);
        proof {
            assert(tail[0] == t);
            assert(tail.drop_first() =~= ts@.skip(i + 1));
        }
        match decode_value_at(t, input, p) {
            None => {
                return None;
            },
            Some(v) => {
                let w = type_width(t);
                proof {
                    assert(input@.skip(p as int).len() >= w);
                    assert(input@.skip(p as int).skip(w as int) =~= input@.skip(p + w));
                    match decode_args(ts@.skip(i + 1), input@.skip(p + w)) {
                        Some(rest) => {
                            assert(out@ + (seq![v] + rest) =~= out@.push(v) + rest);
                        },
                        None => {},
                    }
                }
                out.push(v);
                p = p + w;
                i = i + 1;
            },
        }
    }
    proof {
        assert(ts@.skip(i as int) =~= Seq::<ArgType>::empty());
        assert(out@ + Seq::<Value>::empty() =~= out@);
    }
    Some(out)
}

/// Appends the `w` lowest little-endian bytes of `n` to `out`.
fn write_le(out: &mut Vec<u8>, n: u128, w: usize)
    ensures
        final(out)@ == old(out)@ + le_bytes(n as nat, w as nat),
{
    let mut cur: u128 = n;
    let mut k: usize = w;
    while k > 0
        invariant
            out@ + le_bytes(cur as nat, k as nat) == old(out)@ + le_bytes(n as nat, w as nat),
        decreases k,
    {
        proof {
            assert(out@ + le_bytes(cur as nat, k as nat) =~= out@.push((cur % 256) as u8)
                + le_bytes((cur / 256) as nat, (k - 1) as nat));
        }
        out.push((cur % 256) as u8);
        cur = cur / 256;
        k = k - 1;
    }
    proof {
        assert(out@ + le_bytes(cur as nat, 0) =~= out@);
    }
}

/// Appends the encoding of `v` to `out`.
pub fn encode_value_into(v: Value, out: &mut Vec<u8>)
    ensures
        final(out)@ == old(out)@ + encode_value(v),
{
    let (n, w): (u128, usize) = match v {
        Value::Bool(b) => (if b { 1 } else { 0 }, 1),
        Value::U8(x) => (x as u128, 1),
        Value::U16(x) => (x as u128, 2),
        Value::U32(x) => (x as u128, 4),
        Value::U64(x) => (x as u128, 8),
        Value::U128(x) => (x, 16),
    };
    write_le(out, n, w);
}

/// The encoding of `v`.
pub fn encode(v: Value) -> (r: Vec<u8>)
    ensures
        r@ == encode_value(v),
{
    let mut out: Vec<u8> = Vec::new();
    encode_value_into(v, &mut out);
    proof {
        assert(Seq::<u8>::empty() + encode_value(v) =~= encode_value(v));
    }
    out
}

proof fn lemma_encode_args_push(vs: Seq<Value>, v: Value)
    ensures
        encode_args(vs.push(v)) == encode_args(vs) + encode_value(v),
    decreases vs.len(),
{
    if vs.len() == 0 {
        assert(vs.push(v).drop_first() =~= Seq::<Value>::empty());
        assert(encode_args(vs.push(v).drop_first()) == Seq::<u8>::empty());
        assert(vs.push(v)[0] == v);
        assert(encode_value(v) + Seq::<u8>::empty() =~= encode_value(v));
        assert(Seq::<u8>::empty() + encode_value(v) =~= encode_value(v));
    } else {
        assert(vs.push(v).drop_first() =~= vs.drop_first().push(v));
        assert(vs.push(v)[0] == vs[0]);
        lemma_encode_args_push(vs.drop_first(), v);
        assert(encode_value(vs[0]) + (encode_args(vs.drop_first()) + encode_value(v))
            =~= (encode_value(vs[0]) + encode_args(vs.drop_first())) + encode_value(v));
    }
}

/// The bytes that a handler's result is returned as.
pub fn encode_result(o: Option<Value>) -> (r: Vec<u8>)
    ensures
        r@ == encode_output(o),
{
    match o {
        None => Vec::new(),
        Some(v) => encode(v),
    }
}

/// The encoding of the argument tuple `vs`.
pub fn encode_tuple(vs: &[Value]) -> (r: Vec<u8>)
    ensures
        r@ == encode_args(vs@),
{
    let mut out: Vec<u8> = Vec::new();
    let mut i: usize = 0;
    proof {
        assert(vs@.take(0) =~= Seq::<Value>::empty());
    }
    while i < vs.len()
        invariant
            i <= vs@.len(),
            out@ == encode_args(vs@.take(i as int)),
        decreases vs@.len() - i,
    {
        proof {
            assert(vs@.take(i + 1) =~= vs@.take(i as int).push(vs@[i as int]));
            lemma_encode_args_push(vs@.take(i as int), vs@[i as int]);
        }
        encode_value_into(vs[i], &mut out);
        i = i + 1;
    }
    proof {
        assert(vs@.take(i as int) =~= vs@);
    }
    out
}

} // verus!
