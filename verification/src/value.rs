//! Values of fixed width as they lie in memory: little-endian, the lowest
//! byte first, with no alignment asked for.

use vstd::prelude::*;

verus! {

/// The little-endian bytes of `value` in `width` bytes: the lowest byte
/// first. What does not fit in `width` bytes is cut off.
pub open spec fn le_bytes(value: nat, width: nat) -> Seq<u8>
    decreases width,
{
    if width == 0 {
        Seq::empty()
    } else {
        seq![(value % 256) as u8] + le_bytes(value / 256, (width - 1) as nat)
    }
}

/// The number that `bytes` hold in little-endian order.
pub open spec fn le_value(bytes: Seq<u8>) -> nat
    decreases bytes.len(),
{
    if bytes.len() == 0 {
        0
    } else {
        bytes[0] as nat + 256 * le_value(bytes.skip(1))
    }
}

/// 256 to the power of `width`: the number of values that `width` bytes hold.
pub open spec fn capacity(width: nat) -> nat
    decreases width,
{
    if width == 0 {
        1
    } else {
        256 * capacity((width - 1) as nat)
    }
}

/// `width` bytes come out of `le_bytes`.
pub proof fn lemma_le_bytes_len(value: nat, width: nat)
    ensures
        le_bytes(value, width).len() == width,
    decreases width,
{
    if width > 0 {
        lemma_le_bytes_len(value / 256, (width - 1) as nat);
    }
}

/// The bytes of a number hold that number, as far as it fits in them.
pub proof fn lemma_le_value_of_bytes(value: nat, width: nat)
    ensures
        le_value(le_bytes(value, width)) == value % capacity(width),
    decreases width,
{
    if width > 0 {
        let rest = le_bytes(value / 256, (width - 1) as nat);
        let all = le_bytes(value, width);
        lemma_le_value_of_bytes(value / 256, (width - 1) as nat);
        assert(all.skip(1) =~= rest);
        let c = capacity((width - 1) as nat);
        lemma_capacity_positive((width - 1) as nat);
        lemma_mod_split(value, c);
    }
}

/// The number that bytes hold has those bytes.
pub proof fn lemma_le_bytes_of_value(bytes: Seq<u8>)
    ensures
        le_bytes(le_value(bytes), bytes.len()) == bytes,
        le_value(bytes) < capacity(bytes.len()),
    decreases bytes.len(),
{
    if bytes.len() > 0 {
        lemma_le_bytes_of_value(bytes.skip(1));
    }
}

/// Every capacity is positive.
pub proof fn lemma_capacity_positive(width: nat)
    ensures
        capacity(width) > 0,
    decreases width,
{
    if width > 0 {
        lemma_capacity_positive((width - 1) as nat);
    }
}

/// The capacities of the widths in use.
pub proof fn lemma_capacities()
    ensures
        capacity(1) == 0x100,
        capacity(4) == 0x1_0000_0000,
        capacity(8) == 0x1_0000_0000_0000_0000,
{
    reveal_with_fuel(capacity, 9);
}

/// The remainder by `256 * c` is the lowest byte and, above it, the
/// remainder of the rest by `c`.
proof fn lemma_mod_split(value: nat, c: nat)
    requires
        c > 0,
    ensures
        value % (256 * c) == value % 256 + 256 * ((value / 256) % c),
{
    let q = value / 256;
    let r = value % 256;
    let qq = q / c;
    let qr = q % c;
    assert(q == c * qq + qr) by (nonlinear_arith)
        requires
            c > 0,
            qq == q / c,
            qr == q % c,
    ;
    assert(value == qq * (256 * c) + (256 * qr + r)) by (nonlinear_arith)
        requires
            value == 256 * q + r,
            q == c * qq + qr,
    ;
    assert(0 <= 256 * qr + r < 256 * c) by (nonlinear_arith)
        requires
            0 <= qr < c,
            0 <= r < 256,
    ;
    vstd::arithmetic::div_mod::lemma_fundamental_div_mod_converse(
        value as int,
        (256 * c) as int,
        qq as int,
        (256 * qr + r) as int,
    );
}

/// The kinds of value that are read and written.
#[derive(Clone, Copy, Debug, PartialEq, Eq, Structural)]
pub enum ValueKind {
    U32,
    U64,
    I32,
    I64,
    /// A floating-point number of 32 bits.
    Float32,
    /// A floating-point number of 64 bits.
    Float64,
    Bool,
}

/// A value of one of the kinds. A floating-point number is held by its bits.
#[derive(Clone, Copy, Debug, PartialEq, Eq, Structural)]
pub enum Value {
    U32(u32),
    U64(u64),
    I32(i32),
    I64(i64),
    /// The bits of a floating-point number of 32 bits.
    Float32(u32),
    /// The bits of a floating-point number of 64 bits.
    Float64(u64),
    Bool(bool),
}

impl ValueKind {
    /// The number of bytes that a value of this kind takes in memory.
    pub open spec fn width(self) -> nat {
        match self {
            ValueKind::U32 | ValueKind::I32 | ValueKind::Float32 => 4,
            ValueKind::U64 | ValueKind::I64 | ValueKind::Float64 => 8,
            ValueKind::Bool => 1,
        }
    }

    /// The number of bytes that a value of this kind takes in memory.
    pub fn byte_width(self) -> (width: usize)
        ensures
            width == self.width(),
    {
        match self {
            ValueKind::U32 | ValueKind::I32 | ValueKind::Float32 => 4,
            ValueKind::U64 | ValueKind::I64 | ValueKind::Float64 => 8,
            ValueKind::Bool => 1,
        }
    }

    /// The value of this kind whose bytes hold the number `raw`. A signed
    /// value is held in two's complement, and a boolean is true unless its
    /// byte is zero.
    pub open spec fn value_of(self, raw: nat) -> Value {
        match self {
            ValueKind::U32 => Value::U32(raw as u32),
            ValueKind::U64 => Value::U64(raw as u64),
            ValueKind::I32 => Value::I32(
                if raw < 0x8000_0000 {
                    raw as i32
                } else {
                    (raw - 0x1_0000_0000) as i32
                },
            ),
            ValueKind::I64 => Value::I64(
                if raw < 0x8000_0000_0000_0000 {
                    raw as i64
                } else {
                    (raw - 0x1_0000_0000_0000_0000) as i64
                },
            ),
            ValueKind::Float32 => Value::Float32(raw as u32),
            ValueKind::Float64 => Value::Float64(raw as u64),
            ValueKind::Bool => Value::Bool(raw != 0),
        }
    }
}

impl Value {
    /// The kind of the value.
    pub open spec fn kind(self) -> ValueKind {
        match self {
            Value::U32(_) => ValueKind::U32,
            Value::U64(_) => ValueKind::U64,
            Value::I32(_) => ValueKind::I32,
            Value::I64(_) => ValueKind::I64,
            Value::Float32(_) => ValueKind::Float32,
            Value::Float64(_) => ValueKind::Float64,
            Value::Bool(_) => ValueKind::Bool,
        }
    }

    /// The number that the bytes of the value hold: the value itself, in
    /// two's complement where it is negative, and 1 or 0 for a boolean.
    pub open spec fn raw(self) -> nat {
        match self {
            Value::U32(v) => v as nat,
            Value::U64(v) => v as nat,
            Value::I32(v) => if v >= 0 {
                v as nat
            } else {
                (v + 0x1_0000_0000) as nat
            },
            Value::I64(v) => if v >= 0 {
                v as nat
            } else {
                (v + 0x1_0000_0000_0000_0000) as nat
            },
            Value::Float32(bits) => bits as nat,
            Value::Float64(bits) => bits as nat,
            Value::Bool(b) => if b {
                1
            } else {
                0
            },
        }
    }

    /// The bytes of the value as they lie in memory.
    pub open spec fn bytes(self) -> Seq<u8> {
        le_bytes(self.raw(), self.kind().width())
    }

    /// The kind of the value.
    pub fn value_kind(&self) -> (kind: ValueKind)
        ensures
            kind == self.kind(),
    {
        match self {
            Value::U32(_) => ValueKind::U32,
            Value::U64(_) => ValueKind::U64,
            Value::I32(_) => ValueKind::I32,
            Value::I64(_) => ValueKind::I64,
            Value::Float32(_) => ValueKind::Float32,
            Value::Float64(_) => ValueKind::Float64,
            Value::Bool(_) => ValueKind::Bool,
        }
    }

    /// The number that the bytes of the value hold.
    fn raw_bits(&self) -> (raw: u64)
        ensures
            raw == self.raw(),
    {
        match *self {
            Value::U32(v) => v as u64,
            Value::U64(v) => v,
            Value::I32(v) => if v >= 0 {
                v as u64
            } else {
                (v as i64 + 0x1_0000_0000) as u64
            },
            Value::I64(v) => if v >= 0 {
                v as u64
            } else {
                (v - i64::MIN) as u64 + 0x8000_0000_0000_0000
            },
            Value::Float32(bits) => bits as u64,
            Value::Float64(bits) => bits,
            Value::Bool(b) => if b {
                1
            } else {
                0
            },
        }
    }
}

/// Lays `value` out in `width` bytes, the lowest byte first.
pub fn encode_le(value: u64, width: usize) -> (bytes: Vec<u8>)
    ensures
        bytes@ == le_bytes(value as nat, width as nat),
{
    let mut bytes: Vec<u8> = Vec::new();
    let mut rest: u64 = value;
    let mut done: usize = 0;
    while done < width
        invariant
            done <= width,
            bytes@ + le_bytes(rest as nat, (width - done) as nat) == le_bytes(
                value as nat,
                width as nat,
            ),
        decreases width - done,
    {
        bytes.push((rest % 256) as u8);
        rest = rest / 256;
        done += 1;
    }
    bytes
}

/// Reads the number that at most eight bytes hold, the lowest byte first.
pub fn decode_le(bytes: &[u8]) -> (value: u64)
    requires
        bytes@.len() <= 8,
    ensures
        value == le_value(bytes@),
{
    let mut value: u64 = 0;
    let mut at: usize = bytes.len();
    while at > 0
        invariant
            at <= bytes@.len() <= 8,
            value == le_value(bytes@.skip(at as int)),
        decreases at,
    {
        proof {
            lemma_le_bytes_of_value(bytes@.skip(at as int));
            lemma_capacity_bound((bytes@.len() - at) as nat);
            assert(bytes@.skip(at - 1).skip(1) =~= bytes@.skip(at as int));
        }
        at -= 1;
        value = value * 256 + bytes[at] as u64;
    }
    assert(bytes@.skip(0) =~= bytes@);
    value
}

/// Fewer than eight bytes hold less than 2 to the power of 56.
proof fn lemma_capacity_bound(width: nat)
    requires
        width < 8,
    ensures
        capacity(width) <= 0x100_0000_0000_0000,
{
    reveal_with_fuel(capacity, 9);
}

/// The bytes of `value` as they are written to memory.
pub fn encode(value: Value) -> (bytes: Vec<u8>)
    ensures
        bytes@ == value.bytes(),
        bytes@.len() == value.kind().width(),
{
    proof {
        lemma_le_bytes_len(value.raw(), value.kind().width());
    }
    encode_le(value.raw_bits(), value.value_kind().byte_width())
}

/// The value of kind `kind` that `bytes` hold, where they are as many bytes
/// as the kind is wide. Any other number of bytes holds no value.
pub fn decode(kind: ValueKind, bytes: &[u8]) -> (value: Option<Value>)
    ensures
        match value {
            Some(value) => bytes@.len() == kind.width() && value == kind.value_of(le_value(bytes@)),
            None => bytes@.len() != kind.width(),
        },
{
    if bytes.len() != kind.byte_width() {
        return None;
    }
    let raw: u64 = decode_le(bytes);
    proof {
        lemma_le_bytes_of_value(bytes@);
        lemma_capacities();
    }
    Some(
        match kind {
            ValueKind::U32 => Value::U32(raw as u32),
            ValueKind::U64 => Value::U64(raw),
            ValueKind::I32 => Value::I32(
                if raw < 0x8000_0000 {
                    raw as i32
                } else {
                    (raw as i64 - 0x1_0000_0000) as i32
                },
            ),
            ValueKind::I64 => Value::I64(
                if raw < 0x8000_0000_0000_0000 {
                    raw as i64
                } else {
                    (raw - 0x8000_0000_0000_0000) as i64 + i64::MIN
                },
            ),
            ValueKind::Float32 => Value::Float32(raw as u32),
            ValueKind::Float64 => Value::Float64(raw),
            ValueKind::Bool => Value::Bool(raw != 0),
        },
    )
}

/// A value that is written and read back is the same value: the bytes of a
/// value are as many as its kind is wide, and hold that value.
pub proof fn lemma_decode_encode(value: Value)
    ensures
        value.bytes().len() == value.kind().width(),
        value.kind().value_of(le_value(value.bytes())) == value,
{
    let raw = value.raw();
    let width = value.kind().width();
    lemma_le_bytes_len(raw, width);
    lemma_le_value_of_bytes(raw, width);
    lemma_capacities();
    vstd::arithmetic::div_mod::lemma_small_mod(raw, capacity(width));
}

/// Bytes that are read as a value and written back are the same bytes,
/// but for a boolean, whose byte is written as 1 whenever it was not 0.
pub proof fn lemma_encode_decode(kind: ValueKind, bytes: Seq<u8>)
    requires
        bytes.len() == kind.width(),
        kind != ValueKind::Bool,
    ensures
        kind.value_of(le_value(bytes)).bytes() == bytes,
{
    lemma_le_bytes_of_value(bytes);
    lemma_capacities();
}

} // verus!
