//! The HPACK decoder: reads a header block (RFC 7541, section 6) into header
//! fields and keeps the indexing table in step.
use crate::encoder::{
    best_outcome, has_flag, indexed_bytes, indexed_name_bytes, indexed_name_outcome,
    literal_bytes, literal_outcome,
};
use crate::huffman::{
    decode as huffman_decode, huffman_decoded, huffman_encoded, lemma_huffman_round_trip,
    DecoderSpeed,
};
use crate::primitives::{
    decode_integer, int_encoded, int_read, lemma_int_round_trip, prefix_max, string_encoded,
    IntRead, PrimitiveError,
};
use crate::table::{
    entries_size, entry_at, evicted, find_result, inserted, lemma_entries_size_len,
    lemma_find_result, lemma_inserted_size, to_owned, Entry, Table, DEFAULT_MAX_DYNAMIC_SIZE,
};
use vstd::arithmetic::power2::lemma2_to64;
use vstd::prelude::*;

verus! {

/// The ways decoding a header block can fail.
#[derive(Debug, PartialEq, Eq, Structural, Clone, Copy)]
pub enum DecoderError {
    /// An index refers to no entry of the indexing table.
    InvalidIndex,
    /// A Huffman encoded string is no valid Huffman encoding.
    InvalidInput,
    /// An integer does not fit in 32 bits.
    IntegerOverflow,
    /// The octets form no valid representation: the block ends inside one, or
    /// a dynamic table size update follows a header field.
    InvalidRepresentation,
    /// A dynamic table size update exceeds the protocol's ceiling.
    SizeLimitExceeded,
}

/// A decoded header field: name, value and flags (`0x4` when it was
/// indexed, `0x8` when it must never be indexed).
pub type Field = (Seq<u8>, Seq<u8>, u8);

/// What reading a string literal gives: its octets and the number of input
/// octets it took, or an error.
pub enum StrRead {
    Value(Seq<u8>, nat),
    Failed(DecoderError),
}

/// What reading one representation gives.
pub enum StepRead {
    /// A header field, the octets it took and the dynamic entries after it.
    Field(Field, nat, Seq<Entry>),
    /// A dynamic table size update to the given size, and the octets it took.
    Resize(nat, nat),
    Failed(DecoderError),
}

/// What reading a header block gives: the fields read, the dynamic entries
/// and maximum size after them, and the error that stopped the reading, if
/// any.
pub struct BlockRead {
    pub fields: Seq<Field>,
    pub entries: Seq<Entry>,
    pub max: nat,
    pub error: Option<DecoderError>,
}

/// The block error for a failed integer read.
pub open spec fn int_error(e: PrimitiveError) -> DecoderError {
    match e {
        PrimitiveError::Truncated => DecoderError::InvalidRepresentation,
        PrimitiveError::IntegerOverflow => DecoderError::IntegerOverflow,
    }
}

/// Reads a string literal from the start of `b` (RFC 7541, section 5.2).
#[verifier::opaque]
pub open spec fn string_read(b: Seq<u8>) -> StrRead {
    match int_read(b, 7) {
        IntRead::Value(l, k) => if k + l > b.len() {
            StrRead::Failed(DecoderError::InvalidRepresentation)
        } else if b[0] & 0x80 == 0x80 {
            match huffman_decoded(b.subrange(k as int, (k + l) as int)) {
                Some(x) => StrRead::Value(x, k + l),
                None => StrRead::Failed(DecoderError::InvalidInput),
            }
        } else {
            StrRead::Value(b.subrange(k as int, (k + l) as int), k + l)
        },
        IntRead::Failed(e) => StrRead::Failed(int_error(e)),
    }
}

/// Reads a literal representation whose index takes an `n`-bit prefix: the
/// name by index, or as a string after a zero index, then the value.
pub open spec fn literal_read(d: Seq<Entry>, b: Seq<u8>, n: nat) -> Option<
    Result<(Seq<u8>, Seq<u8>, nat), DecoderError>,
> {
    match int_read(b, n) {
        IntRead::Value(i, k) => if i == 0 {
            match string_read(b.skip(k as int)) {
                StrRead::Value(name, k1) => match string_read(b.skip((k + k1) as int)) {
                    StrRead::Value(value, k2) => Some(Ok((name, value, k + k1 + k2))),
                    StrRead::Failed(e) => Some(Err(e)),
                },
                StrRead::Failed(e) => Some(Err(e)),
            }
        } else {
            match entry_at(d, i as int) {
                Some(e) => match string_read(b.skip(k as int)) {
                    StrRead::Value(value, k1) => Some(Ok((e.0, value, k + k1))),
                    StrRead::Failed(err) => Some(Err(err)),
                },
                None => Some(Err(DecoderError::InvalidIndex)),
            }
        },
        IntRead::Failed(e) => Some(Err(int_error(e))),
    }
}

/// Reads one representation from the start of the non-empty `b`, over
/// dynamic entries `d` of maximum size `max`; `seen` tells whether a header
/// field came before it in the block.
#[verifier::opaque]
pub open spec fn step_read(d: Seq<Entry>, max: nat, ceiling: nat, b: Seq<u8>, seen: bool) -> StepRead {
    if b[0] & 0x80 == 0x80 {
        match int_read(b, 7) {
            IntRead::Value(i, k) => match entry_at(d, i as int) {
                Some(e) => StepRead::Field((e.0, e.1, 0), k, d),
                None => StepRead::Failed(DecoderError::InvalidIndex),
            },
            IntRead::Failed(e) => StepRead::Failed(int_error(e)),
        }
    } else if b[0] & 0xc0 == 0x40 {
        match literal_read(d, b, 6) {
            Some(Ok((name, value, k))) => StepRead::Field(
                (name, value, 0x4),
                k,
                inserted(d, max, (name, value)),
            ),
            Some(Err(e)) => StepRead::Failed(e),
            None => StepRead::Failed(DecoderError::InvalidRepresentation),
        }
    } else if b[0] & 0xe0 == 0x20 {
        match int_read(b, 5) {
            IntRead::Value(m, k) => if seen {
                StepRead::Failed(DecoderError::InvalidRepresentation)
            } else if m > ceiling {
                StepRead::Failed(DecoderError::SizeLimitExceeded)
            } else {
                StepRead::Resize(m, k)
            },
            IntRead::Failed(e) => StepRead::Failed(int_error(e)),
        }
    } else {
        let flags: u8 = if b[0] & 0xf0 == 0x10 {
            0x8
        } else {
            0
        };
        match literal_read(d, b, 4) {
            Some(Ok((name, value, k))) => StepRead::Field((name, value, flags), k, d),
            Some(Err(e)) => StepRead::Failed(e),
            None => StepRead::Failed(DecoderError::InvalidRepresentation),
        }
    }
}

/// Reads the header block `b` to its end or to the first error.
pub open spec fn block_read(d: Seq<Entry>, max: nat, ceiling: nat, b: Seq<u8>, seen: bool) -> BlockRead
    decreases b.len(),
{
    if b.len() == 0 {
        BlockRead { fields: seq![], entries: d, max, error: None }
    } else {
        match step_read(d, max, ceiling, b, seen) {
            StepRead::Field(f, k, d2) => if 0 < k <= b.len() {
                let rest = block_read(d2, max, ceiling, b.skip(k as int), true);
                BlockRead { fields: seq![f] + rest.fields, ..rest }
            } else {
                BlockRead { fields: seq![], entries: d, max, error: Some(DecoderError::InvalidRepresentation) }
            },
            StepRead::Resize(m, k) => if 0 < k <= b.len() {
                block_read(evicted(d, m), m, ceiling, b.skip(k as int), seen)
            } else {
                BlockRead { fields: seq![], entries: d, max, error: Some(DecoderError::InvalidRepresentation) }
            },
            StepRead::Failed(e) => BlockRead { fields: seq![], entries: d, max, error: Some(e) },
        }
    }
}

/// The decoding engine: the indexing table it shares with an encoder, and
/// the ceiling the protocol puts on the dynamic table's size.
pub struct Decoder {
    /// The static and the dynamic headers.
    pub table: Table,
    /// The protocol's ceiling on the dynamic table's size.
    pub max_allowed: u32,
}

/// Reads a string literal from the start of `src`.
fn decode_string(src: &[u8]) -> (r: Result<(Vec<u8>, usize), DecoderError>)
    ensures
        match string_read(src@) {
            StrRead::Value(x, k) => r matches Ok((v, m)) && v@ == x && m == k,
            StrRead::Failed(e) => r == Err::<(Vec<u8>, usize), DecoderError>(e),
        },
        r matches Ok((v, m)) ==> 1 <= m <= src@.len(),
{
    reveal(string_read);
    match decode_integer(src, 7) {
        Ok((len, k)) => {
            if len as usize > src.len() - k {
                return Err(DecoderError::InvalidRepresentation);
            }
            let raw = &src[k..k + len as usize];
            if src[0] & 0x80 == 0x80 {
                let mut out: Vec<u8> = Vec::new();
                match huffman_decode(raw, &mut out, DecoderSpeed::FourBits) {
                    Ok(_) => {
                        proof {
                            match huffman_decoded(raw@) {
                                Some(x) => {
                                    assert(Seq::<u8>::empty() + x =~= x);
                                },
                                None => {},
                            }
                        }
                        Ok((out, k + len as usize))
                    },
                    Err(_) => Err(DecoderError::InvalidInput),
                }
            } else {
                Ok((to_owned(raw), k + len as usize))
            }
        },
        Err(PrimitiveError::Truncated) => Err(DecoderError::InvalidRepresentation),
        Err(PrimitiveError::IntegerOverflow) => Err(DecoderError::IntegerOverflow),
    }
}

impl Decoder {
    pub open spec fn wf(&self) -> bool {
        &&& self.table.wf()
        &&& self.table.max_size() <= self.ceiling()
    }

    /// The ceiling the protocol puts on the dynamic table's size.
    pub open spec fn ceiling(&self) -> nat {
        self.max_allowed as nat
    }

    /// The dynamic entries of the table, newest first.
    pub open spec fn entries(&self) -> Seq<Entry> {
        self.table.dynamic_entries()
    }

    /// Returns a decoder whose dynamic table, and the protocol's ceiling on
    /// it, are `max_dynamic_size` octets.
    pub fn with_dynamic_size(max_dynamic_size: u32) -> (r: Decoder)
        ensures
            r.wf(),
            r.entries() == Seq::<Entry>::empty(),
            r.table.max_size() == max_dynamic_size,
            r.ceiling() == max_dynamic_size,
    {
        Decoder { table: Table::with_dynamic_size(max_dynamic_size), max_allowed: max_dynamic_size }
    }

    /// Returns the maximum size of the dynamic table.
    pub fn max_dynamic_size(&self) -> (r: u32)
        ensures
            r == self.table.max_size(),
    {
        self.table.max_dynamic_size()
    }

    /// Reads a literal representation whose index takes an `n`-bit prefix,
    /// from the start of `src`.
    fn decode_literal(&self, src: &[u8], n: u8) -> (r: Result<(Vec<u8>, Vec<u8>, usize), DecoderError>)
        requires
            self.wf(),
            4 <= n <= 6,
        ensures
            match literal_read(self.entries(), src@, n as nat) {
                Some(Ok((name, value, k))) => r matches Ok((nm, v, m)) && nm@ == name && v@ == value
                    && m == k,
                Some(Err(e)) => r == Err::<(Vec<u8>, Vec<u8>, usize), DecoderError>(e),
                None => false,
            },
            r matches Ok((nm, v, m)) ==> 1 <= m <= src@.len(),
    {
        let (index, k) = match decode_integer(src, n) {
            Ok(v) => v,
            Err(PrimitiveError::Truncated) => {
                return Err(DecoderError::InvalidRepresentation);
            },
            Err(PrimitiveError::IntegerOverflow) => {
                return Err(DecoderError::IntegerOverflow);
            },
        };
        let rest = &src[k..src.len()];
        assert(rest@ =~= src@.skip(k as int));
        assert(rest@.skip(0) =~= rest@);
        if index == 0 {
            let (name, k1) = decode_string(rest)?;
            let rest2 = &src[k + k1..src.len()];
            assert(rest2@ =~= src@.skip((k + k1) as int));
            let (value, k2) = decode_string(rest2)?;
            Ok((name, value, k + k1 + k2))
        } else {
            let name = match self.table.get(index) {
                Some(entry) => to_owned(entry.0),
                None => {
                    return Err(DecoderError::InvalidIndex);
                },
            };
            let (value, k1) = decode_string(rest)?;
            Ok((name, value, k + k1))
        }
    }
    /// Reads one representation from the start of the non-empty `b`,
    /// applying it to the table and appending a header field to `dst`:
    /// returns the number of octets it took and whether a header field has
    /// now been seen in the block.
    #[verifier::rlimit(50)]
    fn decode_step(&mut self, b: &[u8], seen: bool, dst: &mut Vec<(Vec<u8>, Vec<u8>, u8)>) -> (r: Result<
        (usize, bool),
        DecoderError,
    >)
        requires
            old(self).wf(),
            b@.len() > 0,
        ensures
            final(self).wf(),
            final(self).ceiling() == old(self).ceiling(),
            match step_read(old(self).entries(), old(self).table.max_size(), old(self).ceiling(), b@, seen) {
                StepRead::Field(f, k, d2) => r == Ok::<(usize, bool), DecoderError>((k as usize, true))
                    && 0 < k <= b@.len() && fields_view(final(dst)@) == fields_view(old(dst)@).push(f)
                    && final(self).entries() == d2 && final(self).table.max_size() == old(
                    self,
                ).table.max_size(),
                StepRead::Resize(m, k) => r == Ok::<(usize, bool), DecoderError>((k as usize, seen))
                    && 0 < k <= b@.len() && final(dst)@ == old(dst)@ && final(self).entries()
                    == evicted(old(self).entries(), m) && final(self).table.max_size() == m,
                StepRead::Failed(e) => r == Err::<(usize, bool), DecoderError>(e) && final(dst)@
                    == old(dst)@ && final(self).entries() == old(self).entries()
                    && final(self).table.max_size() == old(self).table.max_size(),
            },
    {
        reveal(step_read);
        let first = b[0];
        if first & 0x80 == 0x80 {
            let (index, k) = match decode_integer(b, 7) {
                Ok(v) => v,
                Err(PrimitiveError::Truncated) => {
                    return Err(DecoderError::InvalidRepresentation);
                },
                Err(PrimitiveError::IntegerOverflow) => {
                    return Err(DecoderError::IntegerOverflow);
                },
            };
            let (name, value) = match self.table.get(index) {
                Some(e) => (to_owned(e.0), to_owned(e.1)),
                None => {
                    return Err(DecoderError::InvalidIndex);
                },
            };
            push_field(dst, name, value, 0);
            Ok((k, true))
        } else if first & 0xc0 == 0x40 {
            let (name, value, k) = self.decode_literal(b, 6)?;
            self.table.insert(to_owned(name.as_slice()), to_owned(value.as_slice()));
            push_field(dst, name, value, 0x4);
            Ok((k, true))
        } else if first & 0xe0 == 0x20 {
            let (size, k) = match decode_integer(b, 5) {
                Ok(v) => v,
                Err(PrimitiveError::Truncated) => {
                    return Err(DecoderError::InvalidRepresentation);
                },
                Err(PrimitiveError::IntegerOverflow) => {
                    return Err(DecoderError::IntegerOverflow);
                },
            };
            if seen {
                return Err(DecoderError::InvalidRepresentation);
            }
            if size > self.max_allowed {
                return Err(DecoderError::SizeLimitExceeded);
            }
            self.table.update_max_dynamic_size(size);
            Ok((k, seen))
        } else {
            let flags: u8 = if first & 0xf0 == 0x10 {
                0x8
            } else {
                0
            };
            let (name, value, k) = self.decode_literal(b, 4)?;
            push_field(dst, name, value, flags);
            Ok((k, true))
        }
    }

    /// Decodes the header block `src`, appending its header fields to `dst`
    /// as `(name, value, flags)`, the flags `0x4` for a field that was
    /// indexed and `0x8` for one that must never be indexed. Reading stops
    /// at the first error; the fields read before it stay in `dst`, and the
    /// table keeps the changes made by them.
    #[verifier::rlimit(50)]
    pub fn decode(&mut self, src: &[u8], dst: &mut Vec<(Vec<u8>, Vec<u8>, u8)>) -> (r: Result<
        (),
        DecoderError,
    >)
        requires
            old(self).wf(),
        ensures
            final(self).wf(),
            entries_size(final(self).entries()) <= final(self).table.max_size(),
            final(self).ceiling() == old(self).ceiling(),
            ({
                let b = block_read(
                    old(self).entries(),
                    old(self).table.max_size(),
                    old(self).ceiling(),
                    src@,
                    false,
                );
                &&& fields_view(final(dst)@) == fields_view(old(dst)@) + b.fields
                &&& final(self).entries() == b.entries
                &&& final(self).table.max_size() == b.max
                &&& match b.error {
                    None => r is Ok,
                    Some(e) => r == Err::<(), DecoderError>(e),
                }
            }),
    {
        let ghost total = block_read(
            self.entries(),
            self.table.max_size(),
            self.ceiling(),
            src@,
            false,
        );
        let ghost start = fields_view(dst@);
        let ghost mut done: Seq<Field> = seq![];
        let mut pos: usize = 0;
        let mut seen = false;
        proof {
            assert(src@.skip(0) =~= src@);
            assert(start + done =~= start);
            assert(done + total.fields =~= total.fields);
        }
        while pos < src.len()
            invariant
                self.wf(),
                self.ceiling() == old(self).ceiling(),
                pos <= src@.len(),
                start == fields_view(old(dst)@),
                total == block_read(
                    old(self).entries(),
                    old(self).table.max_size(),
                    old(self).ceiling(),
                    src@,
                    false,
                ),
                fields_view(dst@) == start + done,
                ({
                    let rest = block_read(
                        self.entries(),
                        self.table.max_size(),
                        self.ceiling(),
                        src@.skip(pos as int),
                        seen,
                    );
                    &&& total.fields == done + rest.fields
                    &&& total.entries == rest.entries
                    &&& total.max == rest.max
                    &&& total.error == rest.error
                }),
            decreases src@.len() - pos,
        {
            let b = &src[pos..src.len()];
            assert(b@ =~= src@.skip(pos as int));
            let ghost rest = block_read(self.entries(), self.table.max_size(), self.ceiling(), b@, seen);
            let ghost step = step_read(self.entries(), self.table.max_size(), self.ceiling(), b@, seen);
            let (k, now_seen) = match self.decode_step(b, seen, dst) {
                Ok(v) => v,
                Err(e) => {
                    proof {
                        assert(step == StepRead::Failed(e));
                        assert(rest.fields == Seq::<Field>::empty());
                        assert(rest.error == Some(e));
                        assert(done + Seq::<Field>::empty() =~= done);
                        self.table.lemma_size_bound();
                    }
                    return Err(e);
                },
            };
            proof {
                assert(b@.skip(k as int) =~= src@.skip(pos + k));
                match step {
                    StepRead::Field(f, _, _) => {
                        let prev = done;
                        done = done.push(f);
                        assert(done + rest.fields.skip(1) =~= prev + rest.fields);
                        assert(start + done =~= (start + prev).push(f));
                    },
                    _ => {},
                }
            }
            pos = pos + k;
            seen = now_seen;
        }
        proof {
            assert(done + Seq::<Field>::empty() =~= done);
            self.table.lemma_size_bound();
        }
        Ok(())
    }
}

/// Appends a decoded field to `dst`.
fn push_field(dst: &mut Vec<(Vec<u8>, Vec<u8>, u8)>, name: Vec<u8>, value: Vec<u8>, flags: u8)
    ensures
        fields_view(final(dst)@) == fields_view(old(dst)@).push((name@, value@, flags)),
{
    dst.push((name, value, flags));
    assert(fields_view(dst@) =~= fields_view(old(dst)@).push((name@, value@, flags)));
}

/// The header fields `v` as values.
pub open spec fn fields_view(v: Seq<(Vec<u8>, Vec<u8>, u8)>) -> Seq<Field> {
    v.map_values(|f: (Vec<u8>, Vec<u8>, u8)| (f.0@, f.1@, f.2))
}

impl Default for Decoder {
    /// A decoder whose dynamic table, and the protocol's ceiling on it, are
    /// 4096 octets.
    fn default() -> (r: Decoder)
        ensures
            r.wf(),
            r.entries() == Seq::<Entry>::empty(),
            r.table.max_size() == 4096,
            r.ceiling() == 4096,
    {
        Decoder::with_dynamic_size(DEFAULT_MAX_DYNAMIC_SIZE)
    }
}

} // verus!

verus! {

/// The flags a decoded literal carries for the encoder flags it was
/// written with.
pub open spec fn decoded_flags(flags: u8) -> u8 {
    if has_flag(flags, 0x4) {
        0x4
    } else if has_flag(flags, 0x8) {
        0x8
    } else {
        0
    }
}

/// A string literal reads back as the octets written, whatever follows it.
pub proof fn lemma_string_round_trip(data: Seq<u8>, huffman: bool, rest: Seq<u8>)
    requires
        data.len() <= u32::MAX,
        huffman_encoded(data).len() <= u32::MAX,
    ensures
        string_read(string_encoded(data, huffman) + rest) == StrRead::Value(
            data,
            string_encoded(data, huffman).len(),
        ),
{
    reveal(string_read);
    lemma2_to64();
    let tag: u8 = if huffman {
        0x80
    } else {
        0
    };
    let payload = if huffman {
        huffman_encoded(data)
    } else {
        data
    };
    let l = payload.len();
    let head = int_encoded(l, tag, 7);
    assert(string_encoded(data, huffman) == head + payload);
    let b = string_encoded(data, huffman) + rest;
    assert(b =~= head + (payload + rest));
    assert(prefix_max(7) == 127);
    assert(tag & 127 == 0) by (bit_vector)
        requires
            tag == 0x80 || tag == 0,
    ;
    lemma_int_round_trip(l as u32, tag, 7, payload + rest);
    let first = b[0];
    if l < 127 {
        let x = l as u8;
        assert(first == tag | x);
        assert((tag | x) & 0x80 == tag) by (bit_vector)
            requires
                tag == 0x80 || tag == 0,
                x < 127,
        ;
    } else {
        assert(first == tag | 127);
        assert((tag | 127) & 0x80 == tag) by (bit_vector)
            requires
                tag == 0x80 || tag == 0,
        ;
    }
    let k = head.len();
    assert(b.subrange(k as int, (k + l) as int) =~= payload);
    if huffman {
        lemma_huffman_round_trip(data);
    }
}

/// The name and value strings of a literal with a zero index read back as
/// written.
#[verifier::rlimit(50)]
proof fn lemma_literal_read(
    d: Seq<Entry>,
    name: Seq<u8>,
    value: Seq<u8>,
    flags: u8,
    head: u8,
    rest: Seq<u8>,
    n: nat,
)
    requires
        name.len() <= u32::MAX,
        value.len() <= u32::MAX,
        huffman_encoded(name).len() <= u32::MAX,
        huffman_encoded(value).len() <= u32::MAX,
        4 <= n <= 6,
        head & (prefix_max(n) as u8) == 0,
    ensures
        literal_read(
            d,
            seq![head] + string_encoded(name, has_flag(flags, 0x1)) + string_encoded(
                value,
                has_flag(flags, 0x2),
            ) + rest,
            n,
        ) == Some(
            Ok::<(Seq<u8>, Seq<u8>, nat), DecoderError>(
                (
                    name,
                    value,
                    1 + string_encoded(name, has_flag(flags, 0x1)).len() + string_encoded(
                        value,
                        has_flag(flags, 0x2),
                    ).len(),
                ),
            ),
        ),
{
    lemma2_to64();
    let sn = string_encoded(name, has_flag(flags, 0x1));
    let sv = string_encoded(value, has_flag(flags, 0x2));
    let b = seq![head] + sn + sv + rest;
    lemma_string_round_trip(name, has_flag(flags, 0x1), sv + rest);
    lemma_string_round_trip(value, has_flag(flags, 0x2), rest);
    assert(b.skip(1) =~= sn + (sv + rest));
    assert(b.skip(1 + sn.len() as int) =~= sv + rest);
    assert(b[0] == head);
    assert(int_read(b, n) == IntRead::Value(0, 1));
}

/// A literal header field written by the encoder reads back as that field,
/// with the same change to the dynamic table, whatever follows it.
#[verifier::rlimit(100)]
pub proof fn lemma_literal_round_trip(
    d: Seq<Entry>,
    max: nat,
    ceiling: nat,
    name: Seq<u8>,
    value: Seq<u8>,
    flags: u8,
    rest: Seq<u8>,
    seen: bool,
)
    requires
        name.len() <= u32::MAX,
        value.len() <= u32::MAX,
        huffman_encoded(name).len() <= u32::MAX,
        huffman_encoded(value).len() <= u32::MAX,
    ensures
        step_read(d, max, ceiling, literal_bytes(name, value, flags) + rest, seen) == StepRead::Field(
            (name, value, decoded_flags(flags)),
            literal_bytes(name, value, flags).len(),
            literal_outcome(d, max, name, value, flags).1,
        ),
{
    lemma2_to64();
    let sn = string_encoded(name, has_flag(flags, 0x1));
    let sv = string_encoded(value, has_flag(flags, 0x2));
    let b = literal_bytes(name, value, flags) + rest;
    assert(literal_bytes(name, value, flags).len() == 1 + sn.len() + sv.len());
    assert(prefix_max(6) == 63 && prefix_max(4) == 15);
    if has_flag(flags, 0x4) {
        let head: u8 = 0x40;
        assert(b =~= seq![head] + sn + sv + rest);
        assert(head & 0x80 == 0 && head & 0xc0 == 0x40 && head & 63 == 0) by (bit_vector)
            requires
                head == 0x40,
        ;
        lemma_literal_read(d, name, value, flags, head, rest, 6);
        reveal(step_read);
    } else if has_flag(flags, 0x8) {
        let head: u8 = 0x10;
        assert(b =~= seq![head] + sn + sv + rest);
        assert(head & 0x80 == 0 && head & 0xc0 != 0x40 && head & 0xe0 != 0x20 && head & 0xf0 == 0x10
            && head & 15 == 0) by (bit_vector)
            requires
                head == 0x10,
        ;
        lemma_literal_read(d, name, value, flags, head, rest, 4);
        reveal(step_read);
    } else {
        let head: u8 = 0x00;
        assert(b =~= seq![head] + sn + sv + rest);
        assert(head & 0x80 == 0 && head & 0xc0 != 0x40 && head & 0xe0 != 0x20 && head & 0xf0 != 0x10
            && head & 15 == 0) by (bit_vector)
            requires
                head == 0,
        ;
        lemma_literal_read(d, name, value, flags, head, rest, 4);
        reveal(step_read);
    }
}

/// Header fields written one after the other as literals over dynamic
/// entries `d` of maximum size `max`: the octets and the dynamic entries
/// after them.
pub open spec fn literals_encoded(d: Seq<Entry>, max: nat, fields: Seq<Field>) -> (Seq<u8>, Seq<Entry>)
    decreases fields.len(),
{
    if fields.len() == 0 {
        (seq![], d)
    } else {
        let f = fields[0];
        let (bytes, d1) = literal_outcome(d, max, f.0, f.1, f.2);
        let (more, d2) = literals_encoded(d1, max, fields.skip(1));
        (bytes + more, d2)
    }
}

/// Whether every field's name and value fit the 32-bit lengths of the wire
/// format, as written and Huffman encoded.
pub open spec fn fields_fit(fields: Seq<Field>) -> bool {
    forall|i: int|
        0 <= i < fields.len() ==> {
            let f = #[trigger] fields[i];
            &&& f.0.len() <= u32::MAX
            &&& f.1.len() <= u32::MAX
            &&& huffman_encoded(f.0).len() <= u32::MAX
            &&& huffman_encoded(f.1).len() <= u32::MAX
        }
}

/// A decoder reads back the header fields an encoder wrote as literals, with
/// the same dynamic table and maximum size on both sides: the fields come
/// back with their names and values, the flags tell which were indexed and
/// which must never be, and the two tables end up equal.
#[verifier::rlimit(50)]
pub proof fn lemma_literals_round_trip(
    d: Seq<Entry>,
    max: nat,
    ceiling: nat,
    fields: Seq<Field>,
    seen: bool,
)
    requires
        fields_fit(fields),
    ensures
        block_read(d, max, ceiling, literals_encoded(d, max, fields).0, seen) == (BlockRead {
            fields: fields.map_values(|f: Field| (f.0, f.1, decoded_flags(f.2))),
            entries: literals_encoded(d, max, fields).1,
            max,
            error: None,
        }),
    decreases fields.len(),
{
    let decoded = fields.map_values(|f: Field| (f.0, f.1, decoded_flags(f.2)));
    if fields.len() == 0 {
        assert(decoded =~= Seq::<Field>::empty());
    } else {
        let f = fields[0];
        let (bytes, d1) = literal_outcome(d, max, f.0, f.1, f.2);
        let tail = fields.skip(1);
        assert(fields_fit(tail)) by {
            assert forall|i: int| 0 <= i < tail.len() implies {
                let g = #[trigger] tail[i];
                &&& g.0.len() <= u32::MAX
                &&& g.1.len() <= u32::MAX
                &&& huffman_encoded(g.0).len() <= u32::MAX
                &&& huffman_encoded(g.1).len() <= u32::MAX
            } by {
                assert(tail[i] == fields[i + 1]);
            }
        }
        assert(fields[0] == f);
        let (more, d2) = literals_encoded(d1, max, tail);
        lemma_literals_round_trip(d1, max, ceiling, tail, true);
        lemma_literal_round_trip(d, max, ceiling, f.0, f.1, f.2, more, seen);
        let b = bytes + more;
        assert(b.len() > 0) by {
            assert(bytes.len() > 0);
        }
        assert(b.skip(bytes.len() as int) =~= more);
        let tail_decoded = tail.map_values(|g: Field| (g.0, g.1, decoded_flags(g.2)));
        assert(decoded =~= seq![(f.0, f.1, decoded_flags(f.2))] + tail_decoded);
    }
}

} // verus!

verus! {

/// The name of entry `i` of the combined space over `d`.
pub open spec fn entry_name(d: Seq<Entry>, i: int) -> Seq<u8> {
    match entry_at(d, i) {
        Some(e) => e.0,
        None => seq![],
    }
}

/// The first octet of an N-prefix integer is its tag over a prefix value.
proof fn lemma_int_head(v: nat, tag: u8, n: nat)
    requires
        1 <= n <= 8,
    ensures
        int_encoded(v, tag, n).len() >= 1,
        exists|x: u8| x <= prefix_max(n) && #[trigger] (tag | x) == int_encoded(v, tag, n)[0],
{
    lemma2_to64();
    if v < prefix_max(n) {
        let x = v as u8;
        assert((tag | x) == int_encoded(v, tag, n)[0]);
    } else {
        let x = prefix_max(n) as u8;
        assert((tag | x) == int_encoded(v, tag, n)[0]);
    }
}

/// An indexed header field written by the encoder reads back as the entry
/// at its index, whatever follows it.
#[verifier::rlimit(50)]
proof fn lemma_indexed_round_trip(d: Seq<Entry>, max: nat, ceiling: nat, i: nat, rest: Seq<u8>, seen: bool)
    requires
        entry_at(d, i as int) is Some,
        i <= u32::MAX,
    ensures
        ({
            let e = entry_at(d, i as int)->0;
            step_read(d, max, ceiling, indexed_bytes(i) + rest, seen) == StepRead::Field(
                (e.0, e.1, 0),
                indexed_bytes(i).len(),
                d,
            )
        }),
{
    lemma2_to64();
    let b = indexed_bytes(i) + rest;
    assert(prefix_max(7) == 127);
    assert(0x80u8 & 127 == 0) by (bit_vector);
    lemma_int_round_trip(i as u32, 0x80, 7, rest);
    lemma_int_head(i, 0x80, 7);
    let x = choose|x: u8| x <= prefix_max(7) && #[trigger] (0x80u8 | x) == int_encoded(i, 0x80, 7)[0];
    assert((0x80u8 | x) & 0x80 == 0x80) by (bit_vector);
    assert(b[0] == (0x80u8 | x));
    reveal(step_read);
}

/// A header field named by an index, written by the encoder, reads back as
/// that entry's name with the value written, with the same change to the
/// dynamic table, whatever follows it.
#[verifier::rlimit(100)]
proof fn lemma_indexed_name_round_trip(
    d: Seq<Entry>,
    max: nat,
    ceiling: nat,
    i: nat,
    value: Seq<u8>,
    flags: u8,
    rest: Seq<u8>,
    seen: bool,
)
    requires
        entry_at(d, i as int) is Some,
        i <= u32::MAX,
        value.len() <= u32::MAX,
        huffman_encoded(value).len() <= u32::MAX,
    ensures
        ({
            let e = entry_at(d, i as int)->0;
            let (bytes, d2) = indexed_name_outcome(d, max, i, value, flags)->0;
            step_read(d, max, ceiling, bytes + rest, seen) == StepRead::Field(
                (e.0, value, decoded_flags(flags)),
                bytes.len(),
                d2,
            )
        }),
{
    lemma2_to64();
    assert(i >= 1);
    let sv = string_encoded(value, has_flag(flags, 0x2));
    lemma_string_round_trip(value, has_flag(flags, 0x2), rest);
    assert(prefix_max(6) == 63 && prefix_max(4) == 15);
    let (tag, n): (u8, nat) = if has_flag(flags, 0x4) {
        (0x40, 6)
    } else if has_flag(flags, 0x8) {
        (0x10, 4)
    } else {
        (0, 4)
    };
    let head = int_encoded(i, tag, n);
    let b = indexed_name_bytes(i, value, flags) + rest;
    assert(b =~= head + (sv + rest));
    let pm = prefix_max(n) as u8;
    assert((tag == 0x40 && pm == 63) || (tag == 0x10 && pm == 15) || (tag == 0 && pm == 15));
    assert(tag & pm == 0) by (bit_vector)
        requires
            (tag == 0x40 && pm == 63) || (tag == 0x10 && pm == 15) || (tag == 0 && pm == 15),
    ;
    lemma_int_round_trip(i as u32, tag, n, sv + rest);
    assert(b.skip(head.len() as int) =~= sv + rest);
    lemma_int_head(i, tag, n);
    let x = choose|x: u8| x <= prefix_max(n) && #[trigger] (tag | x) == int_encoded(i, tag, n)[0];
    assert(b[0] == (tag | x));
    if has_flag(flags, 0x4) {
        assert((tag | x) & 0x80 == 0 && (tag | x) & 0xc0 == 0x40) by (bit_vector)
            requires
                tag == 0x40,
                x <= 63,
        ;
    } else if has_flag(flags, 0x8) {
        assert((tag | x) & 0x80 == 0 && (tag | x) & 0xc0 != 0x40 && (tag | x) & 0xe0 != 0x20 && (tag
            | x) & 0xf0 == 0x10) by (bit_vector)
            requires
                tag == 0x10,
                x <= 15,
        ;
    } else {
        assert((tag | x) & 0x80 == 0 && (tag | x) & 0xc0 != 0x40 && (tag | x) & 0xe0 != 0x20 && (tag
            | x) & 0xf0 != 0x10) by (bit_vector)
            requires
                tag == 0,
                x <= 15,
        ;
    }
    assert(literal_read(d, b, n) == Some(
        Ok::<(Seq<u8>, Seq<u8>, nat), DecoderError>(
            (entry_name(d, i as int), value, head.len() + sv.len()),
        ),
    ));
    reveal(step_read);
}

/// A header field given by name and value, written by the encoder in any
/// representation its flags allow, reads back with that name and value and
/// the same change to the dynamic table, whatever follows it.
#[verifier::rlimit(50)]
pub proof fn lemma_best_round_trip(
    d: Seq<Entry>,
    max: nat,
    ceiling: nat,
    name: Seq<u8>,
    value: Seq<u8>,
    flags: u8,
    rest: Seq<u8>,
    seen: bool,
)
    requires
        name.len() <= u32::MAX,
        value.len() <= u32::MAX,
        huffman_encoded(name).len() <= u32::MAX,
        huffman_encoded(value).len() <= u32::MAX,
        entries_size(d) <= max <= u32::MAX,
    ensures
        best_outcome(d, max, name, value, flags) matches Some((bytes, d2)) && step_read(
            d,
            max,
            ceiling,
            bytes + rest,
            seen,
        ) matches StepRead::Field(f, k, d3) && f.0 == name && f.1 == value && k == bytes.len() && d3
            == d2,
{
    lemma_entries_size_len(d);
    if has_flag(flags, 0x10) {
        lemma_find_result(d, name, value);
        match find_result(d, name, value) {
            Some((i, true)) => {
                lemma_indexed_round_trip(d, max, ceiling, i as nat, rest, seen);
            },
            Some((i, false)) => {
                lemma_indexed_name_round_trip(d, max, ceiling, i as nat, value, flags, rest, seen);
            },
            None => {
                lemma_literal_round_trip(d, max, ceiling, name, value, flags, rest, seen);
            },
        }
    } else {
        lemma_literal_round_trip(d, max, ceiling, name, value, flags, rest, seen);
    }
}

/// Header fields given by name, value and flags, written one after the
/// other by the encoder over dynamic entries `d` of maximum size `max`: the
/// octets and the dynamic entries after them.
pub open spec fn fields_encoded(d: Seq<Entry>, max: nat, fields: Seq<Field>) -> (Seq<u8>, Seq<Entry>)
    decreases fields.len(),
{
    if fields.len() == 0 {
        (seq![], d)
    } else {
        let f = fields[0];
        match best_outcome(d, max, f.0, f.1, f.2) {
            Some((bytes, d1)) => {
                let (more, d2) = fields_encoded(d1, max, fields.skip(1));
                (bytes + more, d2)
            },
            None => (seq![], d),
        }
    }
}

/// Names and values of header fields.
pub open spec fn pairs(fields: Seq<Field>) -> Seq<(Seq<u8>, Seq<u8>)> {
    fields.map_values(|f: Field| (f.0, f.1))
}

/// A decoder reads back the header fields an encoder wrote, in whatever
/// representations their flags chose, when both start from the same dynamic
/// table and maximum size: the same names and values come back, nothing
/// fails, and both tables end up equal.
#[verifier::rlimit(50)]
pub proof fn lemma_fields_round_trip(
    d: Seq<Entry>,
    max: nat,
    ceiling: nat,
    fields: Seq<Field>,
    seen: bool,
)
    requires
        fields_fit(fields),
        entries_size(d) <= max <= u32::MAX,
    ensures
        ({
            let r = block_read(d, max, ceiling, fields_encoded(d, max, fields).0, seen);
            &&& pairs(r.fields) == pairs(fields)
            &&& r.entries == fields_encoded(d, max, fields).1
            &&& r.max == max
            &&& r.error is None
        }),
    decreases fields.len(),
{
    if fields.len() == 0 {
        assert(pairs(fields) =~= Seq::<(Seq<u8>, Seq<u8>)>::empty());
        assert(pairs(Seq::<Field>::empty()) =~= Seq::<(Seq<u8>, Seq<u8>)>::empty());
    } else {
        let f = fields[0];
        let tail = fields.skip(1);
        assert(fields_fit(tail)) by {
            assert forall|i: int| 0 <= i < tail.len() implies {
                let g = #[trigger] tail[i];
                &&& g.0.len() <= u32::MAX
                &&& g.1.len() <= u32::MAX
                &&& huffman_encoded(g.0).len() <= u32::MAX
                &&& huffman_encoded(g.1).len() <= u32::MAX
            } by {
                assert(tail[i] == fields[i + 1]);
            }
        }
        lemma_best_round_trip(d, max, ceiling, f.0, f.1, f.2, seq![], seen);
        let (bytes, d1) = best_outcome(d, max, f.0, f.1, f.2)->0;
        lemma_best_size(d, max, f.0, f.1, f.2);
        let (more, d2) = fields_encoded(d1, max, tail);
        lemma_fields_round_trip(d1, max, ceiling, tail, true);
        lemma_best_round_trip(d, max, ceiling, f.0, f.1, f.2, more, seen);
        assert(bytes + seq![] =~= bytes);
        let b = bytes + more;
        assert(b.skip(bytes.len() as int) =~= more);
        let r1 = block_read(d1, max, ceiling, more, true);
        let g = match step_read(d, max, ceiling, b, seen) {
            StepRead::Field(g, _, _) => g,
            _ => f,
        };
        assert(pairs(seq![g] + r1.fields) =~= seq![(g.0, g.1)] + pairs(r1.fields));
        assert(pairs(fields) =~= seq![(f.0, f.1)] + pairs(tail));
    }
}

/// What the encoder writes for a field keeps the dynamic table within its
/// maximum size.
proof fn lemma_best_size(d: Seq<Entry>, max: nat, name: Seq<u8>, value: Seq<u8>, flags: u8)
    requires
        entries_size(d) <= max,
    ensures
        best_outcome(d, max, name, value, flags) matches Some((bytes, d1)) ==> entries_size(d1)
            <= max,
{
    lemma_find_result(d, name, value);
    lemma_inserted_size(d, max, (name, value));
    match find_result(d, name, value) {
        Some((i, false)) => {
            lemma_inserted_size(d, max, (entry_name(d, i), value));
        },
        _ => {},
    }
}

} // verus!
