//! The HPACK encoder: turns header fields into their wire representations
//! (RFC 7541, section 6) and keeps the indexing table in step.
use crate::primitives::{encode_integer, encode_string, int_encoded, string_encoded};
use crate::table::{entries_size, entry_at, evicted, find_result, inserted, to_owned, Entry, Table};
use vstd::prelude::*;

verus! {

/// A header field to encode, in one of the shapes the encoder accepts.
#[derive(Debug)]
pub enum EncoderInput<'a> {
    /// A header field fully stored in the indexing table, by its index.
    Indexed(u32),
    /// A header field whose name is taken from the indexing table, with its
    /// value octets and flags.
    IndexedNameOwned(u32, Vec<u8>, u8),
    IndexedNameBorrowed(u32, &'a [u8], u8),
    /// A header field given by its name and value octets, with flags.
    LiteralOwned(Vec<u8>, Vec<u8>, u8),
    LiteralBorrowed(&'a [u8], &'a [u8], u8),
}

impl<'a> From<u32> for EncoderInput<'a> {
    fn from(field: u32) -> Self {
        EncoderInput::Indexed(field)
    }
}

impl<'a> vstd::std_specs::convert::FromSpecImpl<u32> for EncoderInput<'a> {
    open spec fn obeys_from_spec() -> bool {
        true
    }

    open spec fn from_spec(v: u32) -> Self {
        EncoderInput::Indexed(v)
    }
}

impl<'a> From<(u32, Vec<u8>, u8)> for EncoderInput<'a> {
    fn from(field: (u32, Vec<u8>, u8)) -> Self {
        EncoderInput::IndexedNameOwned(field.0, field.1, field.2)
    }
}

impl<'a> vstd::std_specs::convert::FromSpecImpl<(u32, Vec<u8>, u8)> for EncoderInput<'a> {
    open spec fn obeys_from_spec() -> bool {
        true
    }

    open spec fn from_spec(v: (u32, Vec<u8>, u8)) -> Self {
        EncoderInput::IndexedNameOwned(v.0, v.1, v.2)
    }
}

impl<'a> From<(u32, &'a [u8], u8)> for EncoderInput<'a> {
    fn from(field: (u32, &'a [u8], u8)) -> Self {
        EncoderInput::IndexedNameBorrowed(field.0, field.1, field.2)
    }
}

impl<'a> vstd::std_specs::convert::FromSpecImpl<(u32, &'a [u8], u8)> for EncoderInput<'a> {
    open spec fn obeys_from_spec() -> bool {
        true
    }

    open spec fn from_spec(v: (u32, &'a [u8], u8)) -> Self {
        EncoderInput::IndexedNameBorrowed(v.0, v.1, v.2)
    }
}

impl<'a> From<(Vec<u8>, Vec<u8>, u8)> for EncoderInput<'a> {
    fn from(field: (Vec<u8>, Vec<u8>, u8)) -> Self {
        EncoderInput::LiteralOwned(field.0, field.1, field.2)
    }
}

impl<'a> vstd::std_specs::convert::FromSpecImpl<(Vec<u8>, Vec<u8>, u8)> for EncoderInput<'a> {
    open spec fn obeys_from_spec() -> bool {
        true
    }

    open spec fn from_spec(v: (Vec<u8>, Vec<u8>, u8)) -> Self {
        EncoderInput::LiteralOwned(v.0, v.1, v.2)
    }
}

impl<'a> From<(&'a [u8], &'a [u8], u8)> for EncoderInput<'a> {
    fn from(field: (&'a [u8], &'a [u8], u8)) -> Self {
        EncoderInput::LiteralBorrowed(field.0, field.1, field.2)
    }
}

impl<'a> vstd::std_specs::convert::FromSpecImpl<(&'a [u8], &'a [u8], u8)> for EncoderInput<'a> {
    open spec fn obeys_from_spec() -> bool {
        true
    }

    open spec fn from_spec(v: (&'a [u8], &'a [u8], u8)) -> Self {
        EncoderInput::LiteralBorrowed(v.0, v.1, v.2)
    }
}

/// The ways an encoding call can fail.
#[derive(Debug, PartialEq, Eq, Structural, Clone, Copy)]
pub enum EncoderError {
    /// The index refers to no entry of the indexing table.
    InvalidIndex,
}

/// Whether `flag` is set in `flags`.
pub open spec fn has_flag(flags: u8, flag: u8) -> bool {
    flags & flag == flag
}

/// The indexed header field representation of index `i`.
pub open spec fn indexed_bytes(i: nat) -> Seq<u8> {
    int_encoded(i, 0x80, 7)
}

/// The literal representation of a field whose name is entry `i`.
pub open spec fn indexed_name_bytes(i: nat, value: Seq<u8>, flags: u8) -> Seq<u8> {
    let head = if has_flag(flags, 0x4) {
        int_encoded(i, 0x40, 6)
    } else if has_flag(flags, 0x8) {
        int_encoded(i, 0x10, 4)
    } else {
        int_encoded(i, 0x00, 4)
    };
    head + string_encoded(value, has_flag(flags, 0x2))
}

/// The literal representation of a field with a literal name.
pub open spec fn literal_bytes(name: Seq<u8>, value: Seq<u8>, flags: u8) -> Seq<u8> {
    let head: u8 = if has_flag(flags, 0x4) {
        0x40
    } else if has_flag(flags, 0x8) {
        0x10
    } else {
        0x00
    };
    seq![head] + string_encoded(name, has_flag(flags, 0x1)) + string_encoded(
        value,
        has_flag(flags, 0x2),
    )
}

/// Output and new dynamic entries of encoding entry `i` as an indexed field,
/// over dynamic entries `d`; `None` when there is no entry `i`.
pub open spec fn indexed_outcome(d: Seq<Entry>, i: nat) -> Option<(Seq<u8>, Seq<Entry>)> {
    if entry_at(d, i as int) is Some {
        Some((indexed_bytes(i), d))
    } else {
        None
    }
}

/// Output and new dynamic entries of encoding a field named by entry `i`,
/// over dynamic entries `d` of maximum size `max`; `None` when there is no
/// entry `i`.
pub open spec fn indexed_name_outcome(
    d: Seq<Entry>,
    max: nat,
    i: nat,
    value: Seq<u8>,
    flags: u8,
) -> Option<(Seq<u8>, Seq<Entry>)> {
    match entry_at(d, i as int) {
        Some(e) => Some(
            (
                indexed_name_bytes(i, value, flags),
                if has_flag(flags, 0x4) {
                    inserted(d, max, (e.0, value))
                } else {
                    d
                },
            ),
        ),
        None => None,
    }
}

/// Output and new dynamic entries of encoding a field with a literal name.
pub open spec fn literal_outcome(
    d: Seq<Entry>,
    max: nat,
    name: Seq<u8>,
    value: Seq<u8>,
    flags: u8,
) -> (Seq<u8>, Seq<Entry>) {
    (
        literal_bytes(name, value, flags),
        if has_flag(flags, 0x4) {
            inserted(d, max, (name, value))
        } else {
            d
        },
    )
}

/// Output and new dynamic entries of encoding a field given by name and
/// value: with the best-format flag, an exact match in the table is sent as
/// an indexed field and a name match by its index; otherwise, and when
/// nothing matches, as a literal.
pub open spec fn best_outcome(
    d: Seq<Entry>,
    max: nat,
    name: Seq<u8>,
    value: Seq<u8>,
    flags: u8,
) -> Option<(Seq<u8>, Seq<Entry>)> {
    if has_flag(flags, 0x10) {
        match find_result(d, name, value) {
            Some((i, true)) => indexed_outcome(d, i as nat),
            Some((i, false)) => indexed_name_outcome(d, max, i as nat, value, flags),
            None => Some(literal_outcome(d, max, name, value, flags)),
        }
    } else {
        Some(literal_outcome(d, max, name, value, flags))
    }
}

/// Output and new dynamic entries of encoding `field`.
pub open spec fn input_outcome(d: Seq<Entry>, max: nat, field: EncoderInput) -> Option<
    (Seq<u8>, Seq<Entry>),
> {
    match field {
        EncoderInput::Indexed(i) => indexed_outcome(d, i as nat),
        EncoderInput::IndexedNameOwned(i, v, f) => indexed_name_outcome(d, max, i as nat, v@, f),
        EncoderInput::IndexedNameBorrowed(i, v, f) => indexed_name_outcome(d, max, i as nat, v@, f),
        EncoderInput::LiteralOwned(n, v, f) => best_outcome(d, max, n@, v@, f),
        EncoderInput::LiteralBorrowed(n, v, f) => best_outcome(d, max, n@, v@, f),
    }
}

/// The encoding engine: the indexing table it shares with a decoder.
pub struct Encoder {
    /// The static and the dynamic headers.
    pub table: Table,
}

impl Encoder {
    /// Flag: encode the header name with the Huffman code.
    pub const HUFFMAN_NAME: u8 = 0x1;

    /// Flag: encode the header value with the Huffman code.
    pub const HUFFMAN_VALUE: u8 = 0x2;

    /// Flag: literal header field with incremental indexing.
    pub const WITH_INDEXING: u8 = 0x4;

    /// Flag: literal header field never indexed.
    pub const NEVER_INDEXED: u8 = 0x8;

    /// Flag: look the field up in the table for its shortest representation.
    pub const BEST_FORMAT: u8 = 0x10;

    pub open spec fn wf(&self) -> bool {
        self.table.wf()
    }

    /// The dynamic entries of the table, newest first.
    pub open spec fn entries(&self) -> Seq<Entry> {
        self.table.dynamic_entries()
    }

    /// Returns an encoder whose dynamic table holds at most `max_dynamic_size`
    /// octets.
    pub fn with_dynamic_size(max_dynamic_size: u32) -> (r: Encoder)
        ensures
            r.wf(),
            r.entries() == Seq::<Entry>::empty(),
            r.table.max_size() == max_dynamic_size,
    {
        Encoder { table: Table::with_dynamic_size(max_dynamic_size) }
    }

    /// Returns the maximum size of the dynamic table.
    pub fn max_dynamic_size(&mut self) -> (r: u32)
        ensures
            r == old(self).table.max_size(),
            *final(self) == *old(self),
    {
        self.table.max_dynamic_size()
    }

    /// Encodes `field` into its HPACK representation, appended to `dst`.
    ///
    /// Flags of a literal: `0x1` Huffman name, `0x2` Huffman value, `0x4`
    /// incremental indexing, `0x8` never indexed, `0x10` best representation.
    /// A failed call changes neither `dst` nor the table.
    pub fn encode(&mut self, field: EncoderInput, dst: &mut Vec<u8>) -> (r: Result<(), EncoderError>)
        requires
            old(self).wf(),
        ensures
            final(self).wf(),
            entries_size(final(self).entries()) <= final(self).table.max_size(),
            final(self).table.max_size() == old(self).table.max_size(),
            match input_outcome(old(self).entries(), old(self).table.max_size(), field) {
                Some((bytes, d)) => r is Ok && final(dst)@ == old(dst)@ + bytes
                    && final(self).entries() == d,
                None => r == Err::<(), EncoderError>(EncoderError::InvalidIndex) && final(dst)@
                    == old(dst)@ && final(self).entries() == old(self).entries(),
            },
    {
        let r = match field {
            EncoderInput::Indexed(index) => self.encode_indexed(index, dst),
            EncoderInput::IndexedNameBorrowed(index, value, flags) => {
                self.encode_indexed_name(index, value, flags, dst)
            },
            EncoderInput::IndexedNameOwned(index, value, flags) => {
                self.encode_indexed_name(index, value.as_slice(), flags, dst)
            },
            EncoderInput::LiteralBorrowed(name, value, flags) => {
                self.encode_best(name, value, flags, dst)
            },
            EncoderInput::LiteralOwned(name, value, flags) => {
                self.encode_best(name.as_slice(), value.as_slice(), flags, dst)
            },
        };
        proof {
            self.table.lemma_size_bound();
        }
        r
    }

    /// Encodes a field given by name and value, as a table reference where
    /// the best-format flag asks for one and the table allows it.
    fn encode_best(&mut self, name: &[u8], value: &[u8], flags: u8, dst: &mut Vec<u8>) -> (r:
        Result<(), EncoderError>)
        requires
            old(self).wf(),
        ensures
            final(self).wf(),
            final(self).table.max_size() == old(self).table.max_size(),
            match best_outcome(old(self).entries(), old(self).table.max_size(), name@, value@, flags) {
                Some((bytes, d)) => r is Ok && final(dst)@ == old(dst)@ + bytes
                    && final(self).entries() == d,
                None => r == Err::<(), EncoderError>(EncoderError::InvalidIndex) && final(dst)@
                    == old(dst)@ && final(self).entries() == old(self).entries(),
            },
    {
        if flags & 0x10 == 0x10 {
            proof {
                self.table.lemma_size_bound();
            }
            match self.table.find(name, value) {
                Some((index, true)) => {
                    assert(index <= 0xffff_ffff);
                    self.encode_indexed(index as u32, dst)
                },
                Some((index, false)) => {
                    assert(index <= 0xffff_ffff);
                    self.encode_indexed_name(index as u32, value, flags, dst)
                },
                None => self.encode_literal(name, value, flags, dst),
            }
        } else {
            self.encode_literal(name, value, flags, dst)
        }
    }

    /// Encodes the entry at `index` as an indexed header field.
    pub fn encode_indexed(&self, index: u32, dst: &mut Vec<u8>) -> (r: Result<(), EncoderError>)
        requires
            self.wf(),
        ensures
            match indexed_outcome(self.entries(), index as nat) {
                Some((bytes, _)) => r is Ok && final(dst)@ == old(dst)@ + bytes,
                None => r == Err::<(), EncoderError>(EncoderError::InvalidIndex) && final(dst)@
                    == old(dst)@,
            },
    {
        if self.table.get(index).is_none() {
            return Err(EncoderError::InvalidIndex);
        }
        encode_integer(index as u64, 0x80, 7, dst);
        Ok(())
    }

    /// Encodes a field whose name is the entry at `index` and whose value is
    /// `value`, as a literal with incremental indexing (`0x4`, which inserts
    /// it into the table), never indexed (`0x8`) or without indexing; `0x2`
    /// Huffman encodes the value.
    pub fn encode_indexed_name(&mut self, index: u32, value: &[u8], flags: u8, dst: &mut Vec<u8>) -> (r:
        Result<(), EncoderError>)
        requires
            old(self).wf(),
        ensures
            final(self).wf(),
            final(self).table.max_size() == old(self).table.max_size(),
            match indexed_name_outcome(
                old(self).entries(),
                old(self).table.max_size(),
                index as nat,
                value@,
                flags,
            ) {
                Some((bytes, d)) => r is Ok && final(dst)@ == old(dst)@ + bytes
                    && final(self).entries() == d,
                None => r == Err::<(), EncoderError>(EncoderError::InvalidIndex) && final(dst)@
                    == old(dst)@ && final(self).entries() == old(self).entries(),
            },
    {
        let name = match self.table.get(index) {
            Some(entry) => to_owned(entry.0),
            None => {
                return Err(EncoderError::InvalidIndex);
            },
        };
        if flags & 0x4 == 0x4 {
            self.table.insert(name, to_owned(value));
            encode_integer(index as u64, 0x40, 6, dst);
        } else if flags & 0x8 == 0x8 {
            encode_integer(index as u64, 0x10, 4, dst);
        } else {
            encode_integer(index as u64, 0x00, 4, dst);
        }
        encode_string(value, flags & 0x2 == 0x2, dst);
        assert(dst@ =~= old(dst)@ + indexed_name_bytes(index as nat, value@, flags));
        Ok(())
    }

    /// Encodes a field given by name and value as a literal with incremental
    /// indexing (`0x4`, which inserts it into the table), never indexed
    /// (`0x8`) or without indexing; `0x1` and `0x2` Huffman encode the name
    /// and the value.
    pub fn encode_literal(&mut self, name: &[u8], value: &[u8], flags: u8, dst: &mut Vec<u8>) -> (r:
        Result<(), EncoderError>)
        requires
            old(self).wf(),
        ensures
            final(self).wf(),
            final(self).table.max_size() == old(self).table.max_size(),
            r is Ok,
            (final(dst)@, final(self).entries()) == (
                old(dst)@ + literal_outcome(
                    old(self).entries(),
                    old(self).table.max_size(),
                    name@,
                    value@,
                    flags,
                ).0,
                literal_outcome(
                    old(self).entries(),
                    old(self).table.max_size(),
                    name@,
                    value@,
                    flags,
                ).1,
            ),
    {
        if flags & 0x4 == 0x4 {
            dst.push(0x40);
            self.table.insert(to_owned(name), to_owned(value));
        } else if flags & 0x8 == 0x8 {
            dst.push(0x10);
        } else {
            dst.push(0x00);
        }
        encode_string(name, flags & 0x1 == 0x1, dst);
        encode_string(value, flags & 0x2 == 0x2, dst);
        assert(dst@ =~= old(dst)@ + literal_bytes(name@, value@, flags));
        Ok(())
    }

    /// Sets the maximum size of the dynamic table, evicting the oldest entries
    /// until the rest fits, and appends the dynamic table size update signal.
    pub fn update_max_dynamic_size(&mut self, size: u32, dst: &mut Vec<u8>) -> (r: Result<
        (),
        EncoderError,
    >)
        requires
            old(self).wf(),
        ensures
            final(self).wf(),
            entries_size(final(self).entries()) <= size,
            r is Ok,
            final(self).table.max_size() == size,
            final(self).entries() == evicted(old(self).entries(), size as nat),
            final(dst)@ == old(dst)@ + int_encoded(size as nat, 0x20, 5),
    {
        self.table.update_max_dynamic_size(size);
        encode_integer(size as u64, 0x20, 5, dst);
        proof {
            self.table.lemma_size_bound();
        }
        Ok(())
    }
}

impl Default for Encoder {
    /// An encoder whose dynamic table holds at most 4096 octets.
    fn default() -> (r: Encoder)
        ensures
            r.wf(),
            r.entries() == Seq::<Entry>::empty(),
            r.table.max_size() == 4096,
    {
        Encoder { table: Table::new() }
    }
}

} // verus!
