use hpack::decoder::{Decoder, DecoderError as BlockError};
use hpack::huffman::{decode as huffman_decode, encode as huffman_encode};
use hpack::primitives::{decode_integer, encode_integer, PrimitiveError};
use hpack::{DecoderError, DecoderSpeed, Encoder, EncoderError, EncoderInput, Table};

fn huffman(src: &[u8]) -> Vec<u8> {
    let mut dst = Vec::new();
    huffman_encode(src, &mut dst);
    dst
}

fn unhuffman(src: &[u8], speed: DecoderSpeed) -> Result<Vec<u8>, DecoderError> {
    let mut dst = Vec::new();
    huffman_decode(src, &mut dst, speed)?;
    Ok(dst)
}

#[test]
fn huffman_encodes_known_strings() {
    assert_eq!(huffman(b"foo"), vec![0x94, 0xe7]);
    assert_eq!(huffman(b"bar"), vec![0x8c, 0x76, 0x7f]);
    assert_eq!(huffman(b"www.example.com"), vec![0xf1, 0xe3, 0xc2, 0xe5, 0xf2, 0x3a, 0x6b, 0xa0, 0xab, 0x90, 0xf4, 0xff]);
    assert_eq!(huffman(b""), Vec::<u8>::new());
}

#[test]
fn huffman_round_trip_every_speed() {
    let long = b"Mozilla/5.0 (Macintosh; Intel Mac OS X 10.8; rv:16.0) Gecko/20100101 Firefox/16.0";
    let all: Vec<u8> = (0..=255u8).collect();
    for speed in DecoderSpeed::known() {
        assert_eq!(unhuffman(&huffman(long), speed).unwrap(), long.to_vec());
        assert_eq!(unhuffman(&huffman(&all), speed).unwrap(), all);
        assert_eq!(unhuffman(&huffman(b""), speed).unwrap(), Vec::<u8>::new());
    }
}

#[test]
fn huffman_round_trip_long_literal_four_bits() {
    let long = b"Mozilla/5.0 (Macintosh; Intel Mac OS X 10.8; rv:16.0) Gecko/20100101 Firefox/16.0";
    let coded = huffman(long);
    assert_eq!(unhuffman(&coded, DecoderSpeed::FourBits).unwrap(), long.to_vec());
}

#[test]
fn huffman_padding_of_seven_ones_is_legal() {
    // five '0' codes (25 zero bits) and seven one-bits of padding
    for speed in DecoderSpeed::known() {
        assert_eq!(unhuffman(&[0, 0, 0, 0x7f], speed).unwrap(), b"00000".to_vec());
    }
}

#[test]
fn huffman_padding_of_eight_ones_is_rejected() {
    // 'X' is the eight bits 11111100, followed by a whole octet of ones
    for speed in DecoderSpeed::known() {
        assert_eq!(unhuffman(&[0xfc], speed).unwrap(), b"X".to_vec());
        assert_eq!(unhuffman(&[0xfc, 0xff], speed), Err(DecoderError::InvalidInput));
        assert_eq!(unhuffman(&[0xff], speed), Err(DecoderError::InvalidInput));
    }
}

#[test]
fn huffman_failure_leaves_output_alone() {
    let mut dst = vec![1, 2, 3];
    assert_eq!(huffman_decode(&[0xff, 0xff, 0xff, 0xff], &mut dst, DecoderSpeed::TwoBits), Err(DecoderError::InvalidInput));
    assert_eq!(dst, vec![1, 2, 3]);
    assert_eq!(huffman_decode(&[0x94, 0xe7], &mut dst, DecoderSpeed::TwoBits), Ok(()));
    assert_eq!(dst, vec![1, 2, 3, b'f', b'o', b'o']);
}

#[test]
fn read_width_outside_one_to_five_is_rejected() {
    assert!(DecoderSpeed::from_bits(0).is_none());
    assert!(DecoderSpeed::from_bits(6).is_none());
    assert!(DecoderSpeed::from_bits(255).is_none());
    for n in 1..=5u8 {
        assert_eq!(DecoderSpeed::from_bits(n).unwrap().bits(), n);
    }
}

#[test]
fn integers_encode_as_in_the_rfc() {
    let mut dst = Vec::new();
    encode_integer(10, 0, 5, &mut dst);
    assert_eq!(dst, vec![10]);
    let mut dst = Vec::new();
    encode_integer(1337, 0, 5, &mut dst);
    assert_eq!(dst, vec![31, 154, 10]);
    let mut dst = Vec::new();
    encode_integer(42, 0, 8, &mut dst);
    assert_eq!(dst, vec![42]);
    let mut dst = Vec::new();
    encode_integer(31, 0x20, 5, &mut dst);
    assert_eq!(dst, vec![0x3f, 0]);
}

#[test]
fn integers_round_trip() {
    for n in 1..=8u8 {
        for v in [0u32, 1, 30, 31, 126, 127, 128, 255, 256, 1337, 65535, 1 << 28, u32::MAX] {
            let mut dst = Vec::new();
            encode_integer(v as u64, 0, n, &mut dst);
            dst.push(0xaa);
            let (back, len) = decode_integer(&dst, n).unwrap();
            assert_eq!(back, v);
            assert_eq!(len, dst.len() - 1);
        }
    }
}

#[test]
fn integers_reject_bad_input() {
    assert_eq!(decode_integer(&[], 5), Err(PrimitiveError::Truncated));
    assert_eq!(decode_integer(&[31, 0x80], 5), Err(PrimitiveError::Truncated));
    assert_eq!(decode_integer(&[0xff, 0xff, 0xff, 0xff, 0xff, 0x7f], 8), Err(PrimitiveError::IntegerOverflow));
    assert_eq!(decode_integer(&[0xff, 0x80, 0x80, 0x80, 0x80, 0x80, 0x01], 8), Err(PrimitiveError::IntegerOverflow));
}

#[test]
fn oversized_insert_empties_the_table() {
    let mut table = Table::with_dynamic_size(60);
    table.insert(b"a".to_vec(), b"b".to_vec());
    assert_eq!(table.dynamic_len(), 1);
    assert_eq!(table.dynamic_size(), 34);
    table.insert(b"name".to_vec(), b"a value far too long for this table".to_vec());
    assert_eq!(table.dynamic_len(), 0);
    assert_eq!(table.dynamic_size(), 0);
    assert!(table.get(62).is_none());
}

#[test]
fn insert_evicts_the_oldest() {
    let mut table = Table::with_dynamic_size(70);
    table.insert(b"a".to_vec(), b"a".to_vec());
    table.insert(b"b".to_vec(), b"b".to_vec());
    table.insert(b"c".to_vec(), b"c".to_vec());
    assert_eq!(table.dynamic_len(), 2);
    assert!(table.dynamic_size() <= 70);
    let newest = table.get(62).unwrap();
    assert_eq!(newest.0, b"c");
    let older = table.get(63).unwrap();
    assert_eq!(older.0, b"b");
    table.update_max_dynamic_size(0);
    assert_eq!(table.dynamic_len(), 0);
}

#[test]
fn find_prefers_exact_matches_at_the_lowest_index() {
    let mut table = Table::new();
    assert_eq!(table.find(b":method", b"GET"), Some((2, true)));
    assert_eq!(table.find(b":method", b"POST"), Some((3, true)));
    assert_eq!(table.find(b":method", b"PATCH"), Some((2, false)));
    assert_eq!(table.find(b"x-custom", b"v"), None);
    table.insert(b"x-custom".to_vec(), b"v".to_vec());
    table.insert(b":method".to_vec(), b"PATCH".to_vec());
    assert_eq!(table.find(b"x-custom", b"v"), Some((63, true)));
    assert_eq!(table.find(b"x-custom", b"w"), Some((63, false)));
    assert_eq!(table.find(b":method", b"PATCH"), Some((62, true)));
    for i in 1..=63u32 {
        let (name, value) = table.get(i).unwrap();
        let (j, full) = table.find(name, value).unwrap();
        assert!(full);
        assert_eq!(table.get(j as u32).unwrap(), (name, value));
    }
}

#[test]
fn encoder_reports_invalid_indexes() {
    let mut encoder = Encoder::default();
    let mut dst = Vec::new();
    assert_eq!(encoder.encode(EncoderInput::Indexed(0), &mut dst), Err(EncoderError::InvalidIndex));
    assert_eq!(encoder.encode(EncoderInput::Indexed(62), &mut dst), Err(EncoderError::InvalidIndex));
    assert_eq!(
        encoder.encode(EncoderInput::IndexedNameOwned(100, b"x".to_vec(), Encoder::WITH_INDEXING), &mut dst),
        Err(EncoderError::InvalidIndex)
    );
    assert!(dst.is_empty());
    assert_eq!(encoder.table.len(), 61);
}

#[test]
fn encodes_static_indexed_field() {
    let mut encoder = Encoder::default();
    let mut dst = Vec::new();
    encoder.encode(EncoderInput::Indexed(2), &mut dst).unwrap();
    assert_eq!(dst, vec![0x82]);
    assert_eq!(encoder.max_dynamic_size(), 4096);
}

#[test]
fn decodes_rfc_request_without_huffman() {
    let mut decoder = Decoder::default();
    let block = [
        0x82, 0x86, 0x84, 0x41, 0x0f, 0x77, 0x77, 0x77, 0x2e, 0x65, 0x78, 0x61, 0x6d, 0x70, 0x6c,
        0x65, 0x2e, 0x63, 0x6f, 0x6d,
    ];
    let mut fields = Vec::new();
    decoder.decode(&block, &mut fields).unwrap();
    assert_eq!(
        fields,
        vec![
            (b":method".to_vec(), b"GET".to_vec(), 0),
            (b":scheme".to_vec(), b"http".to_vec(), 0),
            (b":path".to_vec(), b"/".to_vec(), 0),
            (b":authority".to_vec(), b"www.example.com".to_vec(), 4),
        ]
    );
    assert_eq!(decoder.table.dynamic_len(), 1);
    assert_eq!(decoder.table.dynamic_size(), 57);
}

#[test]
fn decodes_rfc_request_with_huffman() {
    let mut decoder = Decoder::default();
    let block = [
        0x82, 0x86, 0x84, 0x41, 0x8c, 0xf1, 0xe3, 0xc2, 0xe5, 0xf2, 0x3a, 0x6b, 0xa0, 0xab, 0x90,
        0xf4, 0xff,
    ];
    let mut fields = Vec::new();
    decoder.decode(&block, &mut fields).unwrap();
    assert_eq!(fields[3], (b":authority".to_vec(), b"www.example.com".to_vec(), 4));
    let mut more = Vec::new();
    decoder.decode(&[0x82, 0x86, 0x84, 0xbe, 0x58, 0x86, 0xa8, 0xeb, 0x10, 0x64, 0x9c, 0xbf], &mut more).unwrap();
    assert_eq!(more[3], (b":authority".to_vec(), b"www.example.com".to_vec(), 0));
    assert_eq!(more[4], (b"cache-control".to_vec(), b"no-cache".to_vec(), 4));
    assert_eq!(decoder.table.dynamic_len(), 2);
}

#[test]
fn decoder_reports_each_error() {
    let mut fields = Vec::new();
    assert_eq!(Decoder::default().decode(&[0x80], &mut fields), Err(BlockError::InvalidIndex));
    assert_eq!(Decoder::default().decode(&[0xbe], &mut fields), Err(BlockError::InvalidIndex));
    assert_eq!(Decoder::default().decode(&[0x41], &mut fields), Err(BlockError::InvalidRepresentation));
    assert_eq!(Decoder::default().decode(&[0x82, 0x20], &mut fields), Err(BlockError::InvalidRepresentation));
    assert_eq!(Decoder::default().decode(&[0x00, 0x81, 0xff, 0x00], &mut fields), Err(BlockError::InvalidInput));
    assert_eq!(
        Decoder::default().decode(&[0xff, 0xff, 0xff, 0xff, 0xff, 0xff, 0x01], &mut fields),
        Err(BlockError::IntegerOverflow)
    );
    let mut signal = Vec::new();
    Encoder::default().update_max_dynamic_size(4097, &mut signal).unwrap();
    assert_eq!(Decoder::default().decode(&signal, &mut fields), Err(BlockError::SizeLimitExceeded));
    // the field before the failing representation is kept
    let mut kept = Vec::new();
    assert_eq!(Decoder::default().decode(&[0x82, 0x80], &mut kept), Err(BlockError::InvalidIndex));
    assert_eq!(kept, vec![(b":method".to_vec(), b"GET".to_vec(), 0)]);
}

#[test]
fn decoder_applies_size_updates() {
    let mut decoder = Decoder::with_dynamic_size(100);
    let mut fields = Vec::new();
    decoder.decode(&[0x40, 0x01, b'a', 0x01, b'b'], &mut fields).unwrap();
    assert_eq!(decoder.table.dynamic_len(), 1);
    let mut signal = Vec::new();
    Encoder::with_dynamic_size(100).update_max_dynamic_size(20, &mut signal).unwrap();
    decoder.decode(&signal, &mut fields).unwrap();
    assert_eq!(decoder.max_dynamic_size(), 20);
    assert_eq!(decoder.table.dynamic_len(), 0);
}

#[test]
fn decoder_reads_what_encoder_writes() {
    let mut encoder = Encoder::default();
    let mut decoder = Decoder::default();
    let fields: Vec<(&[u8], &[u8], u8)> = vec![
        (b":method", b"GET", Encoder::BEST_FORMAT),
        (b"custom-key", b"custom-value", Encoder::WITH_INDEXING | Encoder::HUFFMAN_NAME),
        (b"custom-key", b"custom-value", Encoder::BEST_FORMAT),
        (b"password", b"secret", Encoder::NEVER_INDEXED | Encoder::HUFFMAN_VALUE),
        (b"x", b"", 0),
    ];
    let mut block = Vec::new();
    for (name, value, flags) in fields.iter() {
        encoder.encode(EncoderInput::LiteralBorrowed(name, value, *flags), &mut block).unwrap();
    }
    let mut out = Vec::new();
    decoder.decode(&block, &mut out).unwrap();
    let pairs: Vec<(Vec<u8>, Vec<u8>)> = out.iter().map(|f| (f.0.clone(), f.1.clone())).collect();
    let expected: Vec<(Vec<u8>, Vec<u8>)> = fields.iter().map(|f| (f.0.to_vec(), f.1.to_vec())).collect();
    assert_eq!(pairs, expected);
    assert_eq!(out[3].2, 8);
    assert_eq!(decoder.table.dynamic_len(), encoder.table.dynamic_len());
}

#[test]
fn huffman_error_has_a_description() {
    assert_eq!(DecoderError::InvalidInput.description(), "Invalid Huffman sequence.");
}
