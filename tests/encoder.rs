use hpack::{Encoder, EncoderInput};

/// Should encode a header that exists in the indexing table into HPACK's
/// indexed header field representation ([6.1.], figure 5).
///
/// [6.1.]: https://tools.ietf.org/html/rfc7541#section-6.1
#[test]
fn encodes_indexed() {
    let mut encoder = Encoder::default();
    encoder
        .table
        .insert(b"name62".to_vec(), b"value62".to_vec()); // add dynamic header
    let fields = vec![
        (2, vec![0x80 | 2]),   // (:method, GET)
        (3, vec![0x80 | 3]),   // (:method, POST)
        (14, vec![0x80 | 14]), // (:status, 500)
        (62, vec![0x80 | 62]), // (name62, value62)
    ];
    for (index, res) in fields {
        let mut dst = Vec::new();
        encoder.encode(EncoderInput::Indexed(index), &mut dst).unwrap();
        assert_eq!(dst, res);
    }
    assert_eq!(encoder.table.len(), 62); // only one header in dynamic table
}

/// Should encode a header, where its name is represented with an index and
/// the value is provided in bytes, into a literal header field
/// representation with incremental indexing ([6.2.1.], figure 6).
///
/// [6.2.1.]: https://tools.ietf.org/html/rfc7541#section-6.2.1
#[test]
fn encodes_indexed_name_with_indexing() {
    let mut encoder = Encoder::default();
    let mut dst = Vec::new();
    let field = (
        2, // index
        b"PATCH".to_vec(),
        0x2 | 0x4,
    );
    encoder.encode(field.into(), &mut dst).unwrap(); // (:method, PATCH), Huffman
    assert_eq!(dst[0] & 0b01000000, 64); // with incremental indexing
    assert_eq!(dst[1] & 0b10000000, 128); // value encoded with Huffman
    assert_eq!(&dst[2..], vec![215, 14, 251, 216, 255]); // value as huffman sequence
    assert_eq!(encoder.table.len(), 62); // inserted into indexing table
    let entry = encoder.table.get(62).unwrap();
    assert_eq!(entry.0, b":method"); // indexed name
    assert_eq!(entry.1, b"PATCH"); // indexed value
}

/// Should encode a header, where its name and value are provided in bytes,
/// into a literal header field representation with incremental indexing
/// ([6.2.1.], figure 7).
///
/// [6.2.1.]: https://tools.ietf.org/html/rfc7541#section-6.2.1
#[test]
fn encodes_literal_with_indexing() {
    let mut encoder = Encoder::default();
    let mut dst = Vec::new();
    let field = (b"foo".to_vec(), b"bar".to_vec(), 0x4 | 0x1 | 0x2);
    encoder.encode(field.into(), &mut dst).unwrap(); // (huffman(foo), huffman(bar))
    assert_eq!(dst[0], 0b01000000); // with incremental indexing
    assert_eq!(&dst[1..4], vec![130, 148, 231]); // name as huffman sequence
    assert_eq!(&dst[4..], vec![131, 140, 118, 127]); // value as huffman sequence
    assert_eq!(encoder.table.len(), 62); // inserted into indexing table
    let entry = encoder.table.get(62).unwrap();
    assert_eq!(entry.0, b"foo"); // indexed name
    assert_eq!(entry.1, b"bar"); // indexed value
}

/// Should encode a header, where its name and value are provided in
/// borrowed bytes, into a literal header field representation with
/// incremental indexing ([6.2.1.], figure 7).
///
/// [6.2.1.]: https://tools.ietf.org/html/rfc7541#section-6.2.1
#[test]
fn encodes_borrowed_literal_with_indexing() {
    let mut encoder = Encoder::default();
    let mut dst = Vec::new();
    let field = (b"foo".as_slice(), b"bar".as_slice(), 0x4 | 0x1 | 0x2);
    encoder.encode(field.into(), &mut dst).unwrap(); // (huffman(foo), huffman(bar))
    assert_eq!(dst[0], 0b01000000); // with incremental indexing
    assert_eq!(&dst[1..4], vec![130, 148, 231]); // name as huffman sequence
    assert_eq!(&dst[4..], vec![131, 140, 118, 127]); // value as huffman sequence
    assert_eq!(encoder.table.len(), 62); // inserted into indexing table
    let entry = encoder.table.get(62).unwrap();
    assert_eq!(entry.0, b"foo"); // indexed name
    assert_eq!(entry.1, b"bar"); // indexed value
}

/// Should encode a header, where its name is represented with an index and
/// the value is provided in bytes, into a literal header field
/// representation without indexing ([6.2.2.], figure 8). The indexing table
/// should not be altered.
///
/// [6.2.2.]: https://tools.ietf.org/html/rfc7541#section-6.2.2
#[test]
fn encodes_indexed_name_without_indexing() {
    let mut encoder = Encoder::default();
    let mut dst = Vec::new();
    let field = (13, b"PATCH".to_vec(), 0x0);
    encoder.encode(field.into(), &mut dst).unwrap(); // (:status, PATCH)
    assert_eq!(dst[0], 13); // without indexing (matches index value)
    assert_eq!(&dst[1..], vec![5, 80, 65, 84, 67, 72]); // value as string
    assert_eq!(encoder.table.len(), 61); // table not altered
}

/// Should encode a header, where its name and value are provided in bytes,
/// into a literal header field representation without indexing ([6.2.2.],
/// figure 9). The indexing table should not be altered.
///
/// [6.2.2.]: https://tools.ietf.org/html/rfc7541#section-6.2.2
#[test]
fn encodes_literal_without_indexing() {
    let mut encoder = Encoder::default();
    let mut dst = Vec::new();
    let field = (b"foo".to_vec(), b"bar".to_vec(), 0x1);
    encoder.encode(field.into(), &mut dst).unwrap(); // (huffman(foo), bar)
    assert_eq!(dst[0], 0); // without indexing
    assert_eq!(&dst[2..4], vec![148, 231]); // name as string
    assert_eq!(&dst[4..], vec![3, 98, 97, 114]); // value as string
    assert_eq!(encoder.table.len(), 61); // table not altered
}

/// Should encode a header, where its name is represented with an index and
/// the value is provided in bytes, into a never indexed literal header
/// field representation ([6.2.3.], figure 10). The indexing table should
/// not be altered.
///
/// [6.2.3.]: https://tools.ietf.org/html/rfc7541#section-6.2.3
#[test]
fn encodes_indexed_name_never_indexed() {
    let mut encoder = Encoder::default();
    let mut dst = Vec::new();
    let field = (13, b"PATCH".to_vec(), 0x8);
    encoder.encode(field.into(), &mut dst).unwrap(); // (:status, 501)
    assert_eq!(dst[0] & 0b00010000, 16); // never indexed
    assert_eq!(&dst[1..], vec![5, 80, 65, 84, 67, 72]); // value as string
    assert_eq!(encoder.table.len(), 61); // table not altered
}

/// Should encode a header, where its name and value are provided in bytes,
/// into a never indexed literal header field representation ([6.2.3.],
/// figure 11). The indexing table should not be altered.
///
/// [6.2.3.]: https://tools.ietf.org/html/rfc7541#section-6.2.3
#[test]
fn encodes_literal_never_indexed() {
    let mut encoder = Encoder::default();
    let mut dst = Vec::new();
    let field = (b"foo".to_vec(), b"bar".to_vec(), 0x8);
    encoder.encode(field.into(), &mut dst).unwrap(); // (foo, bar)
    assert_eq!(dst[0], 0b00010000); // never indexed
    assert_eq!(&dst[1..5], vec![3, 102, 111, 111]); // name as string
    assert_eq!(&dst[5..], vec![3, 98, 97, 114]); // value as string
    assert_eq!(encoder.table.len(), 61); // table not altered
}

/// Should encode a header, where its name and value are provided in bytes,
/// into the best header field representation.
#[test]
fn encodes_literal_automatically() {
    let mut encoder = Encoder::default();
    let fields = vec![
        ((b":method".to_vec(), b"GET".to_vec(), 0x10), vec![130]), // (:method, GET) => index(2)
        (
            (b":method".to_vec(), b"DELETE".to_vec(), 0x10 | 0x4),
            vec![66, 6, 68, 69, 76, 69, 84, 69],
        ), // (:method, DELETE) => (index(2), DELETE)
        (
            (b"a".to_vec(), b"b".to_vec(), 0x10 | 0x1),
            vec![0, 129, 31, 1, 98],
        ), // (a, b) => (huffman(a), b)
    ];
    for (field, res) in fields {
        let mut dst = Vec::new();
        encoder.encode(field.into(), &mut dst).unwrap();
        assert_eq!(dst, res);
    }
    assert_eq!(encoder.table.len(), 62); // table altered only once
}

/// Should encode a dynamic table size update signal.
#[test]
fn updates_max_dynamic_size() {
    let mut encoder = Encoder::with_dynamic_size(70);
    encoder.table.insert(b"a".to_vec(), b"a".to_vec()); // size: +34
    encoder.table.insert(b"b".to_vec(), b"b".to_vec()); // size: +34
    let mut dst = Vec::new();
    encoder.update_max_dynamic_size(50, &mut dst).unwrap();
    assert_eq!(dst[0] & 0b00100000, 32); // size update
    assert_eq!(dst, vec![63, 19]); // encoded size
    assert_eq!(encoder.table.dynamic_len(), 1); // 1 header evicted
}

