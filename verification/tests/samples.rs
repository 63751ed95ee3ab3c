//! Decoding a small reference fortune file in both physical layouts and
//! checking the spans against the companion text.

use strdat::StrMap;

static SAMPLE: &str = "This file exists\n%\nSolely to provide\n%\nA known sample file\n%\nTo use with strfile\n%\n";

fn push_be(v: &mut Vec<u8>, x: u32) {
    v.extend_from_slice(&x.to_be_bytes());
}

/// The index of `SAMPLE` in the standard layout: version 2, count 4,
/// longest 19, shortest 16, no flags, `%` delimiter, five offsets.
fn sample_dat() -> Vec<u8> {
    let mut v = Vec::new();
    push_be(&mut v, 2);
    push_be(&mut v, 4);
    push_be(&mut v, 19);
    push_be(&mut v, 16);
    push_be(&mut v, 0);
    v.push(b'%');
    v.extend_from_slice(&[0, 0, 0]);
    for off in [0u32, 19, 39, 61, 83] {
        push_be(&mut v, off);
    }
    v
}

/// The same logical content in the padded layout: version 1, four pad
/// bytes after every field and every offset.
fn sample_dat_64() -> Vec<u8> {
    let mut v = Vec::new();
    for field in [1u32, 4, 19, 16, 0] {
        push_be(&mut v, field);
        v.extend_from_slice(&[0, 0, 0, 0]);
    }
    v.push(b'%');
    v.extend_from_slice(&[0, 0, 0, 0, 0, 0, 0]);
    for off in [0u32, 19, 39, 61, 83] {
        push_be(&mut v, off);
        v.extend_from_slice(&[0, 0, 0, 0]);
    }
    v
}

fn parse(input: &[u8]) {
    let x = StrMap::read(input).unwrap();
    let mut it = x.iter();
    let mut strings: Vec<&str> = Vec::new();
    while let Some((start, end)) = it.next() {
        let raw = &SAMPLE[start as usize..end as usize - 2];
        strings.push(raw.trim_end_matches(|c: char| '%' == c || c.is_whitespace()));
    }
    let expected = [
        "This file exists",
        "Solely to provide",
        "A known sample file",
        "To use with strfile",
    ];
    assert_eq!(&expected[..], &strings[..]);
}

#[test]
fn can_parse_x86_dat() {
    parse(&sample_dat());
}

#[test]
fn can_parse_x64_dat() {
    parse(&sample_dat_64());
}

#[test]
fn sample_header_fields_surfaced() {
    let m = StrMap::read(&sample_dat()).unwrap();
    assert_eq!(m.version(), 2);
    assert_eq!(m.len(), 4);
    assert_eq!(m.longest(), 19);
    assert_eq!(m.shortest(), 16);
    assert_eq!(m.delimiter(), b'%');
    assert!(!m.is_random());
    assert!(!m.is_ordered());
    assert!(!m.is_rotated());
}

#[test]
fn sample_padded_equals_standard() {
    let a = StrMap::read(&sample_dat()).unwrap();
    let b = StrMap::read(&sample_dat_64()).unwrap();
    assert_eq!(a.version(), 2);
    assert_eq!(b.version(), 1);
    assert_eq!(a.len(), b.len());
    assert_eq!(a.longest(), b.longest());
    assert_eq!(a.shortest(), b.shortest());
    assert_eq!(a.delimiter(), b.delimiter());
    assert_eq!(a.is_random(), b.is_random());
    assert_eq!(a.is_ordered(), b.is_ordered());
    assert_eq!(a.is_rotated(), b.is_rotated());
    let mut ia = a.iter();
    let mut ib = b.iter();
    loop {
        let (na, nb) = (ia.next(), ib.next());
        assert_eq!(na, nb);
        if na.is_none() {
            break;
        }
    }
}

#[test]
fn sample_spans_are_adjacent() {
    let m = StrMap::read(&sample_dat()).unwrap();
    let mut it = m.iter();
    let mut spans: Vec<(u32, u32)> = Vec::new();
    while let Some(span) = it.next() {
        spans.push(span);
    }
    assert_eq!(spans, vec![(0, 19), (19, 39), (39, 61), (61, 83)]);
    for i in 0..spans.len() - 1 {
        assert_eq!(spans[i].1, spans[i + 1].0);
    }
}
