use access_core::b64::{b64_decode_range, b64_encode};
use access_core::digits::{i64_to_dec, parse_i64_digits, parse_u64_digits, u64_to_dec};
use access_core::payload::{claims_json, find_byte, parse_claims};
use access_core::types::Claims;

fn enc(input: &[u8]) -> String {
    let out = b64_encode(&input.to_vec());
    String::from_utf8(out).unwrap()
}

fn dec(input: &[u8]) -> Option<Vec<u8>> {
    let v = input.to_vec();
    let n = v.len();
    b64_decode_range(&v, 0, n)
}

#[test]
fn b64_known_vectors() {
    assert_eq!(enc(b""), "");
    assert_eq!(enc(b"f"), "Zg");
    assert_eq!(enc(b"fo"), "Zm8");
    assert_eq!(enc(b"foo"), "Zm9v");
    assert_eq!(enc(b"foob"), "Zm9vYg");
    assert_eq!(enc(b"fooba"), "Zm9vYmE");
    assert_eq!(enc(b"foobar"), "Zm9vYmFy");
}

#[test]
fn b64_url_safe_alphabet() {
    // 0xfb 0xff encodes with the two URL-safe characters.
    assert_eq!(enc(&[0xfb, 0xef]), "--8");
    assert_eq!(enc(&[0xff, 0xff, 0xff]), "____");
}

#[test]
fn b64_decode_inverts_encode() {
    let cases: Vec<Vec<u8>> = vec![
        vec![],
        vec![0],
        vec![255],
        vec![1, 2],
        vec![1, 2, 3],
        vec![1, 2, 3, 4, 5, 6, 7, 8, 9, 10],
        b"{\"uid\":42,\"exp\":77,\"is_admin\":1}".to_vec(),
    ];
    for case in cases {
        let e = b64_encode(&case);
        let n = e.len();
        assert_eq!(b64_decode_range(&e, 0, n), Some(case));
    }
}

#[test]
fn b64_decode_rejects_bad_input() {
    // A length of one more than a multiple of four is never produced.
    assert_eq!(dec(b"Z"), None);
    assert_eq!(dec(b"Zm9vY"), None);
    // Bytes outside the alphabet.
    assert_eq!(dec(b"Zg=="), None);
    assert_eq!(dec(b"Z+8"), None);
    assert_eq!(dec(b"Z/8"), None);
    assert_eq!(dec(b"Zg\n"), None);
    // Non-canonical trailing bits: 'h' carries low bits that no two-byte
    // tail sets.
    assert_eq!(dec(b"Zh"), None);
    assert_eq!(dec(b"Zm9"), None);
}

#[test]
fn decimal_rendering() {
    assert_eq!(u64_to_dec(0), b"0".to_vec());
    assert_eq!(u64_to_dec(7), b"7".to_vec());
    assert_eq!(u64_to_dec(1209600), b"1209600".to_vec());
    assert_eq!(u64_to_dec(u64::MAX), b"18446744073709551615".to_vec());
    assert_eq!(i64_to_dec(0), b"0".to_vec());
    assert_eq!(i64_to_dec(-1), b"-1".to_vec());
    assert_eq!(i64_to_dec(i64::MIN), b"-9223372036854775808".to_vec());
    assert_eq!(i64_to_dec(i64::MAX), b"9223372036854775807".to_vec());
}

#[test]
fn decimal_parse_roundtrip() {
    for n in [0u64, 1, 9, 10, 99, 1209600, u64::MAX] {
        let d = u64_to_dec(n);
        let len = d.len();
        assert_eq!(parse_u64_digits(&d, 0, len), Some(n));
    }
    for n in [0i64, 5, -5, i64::MIN, i64::MAX] {
        let d = i64_to_dec(n);
        let len = d.len();
        assert_eq!(parse_i64_digits(&d, 0, len), Some(n));
    }
}

#[test]
fn decimal_parse_rejects_noncanonical() {
    let cases: Vec<&[u8]> = vec![
        b"",
        b"01",
        b"00",
        b"1 ",
        b"+1",
        b"18446744073709551616",
        b"99999999999999999999999",
    ];
    for case in cases {
        let v = case.to_vec();
        let n = v.len();
        assert_eq!(parse_u64_digits(&v, 0, n), None, "accepted {:?}", case);
    }
    let signed: Vec<&[u8]> = vec![b"-0", b"-", b"--1", b"-01", b"9223372036854775808",
        b"-9223372036854775809"];
    for case in signed {
        let v = case.to_vec();
        let n = v.len();
        assert_eq!(parse_i64_digits(&v, 0, n), None, "accepted {:?}", case);
    }
}

#[test]
fn decimal_parse_subrange() {
    let v = b"xx1234yy".to_vec();
    assert_eq!(parse_u64_digits(&v, 2, 6), Some(1234));
    assert_eq!(parse_u64_digits(&v, 2, 7), None);
}

#[test]
fn payload_exact_bytes() {
    let c = Claims { uid: -5, exp: 77, is_admin: 0 };
    assert_eq!(claims_json(&c), b"{\"uid\":-5,\"exp\":77,\"is_admin\":0}".to_vec());
}

#[test]
fn payload_roundtrip() {
    for (uid, exp, adm) in [(0i64, 0u64, 0i64), (42, 1209600, 1), (-1, u64::MAX, -3),
        (i64::MIN, 5, i64::MAX)] {
        let c = Claims { uid, exp, is_admin: adm };
        let parsed = parse_claims(&claims_json(&c)).expect("canonical payload must parse");
        assert_eq!(parsed.uid, uid);
        assert_eq!(parsed.exp, exp);
        assert_eq!(parsed.is_admin, adm);
    }
}

#[test]
fn payload_rejects_foreign_shapes() {
    let cases: Vec<&[u8]> = vec![
        b"",
        b"{}",
        b"{\"uid\":1}",
        b"{\"uid\":1,\"exp\":2,\"is_admin\":3",
        b"{\"uid\":1,\"exp\":2,\"is_admin\":3}}",
        b"{\"uid\": 1,\"exp\":2,\"is_admin\":3}",
        b"{\"exp\":2,\"uid\":1,\"is_admin\":3}",
        b"{\"uid\":01,\"exp\":2,\"is_admin\":3}",
        b"{\"uid\":1,\"exp\":-2,\"is_admin\":3}",
        b"{\"uid\":1,\"exp\":2,\"is_admin\":3,\"x\":4}",
    ];
    for case in cases {
        assert!(parse_claims(&case.to_vec()).is_none(), "accepted {:?}",
            String::from_utf8_lossy(case));
    }
}

#[test]
fn find_byte_first_occurrence() {
    let v = b"a.b.c".to_vec();
    assert_eq!(find_byte(&v, 0, b'.'), Some(1));
    assert_eq!(find_byte(&v, 2, b'.'), Some(3));
    assert_eq!(find_byte(&v, 4, b'.'), None);
}
