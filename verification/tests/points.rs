use blindsign::{RistrettoPoint, Scalar};

/// The encodings of 0·B, 1·B, 2·B, 3·B, 5·B, 6·B and 15·B.
const MULTIPLES: [(u8, [u8; 32]); 7] = [
    (0, [0; 32]),
    (
        1,
        [
            226, 242, 174, 10, 106, 188, 78, 113, 168, 132, 169, 97, 197, 0, 81, 95, 88, 227, 11,
            106, 165, 130, 221, 141, 182, 166, 89, 69, 224, 141, 45, 118,
        ],
    ),
    (
        2,
        [
            106, 73, 50, 16, 247, 73, 156, 209, 127, 236, 181, 16, 174, 12, 234, 35, 161, 16, 232,
            213, 185, 1, 248, 172, 173, 211, 9, 92, 115, 163, 185, 25,
        ],
    ),
    (
        3,
        [
            148, 116, 31, 93, 93, 82, 117, 94, 206, 79, 35, 240, 68, 238, 39, 213, 209, 234, 30,
            43, 209, 150, 180, 98, 22, 107, 22, 21, 42, 157, 2, 89,
        ],
    ),
    (
        5,
        [
            232, 130, 177, 49, 1, 107, 82, 193, 211, 51, 112, 128, 24, 124, 247, 104, 66, 62, 252,
            203, 181, 23, 187, 73, 90, 184, 18, 196, 22, 15, 244, 78,
        ],
    ),
    (
        6,
        [
            246, 71, 70, 211, 201, 43, 19, 5, 14, 216, 216, 2, 54, 167, 240, 0, 124, 59, 63, 150,
            47, 91, 167, 147, 209, 154, 96, 30, 187, 29, 244, 3,
        ],
    ),
    (
        15,
        [
            224, 196, 24, 247, 200, 217, 196, 205, 215, 57, 91, 147, 234, 18, 79, 58, 217, 144, 33,
            187, 104, 29, 252, 51, 2, 169, 217, 154, 46, 83, 230, 78,
        ],
    ),
];

fn small(n: u8) -> Scalar {
    let mut bytes = [0u8; 32];
    bytes[0] = n;
    Scalar::from_bytes_mod_order(bytes)
}

fn multiple(n: u8) -> [u8; 32] {
    for (k, encoding) in MULTIPLES {
        if k == n {
            return encoding;
        }
    }
    panic!("no encoding of this multiple is listed")
}

#[test]
fn base_point_multiples_have_their_encodings() {
    for (k, encoding) in MULTIPLES {
        assert_eq!(RistrettoPoint::base_mul(&small(k)).compress(), encoding);
    }
}

#[test]
fn the_order_times_the_base_point_is_the_identity() {
    let order: [u8; 32] = [
        0xed, 0xd3, 0xf5, 0x5c, 0x1a, 0x63, 0x12, 0x58, 0xd6, 0x9c, 0xf7, 0xa2, 0xde, 0xf9, 0xde,
        0x14, 0x00, 0x00, 0x00, 0x00, 0x00, 0x00, 0x00, 0x00, 0x00, 0x00, 0x00, 0x00, 0x00, 0x00,
        0x00, 0x10,
    ];
    let reduced = Scalar::from_bytes_mod_order(order);
    assert_eq!(RistrettoPoint::base_mul(&reduced).compress(), [0u8; 32]);
}

#[test]
fn valid_encodings_decompress_to_themselves() {
    for (_, encoding) in MULTIPLES {
        let point = RistrettoPoint::decompress(&encoding).unwrap();
        assert_eq!(point.compress(), encoding);
    }
}

#[test]
fn invalid_encodings_do_not_decompress() {
    // the field element is not below the prime
    assert!(RistrettoPoint::decompress(&[0xff; 32]).is_none());
    // the field element is negative
    let mut negative = [0u8; 32];
    negative[0] = 1;
    assert!(RistrettoPoint::decompress(&negative).is_none());
    // the field element gives no point of the curve
    let mut off_curve = [0u8; 32];
    off_curve[0] = 2;
    assert!(RistrettoPoint::decompress(&off_curve).is_none());
    // the high bit is set on a valid encoding
    let mut high_bit = multiple(1);
    high_bit[31] |= 0x80;
    assert!(RistrettoPoint::decompress(&high_bit).is_none());
}

#[test]
fn a_multiple_of_a_multiple() {
    let two = RistrettoPoint::decompress(&multiple(2)).unwrap();
    assert_eq!(two.mul(&small(3)).compress(), multiple(6));
    let three = RistrettoPoint::decompress(&multiple(3)).unwrap();
    assert_eq!(three.mul(&small(5)).compress(), multiple(15));
    assert_eq!(three.mul(&small(1)).compress(), multiple(3));
    assert_eq!(three.mul(&small(0)).compress(), [0u8; 32]);
}

#[test]
fn a_sum_of_multiples() {
    let two = RistrettoPoint::decompress(&multiple(2)).unwrap();
    let three = RistrettoPoint::decompress(&multiple(3)).unwrap();
    assert_eq!(two.add(&three).compress(), multiple(5));
    assert_eq!(three.add(&three).compress(), multiple(6));
    let zero = RistrettoPoint::decompress(&[0u8; 32]).unwrap();
    assert_eq!(zero.add(&two).compress(), multiple(2));
}

#[test]
fn multipliers_add_modulo_the_order() {
    // (-1)·B + 3·B = 2·B
    let mut minus_one = [
        0xed, 0xd3, 0xf5, 0x5c, 0x1a, 0x63, 0x12, 0x58, 0xd6, 0x9c, 0xf7, 0xa2, 0xde, 0xf9, 0xde,
        0x14, 0x00, 0x00, 0x00, 0x00, 0x00, 0x00, 0x00, 0x00, 0x00, 0x00, 0x00, 0x00, 0x00, 0x00,
        0x00, 0x10,
    ];
    minus_one[0] -= 1;
    let minus_one = Scalar::from_canonical_bytes(minus_one).unwrap();
    let negated = RistrettoPoint::base_mul(&minus_one);
    let three = RistrettoPoint::base_mul(&small(3));
    assert_eq!(negated.add(&three).compress(), multiple(2));
    // (-1)·(3·B) + 5·B = 2·B
    let five = RistrettoPoint::base_mul(&small(5));
    assert_eq!(three.mul(&minus_one).add(&five).compress(), multiple(2));
}
