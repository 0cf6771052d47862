use tinyweb::number::number_from_i32;
use tinyweb::number::number_from_i64;
use tinyweb::number::number_from_u32;
use tinyweb::number::number_from_u64;

#[test]
fn whole_numbers_have_the_bits_of_their_double() {
    for n in [0u32, 1, 2, 3, 4, 7, 8, 42, 255, 256, 1023, 1024, 65535, 65536, 0x7fff_ffff, 0x8000_0000, u32::MAX] {
        assert_eq!(number_from_u32(n), (n as f64).to_bits(), "{}", n);
    }
    assert_eq!(number_from_u32(1), 0x3ff0_0000_0000_0000);
    assert_eq!(number_from_u32(42), 0x4045_0000_0000_0000);
}

#[test]
fn every_power_of_two_and_its_neighbours() {
    for e in 0..32u32 {
        let p = 1u32 << e;
        for n in [p.wrapping_sub(1), p, p.wrapping_add(1)] {
            assert_eq!(number_from_u32(n), (n as f64).to_bits(), "{}", n);
        }
    }
}

#[test]
fn negative_numbers_set_the_sign_bit() {
    for n in [0i32, 1, -1, 2, -2, 42, -42, 1000, -1000, i32::MAX, i32::MIN, i32::MIN + 1] {
        assert_eq!(number_from_i32(n), (n as f64).to_bits(), "{}", n);
    }
    assert_eq!(number_from_i32(-1), 0xbff0_0000_0000_0000);
}

#[test]
fn numbers_below_the_limit_are_exact_and_others_are_refused() {
    let limit = 1u64 << 53;
    for n in [0u64, 1, 3, u32::MAX as u64, 1 << 32, (1 << 40) + 5, limit - 2, limit - 1] {
        assert_eq!(number_from_u64(n), Some((n as f64).to_bits()), "{}", n);
    }
    for n in [limit, limit + 1, u64::MAX] {
        assert_eq!(number_from_u64(n), None, "{}", n);
    }
    let limit = 1i64 << 53;
    for n in [0i64, -1, 1, -12345678901, limit - 1, -(limit - 1)] {
        assert_eq!(number_from_i64(n), Some((n as f64).to_bits()), "{}", n);
    }
    for n in [limit, -limit, i64::MAX, i64::MIN] {
        assert_eq!(number_from_i64(n), None, "{}", n);
    }
}
