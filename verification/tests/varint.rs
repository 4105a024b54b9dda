use lazy_gateway::varint::{encode_var_int, read_var_int, VarIntRead};

#[test]
fn reads_single_byte_values() {
    assert_eq!(read_var_int(&[0x00]), VarIntRead::Value { value: 0, len: 1 });
    assert_eq!(read_var_int(&[0x01]), VarIntRead::Value { value: 1, len: 1 });
    assert_eq!(read_var_int(&[0x7f]), VarIntRead::Value { value: 127, len: 1 });
}

#[test]
fn reads_two_byte_values() {
    assert_eq!(read_var_int(&[0x80, 0x01]), VarIntRead::Value { value: 128, len: 2 });
    assert_eq!(read_var_int(&[0xac, 0x02]), VarIntRead::Value { value: 300, len: 2 });
    assert_eq!(read_var_int(&[0xff, 0x01]), VarIntRead::Value { value: 255, len: 2 });
}

#[test]
fn reads_five_byte_values() {
    assert_eq!(
        read_var_int(&[0xff, 0xff, 0xff, 0xff, 0x07]),
        VarIntRead::Value { value: 2147483647, len: 5 }
    );
    assert_eq!(
        read_var_int(&[0xff, 0xff, 0xff, 0xff, 0x0f]),
        VarIntRead::Value { value: -1, len: 5 }
    );
    assert_eq!(
        read_var_int(&[0x80, 0x80, 0x80, 0x80, 0x08]),
        VarIntRead::Value { value: -2147483648, len: 5 }
    );
}

#[test]
fn high_bits_of_fifth_byte_are_dropped() {
    assert_eq!(
        read_var_int(&[0x81, 0x80, 0x80, 0x80, 0x10]),
        VarIntRead::Value { value: 1, len: 5 }
    );
    assert_eq!(
        read_var_int(&[0xff, 0xff, 0xff, 0xff, 0x7f]),
        VarIntRead::Value { value: -1, len: 5 }
    );
}

#[test]
fn reads_only_the_first_number() {
    assert_eq!(read_var_int(&[0x05, 0xff, 0xff]), VarIntRead::Value { value: 5, len: 1 });
    assert_eq!(
        read_var_int(&[0xac, 0x02, 0x80, 0x80]),
        VarIntRead::Value { value: 300, len: 2 }
    );
}

#[test]
fn non_shortest_encoding_is_read() {
    assert_eq!(read_var_int(&[0x80, 0x00]), VarIntRead::Value { value: 0, len: 2 });
    assert_eq!(
        read_var_int(&[0x85, 0x80, 0x80, 0x00]),
        VarIntRead::Value { value: 5, len: 4 }
    );
}

#[test]
fn unfinished_number_is_incomplete() {
    assert_eq!(read_var_int(&[]), VarIntRead::Incomplete);
    assert_eq!(read_var_int(&[0x80]), VarIntRead::Incomplete);
    assert_eq!(read_var_int(&[0xff, 0xff]), VarIntRead::Incomplete);
    assert_eq!(read_var_int(&[0xff, 0xff, 0xff, 0xff]), VarIntRead::Incomplete);
}

#[test]
fn five_continuing_bytes_are_malformed() {
    assert_eq!(read_var_int(&[0x80, 0x80, 0x80, 0x80, 0x80]), VarIntRead::Malformed);
    assert_eq!(
        read_var_int(&[0xff, 0xff, 0xff, 0xff, 0xff, 0x01]),
        VarIntRead::Malformed
    );
}

#[test]
fn encodes_known_values() {
    assert_eq!(encode_var_int(0), vec![0x00]);
    assert_eq!(encode_var_int(1), vec![0x01]);
    assert_eq!(encode_var_int(127), vec![0x7f]);
    assert_eq!(encode_var_int(128), vec![0x80, 0x01]);
    assert_eq!(encode_var_int(255), vec![0xff, 0x01]);
    assert_eq!(encode_var_int(300), vec![0xac, 0x02]);
    assert_eq!(encode_var_int(25565), vec![0xdd, 0xc7, 0x01]);
    assert_eq!(encode_var_int(2097151), vec![0xff, 0xff, 0x7f]);
    assert_eq!(encode_var_int(2147483647), vec![0xff, 0xff, 0xff, 0xff, 0x07]);
    assert_eq!(encode_var_int(-1), vec![0xff, 0xff, 0xff, 0xff, 0x0f]);
    assert_eq!(encode_var_int(-2147483648), vec![0x80, 0x80, 0x80, 0x80, 0x08]);
}

#[test]
fn encoding_reads_back() {
    let samples: [i32; 14] = [
        0,
        1,
        127,
        128,
        16383,
        16384,
        2097151,
        2097152,
        268435455,
        268435456,
        i32::MAX,
        -1,
        -123456,
        i32::MIN,
    ];
    for value in samples {
        let bytes = encode_var_int(value);
        assert!(!bytes.is_empty() && bytes.len() <= 5);
        assert_eq!(read_var_int(&bytes), VarIntRead::Value { value, len: bytes.len() });
        let mut followed = bytes.clone();
        followed.extend_from_slice(&[0xff, 0x00, 0x80]);
        assert_eq!(read_var_int(&followed), VarIntRead::Value { value, len: bytes.len() });
    }
}

#[test]
fn more_bytes_do_not_change_a_finished_read() {
    let base: Vec<u8> = vec![0xac, 0x02];
    let first = read_var_int(&base);
    for extra in 0u8..=255 {
        let mut longer = base.clone();
        longer.push(extra);
        assert_eq!(read_var_int(&longer), first);
    }
}
