use chip8::instruction::{arg_n, arg_nn, arg_nnn, arg_x, arg_y, decode, Instruction};

#[test]
fn cpu_test_arg_x() {
    assert_eq!(arg_x(0x0100), 0x1);
}

#[test]
fn vm_test_arg_x() {
    assert_eq!(arg_x(0x0100), 0x1);
}

#[test]
fn fields_of_a_word() {
    assert_eq!(arg_x(0xD123), 0x1);
    assert_eq!(arg_y(0xD123), 0x2);
    assert_eq!(arg_n(0xD123), 0x3);
    assert_eq!(arg_nn(0xD123), 0x23);
    assert_eq!(arg_nnn(0xD123), 0x123);
    let ins = decode(0xD123);
    assert_eq!(
        ins,
        Instruction { word: 0xD123, class: 0xD, x: 1, y: 2, n: 3, nn: 0x23, nnn: 0x123 }
    );
}

#[test]
fn fields_of_the_extreme_words() {
    assert_eq!(
        decode(0x0000),
        Instruction { word: 0, class: 0, x: 0, y: 0, n: 0, nn: 0, nnn: 0 }
    );
    assert_eq!(
        decode(0xFFFF),
        Instruction { word: 0xFFFF, class: 0xF, x: 0xF, y: 0xF, n: 0xF, nn: 0xFF, nnn: 0xFFF }
    );
}

#[test]
fn decode_then_encode_gives_every_word_back() {
    for word in 0..=u16::MAX {
        assert_eq!(decode(word).encode(), word);
    }
}

#[test]
fn encode_takes_each_nibble_modulo_sixteen() {
    let ins = Instruction { word: 0, class: 0x1A, x: 0x2B, y: 0x3C, n: 0x4D, nn: 0, nnn: 0 };
    assert_eq!(ins.encode(), 0xABCD);
}
