use computer::bit::Bit;
use computer::byte::Byte;
use computer::mux::bit::{
    dmux, dmux16, dmux256, dmux4, full_adder, half_adder, mux, mux16, mux256, mux4,
};
use computer::mux::byte::{Ram, Registers};
use std::array;

#[test]
fn half_adder_test() {
    assert_eq!(half_adder(Bit::Low, Bit::Low), (Bit::Low, Bit::Low));
    assert_eq!(half_adder(Bit::Low, Bit::High), (Bit::High, Bit::Low));
    assert_eq!(half_adder(Bit::High, Bit::Low), (Bit::High, Bit::Low));
    assert_eq!(half_adder(Bit::High, Bit::High), (Bit::Low, Bit::High));
}

#[test]
fn full_adder_test() {
    assert_eq!(
        full_adder(Bit::Low, Bit::Low, Bit::Low),
        (Bit::Low, Bit::Low)
    );
    assert_eq!(
        full_adder(Bit::Low, Bit::Low, Bit::High),
        (Bit::High, Bit::Low)
    );
    assert_eq!(
        full_adder(Bit::Low, Bit::High, Bit::Low),
        (Bit::High, Bit::Low)
    );
    assert_eq!(
        full_adder(Bit::Low, Bit::High, Bit::High),
        (Bit::Low, Bit::High)
    );
    assert_eq!(
        full_adder(Bit::High, Bit::Low, Bit::Low),
        (Bit::High, Bit::Low)
    );
    assert_eq!(
        full_adder(Bit::High, Bit::Low, Bit::High),
        (Bit::Low, Bit::High)
    );
    assert_eq!(
        full_adder(Bit::High, Bit::High, Bit::Low),
        (Bit::Low, Bit::High)
    );
    assert_eq!(
        full_adder(Bit::High, Bit::High, Bit::High),
        (Bit::High, Bit::High)
    );
}

#[test]
fn mux_test() {
    assert!(!bool::from(mux(Bit::Low, Bit::Low, Bit::Low)));
    assert!(!bool::from(mux(Bit::Low, Bit::Low, Bit::High)));
    assert!(!bool::from(mux(Bit::Low, Bit::High, Bit::Low)));
    assert!(bool::from(mux(Bit::Low, Bit::High, Bit::High)));
    assert!(bool::from(mux(Bit::High, Bit::Low, Bit::Low)));
    assert!(!bool::from(mux(Bit::High, Bit::Low, Bit::High)));
    assert!(bool::from(mux(Bit::High, Bit::High, Bit::Low)));
    assert!(bool::from(mux(Bit::High, Bit::High, Bit::High)));
}

#[test]
fn dmux_test() {
    assert_eq!(dmux(Bit::Low, Bit::Low), (Bit::Low, Bit::Low));
    assert_eq!(dmux(Bit::Low, Bit::High), (Bit::Low, Bit::Low));
    assert_eq!(dmux(Bit::High, Bit::Low), (Bit::High, Bit::Low));
    assert_eq!(dmux(Bit::High, Bit::High), (Bit::Low, Bit::High));
}

#[test]
fn bit_half_adder_test() {
    assert_eq!(half_adder(Bit::Low, Bit::Low), (Bit::Low, Bit::Low));
    assert_eq!(half_adder(Bit::Low, Bit::High), (Bit::High, Bit::Low));
    assert_eq!(half_adder(Bit::High, Bit::Low), (Bit::High, Bit::Low));
    assert_eq!(half_adder(Bit::High, Bit::High), (Bit::Low, Bit::High));
}

#[test]
fn bit_full_adder_test() {
    assert_eq!(
        full_adder(Bit::Low, Bit::Low, Bit::Low),
        (Bit::Low, Bit::Low)
    );
    assert_eq!(
        full_adder(Bit::Low, Bit::Low, Bit::High),
        (Bit::High, Bit::Low)
    );
    assert_eq!(
        full_adder(Bit::Low, Bit::High, Bit::Low),
        (Bit::High, Bit::Low)
    );
    assert_eq!(
        full_adder(Bit::Low, Bit::High, Bit::High),
        (Bit::Low, Bit::High)
    );
    assert_eq!(
        full_adder(Bit::High, Bit::Low, Bit::Low),
        (Bit::High, Bit::Low)
    );
    assert_eq!(
        full_adder(Bit::High, Bit::Low, Bit::High),
        (Bit::Low, Bit::High)
    );
    assert_eq!(
        full_adder(Bit::High, Bit::High, Bit::Low),
        (Bit::Low, Bit::High)
    );
    assert_eq!(
        full_adder(Bit::High, Bit::High, Bit::High),
        (Bit::High, Bit::High)
    );
}

#[test]
fn bit_mux_test() {
    assert!(!bool::from(mux(Bit::Low, Bit::Low, Bit::Low)));
    assert!(!bool::from(mux(Bit::Low, Bit::Low, Bit::High)));
    assert!(!bool::from(mux(Bit::Low, Bit::High, Bit::Low)));
    assert!(bool::from(mux(Bit::Low, Bit::High, Bit::High)));
    assert!(bool::from(mux(Bit::High, Bit::Low, Bit::Low)));
    assert!(!bool::from(mux(Bit::High, Bit::Low, Bit::High)));
    assert!(bool::from(mux(Bit::High, Bit::High, Bit::Low)));
    assert!(bool::from(mux(Bit::High, Bit::High, Bit::High)));
}

#[test]
fn bit_dmux_test() {
    assert_eq!(dmux(Bit::Low, Bit::Low), (Bit::Low, Bit::Low));
    assert_eq!(dmux(Bit::Low, Bit::High), (Bit::Low, Bit::Low));
    assert_eq!(dmux(Bit::High, Bit::Low), (Bit::High, Bit::Low));
    assert_eq!(dmux(Bit::High, Bit::High), (Bit::Low, Bit::High));
}

#[test]
fn mux4_test() {
    for i in 0..64 {
        let input = array::from_fn(|j| Bit::from((i >> j) & 1 == 1));
        let select = array::from_fn(|j| Bit::from((i >> (j + 4)) & 1 == 1));
        assert_eq!(
            mux4(input, select),
            Bit::from(((i % 16) >> (i / 16)) & 1 == 1)
        );
    }
}

#[test]
fn dmux4_test() {
    for i in 0..8 {
        let input = Bit::from(i & 4 == 4);
        let select = array::from_fn(|j| Bit::from((i >> j) & 1 == 1));
        let output = dmux4(input, select);
        if input == Bit::Low {
            assert_eq!(output, [Bit::Low; 4]);
        } else {
            assert_eq!(output[i % 4], Bit::High);
            assert!(output[..i % 4]
                .iter()
                .chain(&output[i % 4 + 1..])
                .all(|bit| bit == &Bit::Low));
        }
    }
}

fn select_bits<const N: usize>(index: usize) -> [Bit; N] {
    array::from_fn(|k| Bit::from((index >> k) & 1 == 1))
}

#[test]
fn mux16_picks_the_selected_bit() {
    for index in 0..16 {
        let input: [Bit; 16] = array::from_fn(|j| Bit::from(j == index));
        for probe in 0..16 {
            assert_eq!(mux16(input, select_bits(probe)), Bit::from(probe == index));
        }
    }
}

#[test]
fn mux256_picks_the_selected_bit() {
    for index in [0usize, 1, 15, 16, 100, 128, 254, 255] {
        let input: [Bit; 256] = array::from_fn(|j| Bit::from(j == index));
        for probe in 0..256 {
            assert_eq!(mux256(input, select_bits(probe)), Bit::from(probe == index));
        }
    }
}

#[test]
fn dmux16_and_dmux256_are_one_hot() {
    for index in 0..16 {
        let output = dmux16(Bit::High, select_bits(index));
        for (k, bit) in output.iter().enumerate() {
            assert_eq!(*bit, Bit::from(k == index));
        }
        assert_eq!(dmux16(Bit::Low, select_bits(index)), [Bit::Low; 16]);
    }
    for index in 0..256 {
        let output = dmux256(Bit::High, select_bits(index));
        for (k, bit) in output.iter().enumerate() {
            assert_eq!(*bit, Bit::from(k == index));
        }
    }
}

#[test]
fn byte_mux_picks_left_when_low() {
    let (left, right) = (Byte::from(0x12), Byte::from(0xef));
    assert_eq!(u8::from(computer::mux::byte::mux(left, right, Bit::Low)), 0x12);
    assert_eq!(u8::from(computer::mux::byte::mux(left, right, Bit::High)), 0xef);
}

#[test]
fn byte_mux4_mux16_mux256_pick_by_index() {
    let four: [Byte; 4] = array::from_fn(|j| Byte::from(10 + j as u8));
    for index in 0..4 {
        assert_eq!(u8::from(computer::mux::byte::mux4(four, select_bits(index))), 10 + index as u8);
    }
    let sixteen: [Byte; 16] = array::from_fn(|j| Byte::from(100 + j as u8));
    for index in 0..16 {
        assert_eq!(
            u8::from(computer::mux::byte::mux16(sixteen, select_bits(index))),
            100 + index as u8
        );
    }
    let all: [Byte; 256] = array::from_fn(|j| Byte::from(255 - j as u8));
    for index in 0..256 {
        assert_eq!(
            u8::from(computer::mux::byte::mux256(all, select_bits(index))),
            255 - index as u8
        );
    }
}

#[test]
fn byte_dmux_sends_to_one_side() {
    let (left, right) = computer::mux::byte::dmux(Byte::from(0x7b), Bit::Low);
    assert_eq!((u8::from(left), u8::from(right)), (0x7b, 0));
    let (left, right) = computer::mux::byte::dmux(Byte::from(0x7b), Bit::High);
    assert_eq!((u8::from(left), u8::from(right)), (0, 0x7b));
}

#[test]
fn byte_dmux4_dmux16_dmux256_are_one_hot() {
    for index in 0..4 {
        let output = computer::mux::byte::dmux4(Byte::from(0xc3), select_bits(index));
        for (k, byte) in output.iter().enumerate() {
            assert_eq!(u8::from(*byte), if k == index { 0xc3 } else { 0 });
        }
    }
    for index in 0..16 {
        let output = computer::mux::byte::dmux16(Byte::from(0xc3), select_bits(index));
        for (k, byte) in output.iter().enumerate() {
            assert_eq!(u8::from(*byte), if k == index { 0xc3 } else { 0 });
        }
    }
    for index in 0..256 {
        let output = computer::mux::byte::dmux256(Byte::from(0xc3), select_bits(index));
        for (k, byte) in output.iter().enumerate() {
            assert_eq!(u8::from(*byte), if k == index { 0xc3 } else { 0 });
        }
    }
}

#[test]
fn registers_start_at_zero_and_keep_what_is_stored() {
    let mut registers = Registers::new();
    for index in 0..4 {
        assert_eq!(u8::from(registers.load(select_bits(index))), 0);
    }
    for index in 0..4 {
        let before: Vec<u8> = (0..4).map(|k| u8::from(registers.load(select_bits(k)))).collect();
        registers.store(select_bits(index), Byte::from(0x40 + index as u8));
        for probe in 0..4 {
            let expected = if probe == index { 0x40 + index as u8 } else { before[probe] };
            assert_eq!(u8::from(registers.load(select_bits(probe))), expected);
        }
    }
    assert_eq!(u8::from(Registers::default().load(select_bits(3))), 0);
}

#[test]
fn ram_starts_at_zero_and_keeps_what_is_stored() {
    let mut ram = Ram::new();
    for address in 0..=u8::MAX {
        assert_eq!(u8::from(ram.load(Byte::from(address))), 0);
    }
    for address in [0u8, 1, 2, 127, 128, 254, 255] {
        let before: Vec<u8> = (0..=u8::MAX).map(|k| u8::from(ram.load(Byte::from(k)))).collect();
        ram.store(Byte::from(address), Byte::from(address ^ 0x5a));
        for probe in 0..=u8::MAX {
            let expected = if probe == address { address ^ 0x5a } else { before[probe as usize] };
            assert_eq!(u8::from(ram.load(Byte::from(probe))), expected);
        }
    }
    ram.store(Byte::from(7), Byte::from(1));
    ram.store(Byte::from(7), Byte::from(2));
    assert_eq!(u8::from(ram.load(Byte::from(7))), 2);
    assert_eq!(u8::from(Ram::default().load(Byte::from(9))), 0);
}
