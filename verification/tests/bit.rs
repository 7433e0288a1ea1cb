use computer::bit::Bit;

#[test]
fn nand() {
    assert!(bool::from(Bit::Low.nand(Bit::Low)));
    assert!(bool::from(Bit::Low.nand(Bit::High)));
    assert!(bool::from(Bit::High.nand(Bit::Low)));
    assert!(!bool::from(Bit::High.nand(Bit::High)));
}

#[test]
fn not() {
    assert!(bool::from(Bit::Low.not()));
    assert!(!bool::from(Bit::High.not()));
}

#[test]
fn and() {
    assert!(!bool::from(Bit::Low.and(Bit::Low)));
    assert!(!bool::from(Bit::Low.and(Bit::High)));
    assert!(!bool::from(Bit::High.and(Bit::Low)));
    assert!(bool::from(Bit::High.and(Bit::High)));
}

#[test]
fn or() {
    assert!(!bool::from(Bit::Low.or(Bit::Low)));
    assert!(bool::from(Bit::Low.or(Bit::High)));
    assert!(bool::from(Bit::High.or(Bit::Low)));
    assert!(bool::from(Bit::High.or(Bit::High)));
}

#[test]
fn nor() {
    assert!(bool::from(Bit::Low.nor(Bit::Low)));
    assert!(!bool::from(Bit::Low.nor(Bit::High)));
    assert!(!bool::from(Bit::High.nor(Bit::Low)));
    assert!(!bool::from(Bit::High.nor(Bit::High)));
}

#[test]
fn xor() {
    assert!(!bool::from(Bit::Low.xor(Bit::Low)));
    assert!(bool::from(Bit::Low.xor(Bit::High)));
    assert!(bool::from(Bit::High.xor(Bit::Low)));
    assert!(!bool::from(Bit::High.xor(Bit::High)));
}

#[test]
fn xnor() {
    assert!(bool::from(Bit::Low.xnor(Bit::Low)));
    assert!(!bool::from(Bit::Low.xnor(Bit::High)));
    assert!(!bool::from(Bit::High.xnor(Bit::Low)));
    assert!(bool::from(Bit::High.xnor(Bit::High)));
}

#[test]
fn bit_nand() {
    assert!(bool::from(Bit::Low.nand(Bit::Low)));
    assert!(bool::from(Bit::Low.nand(Bit::High)));
    assert!(bool::from(Bit::High.nand(Bit::Low)));
    assert!(!bool::from(Bit::High.nand(Bit::High)));
}

#[test]
fn bit_not() {
    assert!(bool::from(Bit::Low.not()));
    assert!(!bool::from(Bit::High.not()));
}

#[test]
fn bit_and() {
    assert!(!bool::from(Bit::Low.and(Bit::Low)));
    assert!(!bool::from(Bit::Low.and(Bit::High)));
    assert!(!bool::from(Bit::High.and(Bit::Low)));
    assert!(bool::from(Bit::High.and(Bit::High)));
}

#[test]
fn bit_or() {
    assert!(!bool::from(Bit::Low.or(Bit::Low)));
    assert!(bool::from(Bit::Low.or(Bit::High)));
    assert!(bool::from(Bit::High.or(Bit::Low)));
    assert!(bool::from(Bit::High.or(Bit::High)));
}

#[test]
fn bit_nor() {
    assert!(bool::from(Bit::Low.nor(Bit::Low)));
    assert!(!bool::from(Bit::Low.nor(Bit::High)));
    assert!(!bool::from(Bit::High.nor(Bit::Low)));
    assert!(!bool::from(Bit::High.nor(Bit::High)));
}

#[test]
fn bit_xor() {
    assert!(!bool::from(Bit::Low.xor(Bit::Low)));
    assert!(bool::from(Bit::Low.xor(Bit::High)));
    assert!(bool::from(Bit::High.xor(Bit::Low)));
    assert!(!bool::from(Bit::High.xor(Bit::High)));
}

#[test]
fn bit_xnor() {
    assert!(bool::from(Bit::Low.xnor(Bit::Low)));
    assert!(!bool::from(Bit::Low.xnor(Bit::High)));
    assert!(!bool::from(Bit::High.xnor(Bit::Low)));
    assert!(bool::from(Bit::High.xnor(Bit::High)));
}

#[test]
fn bit_from_bool_and_back() {
    assert_eq!(Bit::from(true), Bit::High);
    assert_eq!(Bit::from(false), Bit::Low);
    assert!(bool::from(Bit::High));
    assert!(!bool::from(Bit::Low));
}

#[test]
fn gates_follow_their_derivations() {
    for a in [Bit::Low, Bit::High] {
        assert_eq!(a.not(), a.nand(a));
        for b in [Bit::Low, Bit::High] {
            assert_eq!(a.and(b), a.nand(b).not());
            assert_eq!(a.or(b), a.not().nand(b.not()));
            assert_eq!(a.nor(b), a.or(b).not());
            assert_eq!(a.xnor(b), a.nand(b).nand(a.or(b)));
            assert_eq!(a.xor(b), a.xnor(b).not());
        }
    }
}

#[test]
fn bit_operators_match_the_gates() {
    for a in [Bit::Low, Bit::High] {
        assert_eq!(!a, a.not());
        for b in [Bit::Low, Bit::High] {
            assert_eq!(a & b, a.and(b));
            assert_eq!(a | b, a.or(b));
            assert_eq!(a ^ b, a.xor(b));
            let mut c = a;
            c &= b;
            assert_eq!(c, a.and(b));
            let mut c = a;
            c |= b;
            assert_eq!(c, a.or(b));
            let mut c = a;
            c ^= b;
            assert_eq!(c, a.xor(b));
        }
    }
}
