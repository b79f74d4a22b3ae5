use claudioos::{Register, RegisterError};

#[test]
fn rejects_non_rv32e_registers() {
    assert_eq!(Register::new(15).unwrap().index(), 15);
    assert_eq!(Register::new(16), Err(RegisterError::NotRv32e(16)));
    assert_eq!(Register::new(31), Err(RegisterError::NotRv32e(31)));
}

#[test]
fn register_numbers_round_trip() {
    for i in 0u8..16 {
        let r = Register::new(i).unwrap();
        assert_eq!(r.raw(), i);
        assert_eq!(r.index(), i as usize);
    }
    assert_eq!(Register::zero().index(), 0);
    assert_eq!(Register::return_address().index(), 1);
    assert_eq!(Register::stack_pointer().index(), 2);
}
