use txprobe::builder::{build, BuildError, FeeProfile, TransactionSpec};
use txprobe::codec::Address;

fn sender() -> Address {
    Address::from_bytes(vec![0xaau8; 20]).unwrap()
}

fn recipient() -> Address {
    Address::from_bytes(vec![0xbbu8; 20]).unwrap()
}

fn profile() -> FeeProfile {
    FeeProfile {
        suggested_gas_price: Some(5),
        max_priority_fee_per_gas: 2,
        max_fee_per_gas: 9,
    }
}

#[test]
fn build_legacy_draws_gas_price() {
    let tx = build(0, &sender(), &recipient(), 77, &profile()).unwrap();
    match tx {
        TransactionSpec::Legacy(b) => {
            assert_eq!(b.sender.as_bytes(), sender().as_bytes());
            assert_eq!(b.recipient.as_bytes(), recipient().as_bytes());
            assert_eq!(b.value, 77);
            assert_eq!(b.gas_price, Some(5));
        }
        _ => panic!("selector 0 must build the legacy variant"),
    }
}

#[test]
fn build_legacy_omits_unsuggested_gas_price() {
    let p = FeeProfile { suggested_gas_price: None, ..profile() };
    let tx = build(0, &sender(), &recipient(), 1, &p).unwrap();
    match tx {
        TransactionSpec::Legacy(b) => assert_eq!(b.gas_price, None),
        _ => panic!("selector 0 must build the legacy variant"),
    }
}

#[test]
fn build_access_list_wraps_legacy_base() {
    let tx = build(1, &sender(), &recipient(), 42, &profile()).unwrap();
    match tx {
        TransactionSpec::AccessList(b, al) => {
            assert_eq!(b.sender.as_bytes(), sender().as_bytes());
            assert_eq!(b.value, 42);
            assert_eq!(b.gas_price, Some(5));
            assert!(al.is_empty());
        }
        _ => panic!("selector 1 must build the access-list variant"),
    }
}

#[test]
fn build_fee_market_draws_both_fees() {
    let tx = build(2, &sender(), &recipient(), 3, &profile()).unwrap();
    match tx {
        TransactionSpec::FeeMarket {
            sender: s,
            recipient: t,
            value,
            max_priority_fee_per_gas,
            max_fee_per_gas,
        } => {
            assert_eq!(s.as_bytes(), sender().as_bytes());
            assert_eq!(t.as_bytes(), recipient().as_bytes());
            assert_eq!(value, 3);
            assert_eq!(max_priority_fee_per_gas, 2);
            assert_eq!(max_fee_per_gas, 9);
        }
        _ => panic!("selector 2 must build the fee-market variant"),
    }
}

#[test]
fn build_reserved_selectors_are_unsupported() {
    for selector in 3u8..=5u8 {
        let err = build(selector, &sender(), &recipient(), 1, &profile()).unwrap_err();
        assert_eq!(err, BuildError::UnsupportedType(selector));
    }
}

#[test]
fn build_out_of_range_selectors_are_unknown() {
    for selector in [6u8, 7, 100, 255] {
        let err = build(selector, &sender(), &recipient(), 1, &profile()).unwrap_err();
        assert_eq!(err, BuildError::UnknownType(selector));
    }
}
