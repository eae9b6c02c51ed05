use unicum_api::entities::{Permissions, ALL_PERMISSION_BITS};
use unicum_api::users::combine_permissions;

#[test]
fn permissions_round_trip_through_the_database_integer() {
    for bits in 0..=ALL_PERMISSION_BITS {
        let permissions = Permissions::from_bits_truncate(bits);
        let stored = permissions.to_i32();
        let read = Permissions::try_from(stored).expect("stored permissions should read back");
        assert_eq!(permissions, read);
        assert_eq!(stored, i32::from(permissions));
    }
}

#[test]
fn unknown_bits_are_refused_when_read() {
    let result = Permissions::try_from(0b1_0000);

    assert_eq!(Err("Invalid bitmask value".to_owned()), result);
    assert!(Permissions::try_from(-1).is_err());
    assert_eq!(None, Permissions::from_bits(0b10_0001));
}

#[test]
fn unknown_bits_are_dropped_when_truncated() {
    assert_eq!(0b0101, Permissions::from_bits_truncate(0b1111_0101).bits());
}

#[test]
fn containment_is_by_bits() {
    let read_write = Permissions::from_bits_truncate(Permissions::STOCK_READ | Permissions::STOCK_WRITE);
    let read = Permissions::from_bits_truncate(Permissions::STOCK_READ);

    assert!(read_write.contains(read));
    assert!(!read.contains(read_write));
    assert!(read.contains(Permissions::empty()));
    assert!(Permissions::all().contains(read_write));
}

#[test]
fn union_joins_the_bits() {
    let a = Permissions::from_bits_truncate(Permissions::STOCK_READ);
    let b = Permissions::from_bits_truncate(Permissions::SALES_READ);

    assert_eq!(0b1001, a.union(b).bits());
}

#[test]
fn permissions_describe_their_names() {
    let permissions = Permissions::from_bits_truncate(Permissions::STOCK_READ | Permissions::SALES_READ);

    assert_eq!("Permissions(STOCK_READ | SALES_READ)", permissions.describe());
    assert_eq!("Permissions(0x0)", Permissions::empty().describe());
    assert_eq!(
        "Permissions(STOCK_READ | STOCK_WRITE | STATE_READ | SALES_READ)",
        Permissions::all().describe()
    );
}

#[test]
fn selected_permissions_are_combined() {
    let selected = vec![
        Permissions::from_bits_truncate(Permissions::STATE_READ),
        Permissions::from_bits_truncate(Permissions::STOCK_WRITE),
    ];

    assert_eq!(0b0110, combine_permissions(&selected).bits());
    assert_eq!(0, combine_permissions(&[]).bits());
}
