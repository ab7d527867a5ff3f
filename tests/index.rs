use rusolve::{Col, Row};

#[test]
fn row_arithmetic() {
    let r = Row::new(3);
    assert_eq!((r + 2).index(), 5);
    assert_eq!((r - 1).index(), 2);
    assert_eq!((r + Row::new(4)).index(), 7);
    assert_eq!((r - Row::new(3)).index(), 0);
    assert!(Row::new(1) < Row::new(2));
    assert_eq!(Row::new(4), Row::new(4));
}

#[test]
fn col_arithmetic() {
    let c = Col::new(3);
    assert_eq!((c + 2).index(), 5);
    assert_eq!((c - 1).index(), 2);
    assert_eq!((c + Col::new(4)).index(), 7);
    assert_eq!((c - Col::new(1)).index(), 2);
}

#[test]
fn row_col_conversion() {
    assert_eq!(Col::from(Row::new(6)).index(), 6);
    assert_eq!(Row::from(Col::new(2)).index(), 2);
    assert_eq!(Col::from(Row::new(1) + 1), Col::new(2));
}
