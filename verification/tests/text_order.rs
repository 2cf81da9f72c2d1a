//! Numbers as text, the order of strings, and tables.

use bytes::Bytes;
use rsky_blobstore::table::BlobTable;
use rsky_blobstore::text::{position, same_text, to_decimal, to_hex, Position};

#[test]
fn decimals() {
    for n in [0u64, 7, 9, 10, 99, 100, 12345, u64::MAX] {
        assert_eq!(to_decimal(n), n.to_string());
    }
}

#[test]
fn hexadecimals() {
    assert_eq!(to_hex(0xbeef, 4), "beef");
    assert_eq!(to_hex(0xbeef, 2), "ef");
    assert_eq!(to_hex(0xbeef, 6), "00beef");
    assert_eq!(to_hex(1, 0), "");
}

#[test]
fn strings_are_ordered_as_std_orders_them() {
    let words = ["", "a", "ab", "b", "B", "temp-1", "temp-10", "\u{e9}", "\u{ffff}", "\u{10000}"];
    for a in words {
        for b in words {
            let expected = if a < b {
                Position::Before
            } else if a == b {
                Position::Same
            } else {
                Position::After
            };
            assert_eq!(position(a, b), expected);
            assert_eq!(same_text(a, b), a == b);
        }
    }
}

#[test]
fn tables_replace_and_take_out() {
    let mut table = BlobTable::new();
    for name in ["c", "a", "d", "b", "a"] {
        table.insert(name.to_owned(), Bytes::from(name.as_bytes().to_vec()));
    }
    table.insert("a".to_owned(), Bytes::from(vec![9]));
    assert_eq!(table.keys(), ["a", "b", "c", "d"]);
    assert_eq!(&table.get("a").unwrap()[..], [9]);
    assert_eq!(&table.remove("b").unwrap()[..], b"b");
    assert!(table.remove("b").is_none());
    assert!(!table.contains_key("b"));
    assert!(table.get("e").is_none());
    assert_eq!(table.keys(), ["a", "c", "d"]);
}
