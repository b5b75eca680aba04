use dictstore::ids::{Dict, Document, Id};

#[test]
fn id_round_trips_its_raw_value() {
    let id: Id<Document> = Id::new(42);
    assert_eq!(id.get(), 42);
}

#[test]
fn ids_compare_by_raw_value() {
    let a: Id<Dict> = Id::new(1);
    let b: Id<Dict> = Id::new(1);
    let c: Id<Dict> = Id::new(2);
    assert!(a == b);
    assert!(a != c);
    assert!(a < c);
    assert!(c > b);
}

#[test]
fn config_carries_its_path() {
    let c = dictstore::config::Config::new("data/stroke-order".to_string());
    assert_eq!(c.stroke_order_data, "data/stroke-order");
}
