use motu_mk5::protocol::properties::{find_by_id, find_by_name, properties};
use motu_mk5::protocol::types::PropertyType;

#[test]
fn lookups_by_name_and_id_agree() {
    let gain = find_by_name("input_gain").unwrap();
    assert_eq!(gain.id, 5001);
    assert_eq!(gain.prop_type, PropertyType::Byte);
    assert_eq!(gain.count, 8);
    assert!(gain.writable);
    assert_eq!(find_by_id(5001).unwrap().name, "input_gain");
    assert_eq!(find_by_id(10).unwrap().name, "sample_rate");
    assert!(find_by_name("nope").is_none());
    assert!(find_by_id(4242).is_none());
}

#[test]
fn every_property_is_found_by_its_name_and_id() {
    for def in properties() {
        assert_eq!(find_by_id(def.id).unwrap().name, def.name);
        assert_eq!(find_by_name(def.name).unwrap().id, def.id);
    }
}

#[test]
fn listing_has_a_line_per_property() {
    let listing = motu_mk5::protocol::listing::property_listing();
    let lines: Vec<&str> = listing.lines().collect();
    assert_eq!(lines.len(), 2 + properties().len());
    assert_eq!(
        lines[0],
        format!("{:<28} {:>5}  {:<6} {:>2} {:>5}  {}", "NAME", "ID", "TYPE", "RW", "COUNT", "DESCRIPTION")
    );
    assert_eq!(lines[1], "-".repeat(95));
    assert_eq!(
        lines[8],
        "sample_rate                     10  Int32  rw     1  Sample rate in Hz"
    );
    for (line, p) in lines[2..].iter().zip(properties()) {
        let rw = if p.writable { "rw" } else { "ro" };
        let expected = format!(
            "{:<28} {:>5}  {:<6} {:>2} {:>5}  {}",
            p.name,
            p.id,
            format!("{:?}", p.prop_type),
            rw,
            p.count,
            p.description
        );
        assert_eq!(*line, expected);
    }
    assert!(listing.ends_with('\n'));
}
