use armtemp::identity::CpuIdentity;

fn named(name: &str) -> CpuIdentity {
    let mut id = CpuIdentity::default();
    id.name = Some(name.to_string());
    id
}

fn identified(identifier: &str) -> CpuIdentity {
    let mut id = CpuIdentity::default();
    id.identifier = Some(identifier.to_string());
    id
}

#[test]
fn name_clock_reads_whole_and_fractional_gigahertz() {
    assert_eq!(named("Chip @ 3.25 GHz").name_clock_mhz(), Some(3250));
    assert_eq!(named("Chip @4.03GHz").name_clock_mhz(), Some(4030));
    assert_eq!(named("Chip @ 4. GHz").name_clock_mhz(), Some(4000));
    assert_eq!(named("Chip @ .5 GHz").name_clock_mhz(), Some(500));
    assert_eq!(named("Chip @ 2.4567 GHz").name_clock_mhz(), Some(2457));
}

#[test]
fn name_clock_uses_the_later_unit() {
    assert_eq!(named("Chip 3.0 GHz boosting, 2800 MHz base").name_clock_mhz(), Some(2800));
    assert_eq!(named("Chip 2800 MHz base, 3.1 GHz boost").name_clock_mhz(), Some(3100));
}

#[test]
fn name_clock_rejects_out_of_range_and_malformed_numbers() {
    assert_eq!(named("Chip @ 499 MHz").name_clock_mhz(), None);
    assert_eq!(named("Chip @ 500 MHz").name_clock_mhz(), Some(500));
    assert_eq!(named("Chip @ 8000 MHz").name_clock_mhz(), Some(8000));
    assert_eq!(named("Chip @ 8.001 GHz").name_clock_mhz(), None);
    assert_eq!(named("Chip @ 1.2.3 GHz").name_clock_mhz(), None);
    assert_eq!(named("Chip @ . GHz").name_clock_mhz(), None);
    assert_eq!(named("Chip @ 99999999999999999999 MHz").name_clock_mhz(), None);
}

#[test]
fn oryon_generation_reads_hex_and_a_plus_sign() {
    assert_eq!(identified("ARMv8 Family 8 Model A Revision 1").oryon_generation(), Some(10));
    assert_eq!(identified("ARMv8 Family 8 Model +2 Revision 1").oryon_generation(), Some(2));
    assert_eq!(identified("ARMv8 Family 8 Model  1f Revision 1").oryon_generation(), Some(31));
}

#[test]
fn oryon_generation_token_stops_at_the_next_model_marker() {
    assert_eq!(identified("Model 2Model 3").oryon_generation(), Some(2));
}

#[test]
fn oryon_generation_none_without_a_valid_token() {
    assert_eq!(identified("ARMv8 Family 8 Model2 Revision 1").oryon_generation(), None);
    assert_eq!(identified("ARMv8 Family 8 Model ZZ Revision 1").oryon_generation(), None);
    assert_eq!(identified("ARMv8 Family 8 Model 1FFFFFFFF").oryon_generation(), None);
    assert_eq!(identified("ARMv8 Family 8 Model    ").oryon_generation(), None);
    assert_eq!(identified("Model +").oryon_generation(), None);
}

#[test]
fn normalized_name_drops_non_ascii_and_punctuation() {
    assert_eq!(named("Snäpdragon (TM) 8cx Gen 3").normalized_name(), "snpdragontm8cxgen3");
    assert_eq!(CpuIdentity::default().normalized_name(), "");
}

#[test]
fn name_lower_lowercases_the_raw_name() {
    assert_eq!(named("Snapdragon(R) X Elite").name_lower(), "snapdragon(r) x elite");
    assert_eq!(CpuIdentity::default().name_lower(), "");
}

#[test]
fn max_mhz_none_without_readings() {
    assert_eq!(CpuIdentity::default().max_mhz(), None);
}

#[test]
fn normalized_name_is_lowercase_alphanumeric_and_stable() {
    let first = named("Snapdragon(R) X2 \u{c9}LITE - X2E-78-100").normalized_name();
    assert_eq!(first, "snapdragonrx2litex2e78100");
    assert!(first.chars().all(|c| c.is_ascii_lowercase() || c.is_ascii_digit()));
    assert_eq!(named(&first).normalized_name(), first);
    assert_eq!(named("ARM Cortex-X1 @ 3.00 GHz").normalized_name(), "armcortexx1300ghz");
}
