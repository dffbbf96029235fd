use armtemp::identity::CpuIdentity;

#[test]
fn oryon_generation_parses_model_1_and_2() {
    let mut id = CpuIdentity::default();
    id.identifier = Some("ARMv8 (64-bit) Family 8 Model 1 Revision 201".into());
    assert_eq!(id.oryon_generation(), Some(1));
    id.identifier = Some("ARMv8 (64-bit) Family 8 Model 2 Revision 201".into());
    assert_eq!(id.oryon_generation(), Some(2));
}

#[test]
fn oryon_generation_none_when_malformed_or_absent() {
    let mut id = CpuIdentity::default();
    assert_eq!(id.oryon_generation(), None);
    id.identifier = Some("garbage string".into());
    assert_eq!(id.oryon_generation(), None);
}

#[test]
fn max_mhz_is_the_highest_per_core_reading() {
    let mut id = CpuIdentity::default();
    id.per_core_mhz = vec![2976, 3418, 710];
    assert_eq!(id.max_mhz(), Some(3418));
}

#[test]
fn normalized_name_strips_marks_and_lowercases() {
    let mut id = CpuIdentity::default();
    id.name = Some("Snapdragon(R) X2 Elite - X2E-78-100".into());
    assert_eq!(id.normalized_name(), "snapdragonrx2elitex2e78100");
}

#[test]
fn name_clock_mhz_parses_x2_bare_marketing_name() {
    let mut id = CpuIdentity::default();
    id.name = Some("Snapdragon X2 Elite @ 4.03 GHz".into());
    assert_eq!(id.name_clock_mhz(), Some(4030));
}

#[test]
fn name_clock_mhz_ignores_sku_digits_and_reads_trailing_clock() {
    let mut id = CpuIdentity::default();
    id.name = Some("Snapdragon(R) X Elite - X1E-78-100 - Qualcomm(R) Oryon(TM) CPU @ 3.40 GHz".into());
    assert_eq!(id.name_clock_mhz(), Some(3400));
}

#[test]
fn name_clock_mhz_parses_mhz_unit() {
    let mut id = CpuIdentity::default();
    id.name = Some("Snapdragon X Plus - X1P64100 @ 3400 MHz".into());
    assert_eq!(id.name_clock_mhz(), Some(3400));
}

#[test]
fn name_clock_mhz_none_when_absent_or_garbage() {
    let mut id = CpuIdentity::default();
    assert_eq!(id.name_clock_mhz(), None);
    id.name = Some("Snapdragon X2 Elite".into());
    assert_eq!(id.name_clock_mhz(), None);
    id.name = Some("Snapdragon X2 Elite @ GHz".into());
    assert_eq!(id.name_clock_mhz(), None);
}

