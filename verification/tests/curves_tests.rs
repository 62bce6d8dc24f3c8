use relay_curve_estimator::curves::{CurveDefinition, CurveStandard, CurveType};

#[test]
fn standard_names() {
    assert_eq!(CurveStandard::IEC.as_str(), "IEC 60255");
    assert_eq!(CurveStandard::IEEE.as_str(), "IEEE C37.112");
    assert_eq!(CurveStandard::IEC.dial_name(), "TMS (Time Multiplier)");
    assert_eq!(CurveStandard::IEEE.dial_name(), "TD (Time Dial)");
    assert_eq!(CurveStandard::IEC.dial_short_name(), "TMS");
    assert_eq!(CurveStandard::IEEE.dial_short_name(), "TD");
}

#[test]
fn catalogue_lists_every_curve_once() {
    let all = CurveDefinition::all();
    assert_eq!(all.len(), 11);
    assert_eq!(all.iter().filter(|c| c.standard == CurveStandard::IEC).count(), 5);
    for (i, a) in all.iter().enumerate() {
        for b in all.iter().skip(i + 1) {
            assert_ne!(a.id, b.id);
            assert!(a.standard != b.standard || a.code != b.code);
        }
    }
    let mi = all.iter().find(|c| c.id == CurveType::IeeeModeratelyInverse).expect("IEEE MI curve must exist");
    assert_eq!(mi.standard, CurveStandard::IEEE);
    assert_eq!(mi.code, "MI");
    assert_eq!(mi.name, "Moderately Inverse (MI)");
    assert_eq!(mi.formula_str, "t = TD × [ 0.0515 / ((I/Is)^0.02 - 1) + 0.114 ]");
    let ei = all.iter().find(|c| c.id == CurveType::IecExtremelyInverse).expect("IEC EI curve must exist");
    assert_eq!(ei.standard, CurveStandard::IEC);
    assert_eq!(ei.code, "EI");
}

#[test]
fn catalogue_order() {
    let all = CurveDefinition::all();
    assert_eq!(all[0].id, CurveType::IecStandardInverse);
    assert_eq!(all[4].id, CurveType::IecNormalInverse);
    assert_eq!(all[4].description, "IEC 60255 Normal Inverse (equivalent constant parameters to Standard Inverse).");
    assert_eq!(all[5].id, CurveType::IeeeModeratelyInverse);
    assert_eq!(all[10].id, CurveType::IeeeUltraInverse);
    assert_eq!(all[10].code, "UI");
}

#[test]
fn curve_texts_name_standard_code_and_dial() {
    for c in CurveDefinition::all() {
        assert!(c.description.starts_with(c.standard.as_str()));
        assert!(c.name.ends_with(&format!("({})", c.code)));
        assert!(c.formula_str.contains(c.standard.dial_short_name()));
    }
}
