use vstd::prelude::*;

verus! {

/// The standard that a relay curve family is defined by.
#[derive(Debug, Clone, Copy, PartialEq, Eq, Structural, Hash)]
pub enum CurveStandard {
    IEC,
    IEEE,
}

/// The display name of a standard.
pub open spec fn standard_title(s: CurveStandard) -> Seq<char> {
    match s {
        CurveStandard::IEC => "IEC 60255"@,
        CurveStandard::IEEE => "IEEE C37.112"@,
    }
}

/// The long name of the dial setting that scales a curve of the standard.
pub open spec fn dial_title(s: CurveStandard) -> Seq<char> {
    match s {
        CurveStandard::IEC => "TMS (Time Multiplier)"@,
        CurveStandard::IEEE => "TD (Time Dial)"@,
    }
}

/// The abbreviation of the dial setting of the standard.
pub open spec fn dial_abbreviation(s: CurveStandard) -> Seq<char> {
    match s {
        CurveStandard::IEC => "TMS"@,
        CurveStandard::IEEE => "TD"@,
    }
}

impl CurveStandard {
    /// The standard's name, such as "IEC 60255".
    pub fn as_str(&self) -> (s: &'static str)
        ensures
            s@ == standard_title(*self),
    {
        match self {
            CurveStandard::IEC => "IEC 60255",
            CurveStandard::IEEE => "IEEE C37.112",
        }
    }

    /// The long name of the standard's dial setting.
    pub fn dial_name(&self) -> (s: &'static str)
        ensures
            s@ == dial_title(*self),
    {
        match self {
            CurveStandard::IEC => "TMS (Time Multiplier)",
            CurveStandard::IEEE => "TD (Time Dial)",
        }
    }

    /// The short name of the standard's dial setting.
    pub fn dial_short_name(&self) -> (s: &'static str)
        ensures
            s@ == dial_abbreviation(*self),
    {
        match self {
            CurveStandard::IEC => "TMS",
            CurveStandard::IEEE => "TD",
        }
    }
}

/// The inverse-time characteristics that the estimator fits.
#[derive(Debug, Clone, Copy, PartialEq, Eq, Structural, Hash)]
pub enum CurveType {
    IecStandardInverse,
    IecVeryInverse,
    IecExtremelyInverse,
    IecLongTimeInverse,
    IecNormalInverse,
    IeeeModeratelyInverse,
    IeeeVeryInverse,
    IeeeExtremelyInverse,
    IeeeShortTimeInverse,
    IeeeLongTimeInverse,
    IeeeUltraInverse,
}

/// One curve of the catalogue with its texts.
#[derive(Debug, Clone)]
pub struct CurveDefinition {
    pub id: CurveType,
    pub standard: CurveStandard,
    pub code: String,
    pub name: String,
    pub description: String,
    pub formula_str: String,
}

/// The standard that defines a curve type.
pub open spec fn standard_of(id: CurveType) -> CurveStandard {
    match id {
        CurveType::IecStandardInverse => CurveStandard::IEC,
        CurveType::IecVeryInverse => CurveStandard::IEC,
        CurveType::IecExtremelyInverse => CurveStandard::IEC,
        CurveType::IecLongTimeInverse => CurveStandard::IEC,
        CurveType::IecNormalInverse => CurveStandard::IEC,
        CurveType::IeeeModeratelyInverse => CurveStandard::IEEE,
        CurveType::IeeeVeryInverse => CurveStandard::IEEE,
        CurveType::IeeeExtremelyInverse => CurveStandard::IEEE,
        CurveType::IeeeShortTimeInverse => CurveStandard::IEEE,
        CurveType::IeeeLongTimeInverse => CurveStandard::IEEE,
        CurveType::IeeeUltraInverse => CurveStandard::IEEE,
    }
}

/// The short code of a curve within its standard.
pub open spec fn code_of(id: CurveType) -> Seq<char> {
    match id {
        CurveType::IecStandardInverse => "SI"@,
        CurveType::IecVeryInverse => "VI"@,
        CurveType::IecExtremelyInverse => "EI"@,
        CurveType::IecLongTimeInverse => "LTI"@,
        CurveType::IecNormalInverse => "NI"@,
        CurveType::IeeeModeratelyInverse => "MI"@,
        CurveType::IeeeVeryInverse => "VI"@,
        CurveType::IeeeExtremelyInverse => "EI"@,
        CurveType::IeeeShortTimeInverse => "SI"@,
        CurveType::IeeeLongTimeInverse => "LI"@,
        CurveType::IeeeUltraInverse => "UI"@,
    }
}

/// The display name of a curve.
pub open spec fn name_of(id: CurveType) -> Seq<char> {
    match id {
        CurveType::IecStandardInverse => "Standard Inverse (SI)"@,
        CurveType::IecVeryInverse => "Very Inverse (VI)"@,
        CurveType::IecExtremelyInverse => "Extremely Inverse (EI)"@,
        CurveType::IecLongTimeInverse => "Long Time Inverse (LTI)"@,
        CurveType::IecNormalInverse => "Normal Inverse (NI)"@,
        CurveType::IeeeModeratelyInverse => "Moderately Inverse (MI)"@,
        CurveType::IeeeVeryInverse => "Very Inverse (VI)"@,
        CurveType::IeeeExtremelyInverse => "Extremely Inverse (EI)"@,
        CurveType::IeeeShortTimeInverse => "Short-Time Inverse (SI)"@,
        CurveType::IeeeLongTimeInverse => "Long-Time Inverse (LI)"@,
        CurveType::IeeeUltraInverse => "Ultra Inverse (UI)"@,
    }
}

/// The description of a curve.
pub open spec fn description_of(id: CurveType) -> Seq<char> {
    match id {
        CurveType::IecStandardInverse => "IEC 60255 Standard Inverse characteristic. Most commonly used for general feeder protection."@,
        CurveType::IecVeryInverse => "IEC 60255 Very Inverse. Steeper curve ideal where fault current drops significantly with distance."@,
        CurveType::IecExtremelyInverse => "IEC 60255 Extremely Inverse. Highly steep curve suitable for transformer inrush and fuse coordination."@,
        CurveType::IecLongTimeInverse => "IEC 60255 Long Time Inverse for motor overload and thermal backup protection."@,
        CurveType::IecNormalInverse => "IEC 60255 Normal Inverse (equivalent constant parameters to Standard Inverse)."@,
        CurveType::IeeeModeratelyInverse => "IEEE C37.112 Moderately Inverse characteristic. Common general distribution overcurrent protection."@,
        CurveType::IeeeVeryInverse => "IEEE C37.112 Very Inverse characteristic with quadratic exponent."@,
        CurveType::IeeeExtremelyInverse => "IEEE C37.112 Extremely Inverse characteristic for fast clearing at high fault levels."@,
        CurveType::IeeeShortTimeInverse => "IEEE C37.112 Short-Time Inverse. Fast response curve for selective coordination."@,
        CurveType::IeeeLongTimeInverse => "IEEE C37.112 Long-Time Inverse for equipment thermal and overload protection."@,
        CurveType::IeeeUltraInverse => "IEEE C37.112 Ultra Inverse characteristic with fast tripping under heavy faults."@,
    }
}

/// The operating-time formula of a curve, as text.
pub open spec fn formula_of(id: CurveType) -> Seq<char> {
    match id {
        CurveType::IecStandardInverse => "t = (0.14 × TMS) / ((I/Is)^0.02 - 1)"@,
        CurveType::IecVeryInverse => "t = (13.5 × TMS) / ((I/Is)^1.0 - 1)"@,
        CurveType::IecExtremelyInverse => "t = (80.0 × TMS) / ((I/Is)^2.0 - 1)"@,
        CurveType::IecLongTimeInverse => "t = (120.0 × TMS) / ((I/Is)^1.0 - 1)"@,
        CurveType::IecNormalInverse => "t = (0.14 × TMS) / ((I/Is)^0.02 - 1)"@,
        CurveType::IeeeModeratelyInverse => "t = TD × [ 0.0515 / ((I/Is)^0.02 - 1) + 0.114 ]"@,
        CurveType::IeeeVeryInverse => "t = TD × [ 19.61 / ((I/Is)^2.0 - 1) + 0.491 ]"@,
        CurveType::IeeeExtremelyInverse => "t = TD × [ 28.2 / ((I/Is)^2.0 - 1) + 0.1217 ]"@,
        CurveType::IeeeShortTimeInverse => "t = TD × [ 0.16758 / ((I/Is)^0.02 - 1) + 0.11858 ]"@,
        CurveType::IeeeLongTimeInverse => "t = TD × [ 0.00262 / ((I/Is)^0.02 - 1) + 0.00262 ]"@,
        CurveType::IeeeUltraInverse => "t = TD × [ 8.9341 / ((I/Is)^2.0 - 1) + 0.17966 ]"@,
    }
}

/// The order in which the catalogue lists the curves: IEC first, then IEEE.
pub open spec fn catalogue_order() -> Seq<CurveType> {
    seq![
        CurveType::IecStandardInverse,
        CurveType::IecVeryInverse,
        CurveType::IecExtremelyInverse,
        CurveType::IecLongTimeInverse,
        CurveType::IecNormalInverse,
        CurveType::IeeeModeratelyInverse,
        CurveType::IeeeVeryInverse,
        CurveType::IeeeExtremelyInverse,
        CurveType::IeeeShortTimeInverse,
        CurveType::IeeeLongTimeInverse,
        CurveType::IeeeUltraInverse,
    ]
}

/// What a catalogue entry for the curve type holds.
pub open spec fn describes(d: CurveDefinition, id: CurveType) -> bool {
    &&& d.id == id
    &&& d.standard == standard_of(id)
    &&& d.code@ == code_of(id)
    &&& d.name@ == name_of(id)
    &&& d.description@ == description_of(id)
    &&& d.formula_str@ == formula_of(id)
}

/// Builds the catalogue entry of one curve type.
fn definition_of(id: CurveType) -> (d: CurveDefinition)
    ensures
        describes(d, id),
{
    match id {
        CurveType::IecStandardInverse => CurveDefinition {
            id,
            standard: CurveStandard::IEC,
            code: String::from_str("SI"),
            name: String::from_str("Standard Inverse (SI)"),
            description: String::from_str("IEC 60255 Standard Inverse characteristic. Most commonly used for general feeder protection."),
            formula_str: String::from_str("t = (0.14 × TMS) / ((I/Is)^0.02 - 1)"),
        },
        CurveType::IecVeryInverse => CurveDefinition {
            id,
            standard: CurveStandard::IEC,
            code: String::from_str("VI"),
            name: String::from_str("Very Inverse (VI)"),
            description: String::from_str("IEC 60255 Very Inverse. Steeper curve ideal where fault current drops significantly with distance."),
            formula_str: String::from_str("t = (13.5 × TMS) / ((I/Is)^1.0 - 1)"),
        },
        CurveType::IecExtremelyInverse => CurveDefinition {
            id,
            standard: CurveStandard::IEC,
            code: String::from_str("EI"),
            name: String::from_str("Extremely Inverse (EI)"),
            description: String::from_str("IEC 60255 Extremely Inverse. Highly steep curve suitable for transformer inrush and fuse coordination."),
            formula_str: String::from_str("t = (80.0 × TMS) / ((I/Is)^2.0 - 1)"),
        },
        CurveType::IecLongTimeInverse => CurveDefinition {
            id,
            standard: CurveStandard::IEC,
            code: String::from_str("LTI"),
            name: String::from_str("Long Time Inverse (LTI)"),
            description: String::from_str("IEC 60255 Long Time Inverse for motor overload and thermal backup protection."),
            formula_str: String::from_str("t = (120.0 × TMS) / ((I/Is)^1.0 - 1)"),
        },
        CurveType::IecNormalInverse => CurveDefinition {
            id,
            standard: CurveStandard::IEC,
            code: String::from_str("NI"),
            name: String::from_str("Normal Inverse (NI)"),
            description: String::from_str("IEC 60255 Normal Inverse (equivalent constant parameters to Standard Inverse)."),
            formula_str: String::from_str("t = (0.14 × TMS) / ((I/Is)^0.02 - 1)"),
        },
        CurveType::IeeeModeratelyInverse => CurveDefinition {
            id,
            standard: CurveStandard::IEEE,
            code: String::from_str("MI"),
            name: String::from_str("Moderately Inverse (MI)"),
            description: String::from_str("IEEE C37.112 Moderately Inverse characteristic. Common general distribution overcurrent protection."),
            formula_str: String::from_str("t = TD × [ 0.0515 / ((I/Is)^0.02 - 1) + 0.114 ]"),
        },
        CurveType::IeeeVeryInverse => CurveDefinition {
            id,
            standard: CurveStandard::IEEE,
            code: String::from_str("VI"),
            name: String::from_str("Very Inverse (VI)"),
            description: String::from_str("IEEE C37.112 Very Inverse characteristic with quadratic exponent."),
            formula_str: String::from_str("t = TD × [ 19.61 / ((I/Is)^2.0 - 1) + 0.491 ]"),
        },
        CurveType::IeeeExtremelyInverse => CurveDefinition {
            id,
            standard: CurveStandard::IEEE,
            code: String::from_str("EI"),
            name: String::from_str("Extremely Inverse (EI)"),
            description: String::from_str("IEEE C37.112 Extremely Inverse characteristic for fast clearing at high fault levels."),
            formula_str: String::from_str("t = TD × [ 28.2 / ((I/Is)^2.0 - 1) + 0.1217 ]"),
        },
        CurveType::IeeeShortTimeInverse => CurveDefinition {
            id,
            standard: CurveStandard::IEEE,
            code: String::from_str("SI"),
            name: String::from_str("Short-Time Inverse (SI)"),
            description: String::from_str("IEEE C37.112 Short-Time Inverse. Fast response curve for selective coordination."),
            formula_str: String::from_str("t = TD × [ 0.16758 / ((I/Is)^0.02 - 1) + 0.11858 ]"),
        },
        CurveType::IeeeLongTimeInverse => CurveDefinition {
            id,
            standard: CurveStandard::IEEE,
            code: String::from_str("LI"),
            name: String::from_str("Long-Time Inverse (LI)"),
            description: String::from_str("IEEE C37.112 Long-Time Inverse for equipment thermal and overload protection."),
            formula_str: String::from_str("t = TD × [ 0.00262 / ((I/Is)^0.02 - 1) + 0.00262 ]"),
        },
        CurveType::IeeeUltraInverse => CurveDefinition {
            id,
            standard: CurveStandard::IEEE,
            code: String::from_str("UI"),
            name: String::from_str("Ultra Inverse (UI)"),
            description: String::from_str("IEEE C37.112 Ultra Inverse characteristic with fast tripping under heavy faults."),
            formula_str: String::from_str("t = TD × [ 8.9341 / ((I/Is)^2.0 - 1) + 0.17966 ]"),
        },
    }
}

impl CurveDefinition {
    /// The full catalogue of curves, in the order of `catalogue_order`.
    pub fn all() -> (v: Vec<CurveDefinition>)
        ensures
            v@.len() == catalogue_order().len(),
            forall|i: int| 0 <= i < v@.len() ==> describes(#[trigger] v@[i], catalogue_order()[i]),
    {
        let mut v: Vec<CurveDefinition> = Vec::new();
        v.push(definition_of(CurveType::IecStandardInverse));
        v.push(definition_of(CurveType::IecVeryInverse));
        v.push(definition_of(CurveType::IecExtremelyInverse));
        v.push(definition_of(CurveType::IecLongTimeInverse));
        v.push(definition_of(CurveType::IecNormalInverse));
        v.push(definition_of(CurveType::IeeeModeratelyInverse));
        v.push(definition_of(CurveType::IeeeVeryInverse));
        v.push(definition_of(CurveType::IeeeExtremelyInverse));
        v.push(definition_of(CurveType::IeeeShortTimeInverse));
        v.push(definition_of(CurveType::IeeeLongTimeInverse));
        v.push(definition_of(CurveType::IeeeUltraInverse));
        v
    }
}

/// Every curve type is listed by the catalogue.
pub proof fn catalogue_is_complete(id: CurveType)
    ensures
        catalogue_order().contains(id),
{
    let order = catalogue_order();
    let k: int = match id {
        CurveType::IecStandardInverse => 0,
        CurveType::IecVeryInverse => 1,
        CurveType::IecExtremelyInverse => 2,
        CurveType::IecLongTimeInverse => 3,
        CurveType::IecNormalInverse => 4,
        CurveType::IeeeModeratelyInverse => 5,
        CurveType::IeeeVeryInverse => 6,
        CurveType::IeeeExtremelyInverse => 7,
        CurveType::IeeeShortTimeInverse => 8,
        CurveType::IeeeLongTimeInverse => 9,
        CurveType::IeeeUltraInverse => 10,
    };
    assert(order[k] == id);
}

/// No curve type is listed twice by the catalogue.
pub proof fn catalogue_has_no_duplicates(i: int, j: int)
    requires
        0 <= i < j < catalogue_order().len(),
    ensures
        catalogue_order()[i] != catalogue_order()[j],
{
}

/// Within one standard, the short code names a single curve type.
pub proof fn code_identifies_curve(a: CurveType, b: CurveType)
    requires
        standard_of(a) == standard_of(b),
        code_of(a) == code_of(b),
    ensures
        a == b,
{
    reveal_strlit("SI");
    assert("SI"@[0] == 'S');
    reveal_strlit("VI");
    assert("VI"@[0] == 'V');
    reveal_strlit("EI");
    assert("EI"@[0] == 'E');
    reveal_strlit("LTI");
    assert("LTI"@[0] == 'L');
    reveal_strlit("NI");
    assert("NI"@[0] == 'N');
    reveal_strlit("MI");
    assert("MI"@[0] == 'M');
    reveal_strlit("LI");
    assert("LI"@[0] == 'L');
    reveal_strlit("UI");
    assert("UI"@[0] == 'U');
    assert(code_of(a)[0] == code_of(b)[0]);
}

/// Whether `t` occurs in `s` as a run of consecutive characters.
pub open spec fn occurs_in(t: Seq<char>, s: Seq<char>) -> bool {
    exists|i: int| 0 <= i && i + t.len() <= s.len() && #[trigger] s.subrange(i, i + t.len()) == t
}

/// The texts of every curve agree with each other: its description begins with the name of
/// its standard, its name ends with its code in brackets, and its formula names the dial
/// setting of its standard.
pub proof fn curve_texts_agree(id: CurveType)
    ensures
        standard_title(standard_of(id)).is_prefix_of(description_of(id)),
        (seq!['('] + code_of(id) + seq![')']).is_suffix_of(name_of(id)),
        occurs_in(dial_abbreviation(standard_of(id)), formula_of(id)),
{
    match id {
        CurveType::IecStandardInverse => {
            reveal_strlit("IEC 60255");
            reveal_strlit("TMS");
            reveal_strlit("SI");
            reveal_strlit("Standard Inverse (SI)");
            reveal_strlit("IEC 60255 Standard Inverse characteristic. Most commonly used for general feeder protection.");
            reveal_strlit("t = (0.14 × TMS) / ((I/Is)^0.02 - 1)");
            assert(formula_of(id).subrange(12, 12int + dial_abbreviation(standard_of(id)).len()) =~= dial_abbreviation(standard_of(id)));
        },
        CurveType::IecVeryInverse => {
            reveal_strlit("IEC 60255");
            reveal_strlit("TMS");
            reveal_strlit("VI");
            reveal_strlit("Very Inverse (VI)");
            reveal_strlit("IEC 60255 Very Inverse. Steeper curve ideal where fault current drops significantly with distance.");
            reveal_strlit("t = (13.5 × TMS) / ((I/Is)^1.0 - 1)");
            assert(formula_of(id).subrange(12, 12int + dial_abbreviation(standard_of(id)).len()) =~= dial_abbreviation(standard_of(id)));
        },
        CurveType::IecExtremelyInverse => {
            reveal_strlit("IEC 60255");
            reveal_strlit("TMS");
            reveal_strlit("EI");
            reveal_strlit("Extremely Inverse (EI)");
            reveal_strlit("IEC 60255 Extremely Inverse. Highly steep curve suitable for transformer inrush and fuse coordination.");
            reveal_strlit("t = (80.0 × TMS) / ((I/Is)^2.0 - 1)");
            assert(formula_of(id).subrange(12, 12int + dial_abbreviation(standard_of(id)).len()) =~= dial_abbreviation(standard_of(id)));
        },
        CurveType::IecLongTimeInverse => {
            reveal_strlit("IEC 60255");
            reveal_strlit("TMS");
            reveal_strlit("LTI");
            reveal_strlit("Long Time Inverse (LTI)");
            reveal_strlit("IEC 60255 Long Time Inverse for motor overload and thermal backup protection.");
            reveal_strlit("t = (120.0 × TMS) / ((I/Is)^1.0 - 1)");
            assert(formula_of(id).subrange(13, 13int + dial_abbreviation(standard_of(id)).len()) =~= dial_abbreviation(standard_of(id)));
        },
        CurveType::IecNormalInverse => {
            reveal_strlit("IEC 60255");
            reveal_strlit("TMS");
            reveal_strlit("NI");
            reveal_strlit("Normal Inverse (NI)");
            reveal_strlit("IEC 60255 Normal Inverse (equivalent constant parameters to Standard Inverse).");
            reveal_strlit("t = (0.14 × TMS) / ((I/Is)^0.02 - 1)");
            assert(formula_of(id).subrange(12, 12int + dial_abbreviation(standard_of(id)).len()) =~= dial_abbreviation(standard_of(id)));
        },
        CurveType::IeeeModeratelyInverse => {
            reveal_strlit("IEEE C37.112");
            reveal_strlit("TD");
            reveal_strlit("MI");
            reveal_strlit("Moderately Inverse (MI)");
            reveal_strlit("IEEE C37.112 Moderately Inverse characteristic. Common general distribution overcurrent protection.");
            reveal_strlit("t = TD × [ 0.0515 / ((I/Is)^0.02 - 1) + 0.114 ]");
            assert(formula_of(id).subrange(4, 4int + dial_abbreviation(standard_of(id)).len()) =~= dial_abbreviation(standard_of(id)));
        },
        CurveType::IeeeVeryInverse => {
            reveal_strlit("IEEE C37.112");
            reveal_strlit("TD");
            reveal_strlit("VI");
            reveal_strlit("Very Inverse (VI)");
            reveal_strlit("IEEE C37.112 Very Inverse characteristic with quadratic exponent.");
            reveal_strlit("t = TD × [ 19.61 / ((I/Is)^2.0 - 1) + 0.491 ]");
            assert(formula_of(id).subrange(4, 4int + dial_abbreviation(standard_of(id)).len()) =~= dial_abbreviation(standard_of(id)));
        },
        CurveType::IeeeExtremelyInverse => {
            reveal_strlit("IEEE C37.112");
            reveal_strlit("TD");
            reveal_strlit("EI");
            reveal_strlit("Extremely Inverse (EI)");
            reveal_strlit("IEEE C37.112 Extremely Inverse characteristic for fast clearing at high fault levels.");
            reveal_strlit("t = TD × [ 28.2 / ((I/Is)^2.0 - 1) + 0.1217 ]");
            assert(formula_of(id).subrange(4, 4int + dial_abbreviation(standard_of(id)).len()) =~= dial_abbreviation(standard_of(id)));
        },
        CurveType::IeeeShortTimeInverse => {
            reveal_strlit("IEEE C37.112");
            reveal_strlit("TD");
            reveal_strlit("SI");
            reveal_strlit("Short-Time Inverse (SI)");
            reveal_strlit("IEEE C37.112 Short-Time Inverse. Fast response curve for selective coordination.");
            reveal_strlit("t = TD × [ 0.16758 / ((I/Is)^0.02 - 1) + 0.11858 ]");
            assert(formula_of(id).subrange(4, 4int + dial_abbreviation(standard_of(id)).len()) =~= dial_abbreviation(standard_of(id)));
        },
        CurveType::IeeeLongTimeInverse => {
            reveal_strlit("IEEE C37.112");
            reveal_strlit("TD");
            reveal_strlit("LI");
            reveal_strlit("Long-Time Inverse (LI)");
            reveal_strlit("IEEE C37.112 Long-Time Inverse for equipment thermal and overload protection.");
            reveal_strlit("t = TD × [ 0.00262 / ((I/Is)^0.02 - 1) + 0.00262 ]");
            assert(formula_of(id).subrange(4, 4int + dial_abbreviation(standard_of(id)).len()) =~= dial_abbreviation(standard_of(id)));
        },
        CurveType::IeeeUltraInverse => {
            reveal_strlit("IEEE C37.112");
            reveal_strlit("TD");
            reveal_strlit("UI");
            reveal_strlit("Ultra Inverse (UI)");
            reveal_strlit("IEEE C37.112 Ultra Inverse characteristic with fast tripping under heavy faults.");
            reveal_strlit("t = TD × [ 8.9341 / ((I/Is)^2.0 - 1) + 0.17966 ]");
            assert(formula_of(id).subrange(4, 4int + dial_abbreviation(standard_of(id)).len()) =~= dial_abbreviation(standard_of(id)));
        },
    }
}


/// The decimal digit character for `d` below ten.
pub open spec fn digit_char(d: nat) -> char {
    if d == 0 { '0' } else if d == 1 { '1' } else if d == 2 { '2' } else if d == 3 { '3' }
    else if d == 4 { '4' } else if d == 5 { '5' } else if d == 6 { '6' } else if d == 7 { '7' }
    else if d == 8 { '8' } else { '9' }
}

/// The decimal digits of `n`, most significant first, padded with zeros in front to at least
/// `width` digits.
pub open spec fn digits(n: nat, width: nat) -> Seq<char>
    decreases n + width,
{
    if n < 10 && width <= 1 {
        seq![digit_char(n)]
    } else {
        digits(n / 10, if width > 0 { (width - 1) as nat } else { 0 }).push(digit_char(n % 10))
    }
}

/// How the number `n / 10^places` is written with `places` digits after the point, such as
/// "13.5" for `n` = 135 and one place, or "0.02" for `n` = 2 and two places.
pub open spec fn decimal_text(n: nat, places: nat) -> Seq<char> {
    let all = digits(n, places + 1);
    if places == 0 {
        all
    } else {
        all.take(all.len() - places) + seq!['.'] + all.skip(all.len() - places)
    }
}

/// The constants of a curve's standard formula, each as digits and the number of places after
/// the point: for IEC curves `k` and `alpha` of t = k·TMS / ((I/Is)^alpha − 1); for IEEE
/// curves `A`, `B` and `p` of t = TD·(A / ((I/Is)^p − 1) + B).
pub open spec fn curve_constants(id: CurveType) -> Seq<(nat, nat)> {
    match id {
        CurveType::IecStandardInverse => seq![(14, 2), (2, 2)],
        CurveType::IecVeryInverse => seq![(135, 1), (10, 1)],
        CurveType::IecExtremelyInverse => seq![(800, 1), (20, 1)],
        CurveType::IecLongTimeInverse => seq![(1200, 1), (10, 1)],
        CurveType::IecNormalInverse => seq![(14, 2), (2, 2)],
        CurveType::IeeeModeratelyInverse => seq![(515, 4), (114, 3), (2, 2)],
        CurveType::IeeeVeryInverse => seq![(1961, 2), (491, 3), (20, 1)],
        CurveType::IeeeExtremelyInverse => seq![(282, 1), (1217, 4), (20, 1)],
        CurveType::IeeeShortTimeInverse => seq![(16758, 5), (11858, 5), (2, 2)],
        CurveType::IeeeLongTimeInverse => seq![(262, 5), (262, 5), (2, 2)],
        CurveType::IeeeUltraInverse => seq![(89341, 4), (17966, 5), (20, 1)],
    }
}

/// The written form of constant `i` of a curve.
pub open spec fn constant_text(id: CurveType, i: int) -> Seq<char> {
    decimal_text(curve_constants(id)[i].0, curve_constants(id)[i].1)
}

/// The IEC formula with constants `k` and `alpha` written in.
pub open spec fn iec_formula(k: Seq<char>, alpha: Seq<char>) -> Seq<char> {
    "t = ("@ + k + " × TMS) / ((I/Is)^"@ + alpha + " - 1)"@
}

/// The IEEE formula with constants `a`, `b` and `p` written in.
pub open spec fn ieee_formula(a: Seq<char>, b: Seq<char>, p: Seq<char>) -> Seq<char> {
    "t = TD × [ "@ + a + " / ((I/Is)^"@ + p + " - 1) + "@ + b + " ]"@
}

/// Each catalogue formula is its standard's formula with the curve's own constants written in:
/// `k` and `alpha` for IEC curves (IEC VI: k = 13.5, alpha = 1.0), `A`, `B` and `p` for IEEE
/// curves.
#[verifier::rlimit(40)]
pub proof fn formulas_hold_curve_constants(id: CurveType)
    ensures
        standard_of(id) == CurveStandard::IEC ==> curve_constants(id).len() == 2 && formula_of(id)
            == iec_formula(constant_text(id, 0), constant_text(id, 1)),
        standard_of(id) == CurveStandard::IEEE ==> curve_constants(id).len() == 3 && formula_of(id)
            == ieee_formula(constant_text(id, 0), constant_text(id, 1), constant_text(id, 2)),
{
    match id {
        CurveType::IecStandardInverse => {
            assert(constant_text(id, 0) =~= seq!['0', '.', '1', '4']) by {
                reveal_with_fuel(digits, 7);
                assert(digits(14, 3) =~= seq!['0', '1', '4']);
            }
            assert(constant_text(id, 1) =~= seq!['0', '.', '0', '2']) by {
                reveal_with_fuel(digits, 7);
                assert(digits(2, 3) =~= seq!['0', '0', '2']);
            }
            assert(formula_of(id) =~= iec_formula(constant_text(id, 0), constant_text(id, 1))) by {
                reveal_strlit("t = (");
                reveal_strlit(" × TMS) / ((I/Is)^");
                reveal_strlit(" - 1)");
                reveal_strlit("t = (0.14 × TMS) / ((I/Is)^0.02 - 1)");
            }
        },
        CurveType::IecVeryInverse => {
            assert(constant_text(id, 0) =~= seq!['1', '3', '.', '5']) by {
                reveal_with_fuel(digits, 7);
                assert(digits(135, 2) =~= seq!['1', '3', '5']);
            }
            assert(constant_text(id, 1) =~= seq!['1', '.', '0']) by {
                reveal_with_fuel(digits, 7);
                assert(digits(10, 2) =~= seq!['1', '0']);
            }
            assert(formula_of(id) =~= iec_formula(constant_text(id, 0), constant_text(id, 1))) by {
                reveal_strlit("t = (");
                reveal_strlit(" × TMS) / ((I/Is)^");
                reveal_strlit(" - 1)");
                reveal_strlit("t = (13.5 × TMS) / ((I/Is)^1.0 - 1)");
            }
        },
        CurveType::IecExtremelyInverse => {
            assert(constant_text(id, 0) =~= seq!['8', '0', '.', '0']) by {
                reveal_with_fuel(digits, 7);
                assert(digits(800, 2) =~= seq!['8', '0', '0']);
            }
            assert(constant_text(id, 1) =~= seq!['2', '.', '0']) by {
                reveal_with_fuel(digits, 7);
                assert(digits(20, 2) =~= seq!['2', '0']);
            }
            assert(formula_of(id) =~= iec_formula(constant_text(id, 0), constant_text(id, 1))) by {
                reveal_strlit("t = (");
                reveal_strlit(" × TMS) / ((I/Is)^");
                reveal_strlit(" - 1)");
                reveal_strlit("t = (80.0 × TMS) / ((I/Is)^2.0 - 1)");
            }
        },
        CurveType::IecLongTimeInverse => {
            assert(constant_text(id, 0) =~= seq!['1', '2', '0', '.', '0']) by {
                reveal_with_fuel(digits, 7);
                assert(digits(1200, 2) =~= seq!['1', '2', '0', '0']);
            }
            assert(constant_text(id, 1) =~= seq!['1', '.', '0']) by {
                reveal_with_fuel(digits, 7);
                assert(digits(10, 2) =~= seq!['1', '0']);
            }
            assert(formula_of(id) =~= iec_formula(constant_text(id, 0), constant_text(id, 1))) by {
                reveal_strlit("t = (");
                reveal_strlit(" × TMS) / ((I/Is)^");
                reveal_strlit(" - 1)");
                reveal_strlit("t = (120.0 × TMS) / ((I/Is)^1.0 - 1)");
            }
        },
        CurveType::IecNormalInverse => {
            assert(constant_text(id, 0) =~= seq!['0', '.', '1', '4']) by {
                reveal_with_fuel(digits, 7);
                assert(digits(14, 3) =~= seq!['0', '1', '4']);
            }
            assert(constant_text(id, 1) =~= seq!['0', '.', '0', '2']) by {
                reveal_with_fuel(digits, 7);
                assert(digits(2, 3) =~= seq!['0', '0', '2']);
            }
            assert(formula_of(id) =~= iec_formula(constant_text(id, 0), constant_text(id, 1))) by {
                reveal_strlit("t = (");
                reveal_strlit(" × TMS) / ((I/Is)^");
                reveal_strlit(" - 1)");
                reveal_strlit("t = (0.14 × TMS) / ((I/Is)^0.02 - 1)");
            }
        },
        CurveType::IeeeModeratelyInverse => {
            assert(constant_text(id, 0) =~= seq!['0', '.', '0', '5', '1', '5']) by {
                reveal_with_fuel(digits, 7);
                assert(digits(515, 5) =~= seq!['0', '0', '5', '1', '5']);
            }
            assert(constant_text(id, 1) =~= seq!['0', '.', '1', '1', '4']) by {
                reveal_with_fuel(digits, 7);
                assert(digits(114, 4) =~= seq!['0', '1', '1', '4']);
            }
            assert(constant_text(id, 2) =~= seq!['0', '.', '0', '2']) by {
                reveal_with_fuel(digits, 7);
                assert(digits(2, 3) =~= seq!['0', '0', '2']);
            }
            assert(formula_of(id) =~= ieee_formula(constant_text(id, 0), constant_text(id, 1), constant_text(id, 2))) by {
                reveal_strlit("t = TD × [ ");
                reveal_strlit(" / ((I/Is)^");
                reveal_strlit(" - 1) + ");
                reveal_strlit(" ]");
                reveal_strlit("t = TD × [ 0.0515 / ((I/Is)^0.02 - 1) + 0.114 ]");
            }
        },
        CurveType::IeeeVeryInverse => {
            assert(constant_text(id, 0) =~= seq!['1', '9', '.', '6', '1']) by {
                reveal_with_fuel(digits, 7);
                assert(digits(1961, 3) =~= seq!['1', '9', '6', '1']);
            }
            assert(constant_text(id, 1) =~= seq!['0', '.', '4', '9', '1']) by {
                reveal_with_fuel(digits, 7);
                assert(digits(491, 4) =~= seq!['0', '4', '9', '1']);
            }
            assert(constant_text(id, 2) =~= seq!['2', '.', '0']) by {
                reveal_with_fuel(digits, 7);
                assert(digits(20, 2) =~= seq!['2', '0']);
            }
            assert(formula_of(id) =~= ieee_formula(constant_text(id, 0), constant_text(id, 1), constant_text(id, 2))) by {
                reveal_strlit("t = TD × [ ");
                reveal_strlit(" / ((I/Is)^");
                reveal_strlit(" - 1) + ");
                reveal_strlit(" ]");
                reveal_strlit("t = TD × [ 19.61 / ((I/Is)^2.0 - 1) + 0.491 ]");
            }
        },
        CurveType::IeeeExtremelyInverse => {
            assert(constant_text(id, 0) =~= seq!['2', '8', '.', '2']) by {
                reveal_with_fuel(digits, 7);
                assert(digits(282, 2) =~= seq!['2', '8', '2']);
            }
            assert(constant_text(id, 1) =~= seq!['0', '.', '1', '2', '1', '7']) by {
                reveal_with_fuel(digits, 7);
                assert(digits(1217, 5) =~= seq!['0', '1', '2', '1', '7']);
            }
            assert(constant_text(id, 2) =~= seq!['2', '.', '0']) by {
                reveal_with_fuel(digits, 7);
                assert(digits(20, 2) =~= seq!['2', '0']);
            }
            assert(formula_of(id) =~= ieee_formula(constant_text(id, 0), constant_text(id, 1), constant_text(id, 2))) by {
                reveal_strlit("t = TD × [ ");
                reveal_strlit(" / ((I/Is)^");
                reveal_strlit(" - 1) + ");
                reveal_strlit(" ]");
                reveal_strlit("t = TD × [ 28.2 / ((I/Is)^2.0 - 1) + 0.1217 ]");
            }
        },
        CurveType::IeeeShortTimeInverse => {
            assert(constant_text(id, 0) =~= seq!['0', '.', '1', '6', '7', '5', '8']) by {
                reveal_with_fuel(digits, 7);
                assert(digits(16758, 6) =~= seq!['0', '1', '6', '7', '5', '8']);
            }
            assert(constant_text(id, 1) =~= seq!['0', '.', '1', '1', '8', '5', '8']) by {
                reveal_with_fuel(digits, 7);
                assert(digits(11858, 6) =~= seq!['0', '1', '1', '8', '5', '8']);
            }
            assert(constant_text(id, 2) =~= seq!['0', '.', '0', '2']) by {
                reveal_with_fuel(digits, 7);
                assert(digits(2, 3) =~= seq!['0', '0', '2']);
            }
            assert(formula_of(id) =~= ieee_formula(constant_text(id, 0), constant_text(id, 1), constant_text(id, 2))) by {
                reveal_strlit("t = TD × [ ");
                reveal_strlit(" / ((I/Is)^");
                reveal_strlit(" - 1) + ");
                reveal_strlit(" ]");
                reveal_strlit("t = TD × [ 0.16758 / ((I/Is)^0.02 - 1) + 0.11858 ]");
            }
        },
        CurveType::IeeeLongTimeInverse => {
            assert(constant_text(id, 0) =~= seq!['0', '.', '0', '0', '2', '6', '2']) by {
                reveal_with_fuel(digits, 7);
                assert(digits(262, 6) =~= seq!['0', '0', '0', '2', '6', '2']);
            }
            assert(constant_text(id, 1) =~= seq!['0', '.', '0', '0', '2', '6', '2']) by {
                reveal_with_fuel(digits, 7);
                assert(digits(262, 6) =~= seq!['0', '0', '0', '2', '6', '2']);
            }
            assert(constant_text(id, 2) =~= seq!['0', '.', '0', '2']) by {
                reveal_with_fuel(digits, 7);
                assert(digits(2, 3) =~= seq!['0', '0', '2']);
            }
            assert(formula_of(id) =~= ieee_formula(constant_text(id, 0), constant_text(id, 1), constant_text(id, 2))) by {
                reveal_strlit("t = TD × [ ");
                reveal_strlit(" / ((I/Is)^");
                reveal_strlit(" - 1) + ");
                reveal_strlit(" ]");
                reveal_strlit("t = TD × [ 0.00262 / ((I/Is)^0.02 - 1) + 0.00262 ]");
            }
        },
        CurveType::IeeeUltraInverse => {
            assert(constant_text(id, 0) =~= seq!['8', '.', '9', '3', '4', '1']) by {
                reveal_with_fuel(digits, 7);
                assert(digits(89341, 5) =~= seq!['8', '9', '3', '4', '1']);
            }
            assert(constant_text(id, 1) =~= seq!['0', '.', '1', '7', '9', '6', '6']) by {
                reveal_with_fuel(digits, 7);
                assert(digits(17966, 6) =~= seq!['0', '1', '7', '9', '6', '6']);
            }
            assert(constant_text(id, 2) =~= seq!['2', '.', '0']) by {
                reveal_with_fuel(digits, 7);
                assert(digits(20, 2) =~= seq!['2', '0']);
            }
            assert(formula_of(id) =~= ieee_formula(constant_text(id, 0), constant_text(id, 1), constant_text(id, 2))) by {
                reveal_strlit("t = TD × [ ");
                reveal_strlit(" / ((I/Is)^");
                reveal_strlit(" - 1) + ");
                reveal_strlit(" ]");
                reveal_strlit("t = TD × [ 8.9341 / ((I/Is)^2.0 - 1) + 0.17966 ]");
            }
        },
    }
}

} // verus!
