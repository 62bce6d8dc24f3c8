use relay_curve_estimator::text::{clean_numeric_text, clipboard_cells, is_whitespace};

fn clean(s: &str) -> Option<(String, bool)> {
    clean_numeric_text(s).map(|t| (t.text, t.millis))
}

#[test]
fn cleaning_pasted_values() {
    assert_eq!(clean("2.5"), Some(("2.5".to_string(), false)));
    assert_eq!(clean("2,5"), Some(("2.5".to_string(), false)));
    assert_eq!(clean("10.0 A"), Some(("10.0".to_string(), false)));
    assert_eq!(clean("26.6667 s"), Some(("26.6667".to_string(), false)));
    assert_eq!(clean("500 ms"), Some(("500".to_string(), true)));
    assert_eq!(clean("Current (A)"), Some(("".to_string(), false)));
    assert_eq!(clean("  -1e+3 "), Some(("-1+3".to_string(), false)));
    assert_eq!(clean("   "), None);
    assert_eq!(clean(""), None);
    assert_eq!(clean("\u{3000}7\u{a0}"), Some(("7".to_string(), false)));
}

#[test]
fn cleaning_twice_changes_nothing() {
    for s in ["12,5 ms", "x-3.2+", "Time 0.75 s"] {
        let once = clean_numeric_text(s).unwrap().text;
        let twice = clean_numeric_text(&once).unwrap();
        assert_eq!(twice.text, once);
        assert!(!twice.millis);
    }
}

#[test]
fn whitespace_characters() {
    for c in ['\t', '\n', '\r', ' ', '\u{85}', '\u{a0}', '\u{2003}', '\u{3000}'] {
        assert!(is_whitespace(c));
        assert_eq!(is_whitespace(c), c.is_whitespace());
    }
    for c in ['a', '0', ',', '\u{200b}'] {
        assert!(!is_whitespace(c));
        assert_eq!(is_whitespace(c), c.is_whitespace());
    }
}

fn cells(s: &str) -> Vec<Vec<String>> {
    clipboard_cells(s)
}

#[test]
fn clipboard_rows_and_separators() {
    assert_eq!(cells("2\t26.6667\r\n3\t10\r\n"), vec![vec!["2", "26.6667"], vec!["3", "10"]]);
    assert_eq!(cells("1,5;2\n\n  \n4;5"), vec![vec!["1", "5;2"], vec!["4", "5"]]);
    assert_eq!(cells("  2.0   3.5  \n"), vec![vec!["2.0", "3.5"]]);
    assert_eq!(cells("a\t\t b \t"), vec![vec!["a", " b"]]);
    assert_eq!(cells(","), vec![Vec::<String>::new()]);
    assert_eq!(cells(""), Vec::<Vec<String>>::new());
}

#[test]
fn clipboard_splitting_matches_std() {
    for text in ["2\t3\n4\t5", "1,2 , 3\r\n;;\n x y\tz ", "\u{a0}7 8\u{3000}9\n"] {
        let expected: Vec<Vec<String>> = text
            .lines()
            .map(|l| l.trim())
            .filter(|l| !l.is_empty())
            .map(|line| {
                let parts: Vec<&str> = if line.contains('\t') {
                    line.split('\t').filter(|s| !s.trim().is_empty()).collect()
                } else if line.contains(',') {
                    line.split(',').filter(|s| !s.trim().is_empty()).collect()
                } else if line.contains(';') {
                    line.split(';').filter(|s| !s.trim().is_empty()).collect()
                } else {
                    line.split_whitespace().collect()
                };
                parts.into_iter().map(|p| p.to_string()).collect()
            })
            .collect();
        assert_eq!(cells(text), expected);
    }
}
