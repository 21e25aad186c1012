//! Script validation: the three outcomes and their exact messages.

use glicol_verb::validate::validate_glicol_code;

#[test]
fn empty_code_is_rejected() {
    assert_eq!(
        validate_glicol_code(""),
        Err("Code cannot be empty".to_string())
    );
    assert_eq!(
        validate_glicol_code("   \n\t  "),
        Err("Code cannot be empty".to_string())
    );
}

#[test]
fn missing_output_is_rejected() {
    assert_eq!(
        validate_glicol_code("~fx: sig 1.0"),
        Err("Missing 'out:' - code must define an output node (not ~out:)".to_string())
    );
    // A reference-style output does not count
    assert_eq!(
        validate_glicol_code("~out: ~input >> mul 0.5"),
        Err("Missing 'out:' - code must define an output node (not ~out:)".to_string())
    );
}

#[test]
fn output_without_live_input_gets_a_note() {
    assert_eq!(
        validate_glicol_code("out: sin 440"),
        Ok(Some("Note: Code doesn't use ~input (live audio)".to_string()))
    );
}

#[test]
fn valid_script_passes_silently() {
    assert_eq!(validate_glicol_code("out: ~input >> mul 0.5"), Ok(None));
    // Whitespace around the output declaration is tolerated
    assert_eq!(
        validate_glicol_code("\n   out : ~input >> plate 0.4  \n"),
        Ok(None)
    );
}

#[test]
fn output_on_a_later_line_counts() {
    assert_eq!(
        validate_glicol_code("~wet: ~input >> plate 0.3\nout: ~wet >> mul 0.8"),
        Ok(None)
    );
}
