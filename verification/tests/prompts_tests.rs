use cargo_e::prompts::{answer_char, yesno_decision, yesno_prompt, YesNo};

#[test]
fn yesno_prompt_marks_default() {
    assert_eq!(yesno_prompt("Install?", Some(true)), "Install? (Y/n)? ");
    assert_eq!(yesno_prompt("Install?", Some(false)), "Install? (y/N)? ");
    assert_eq!(yesno_prompt("Install?", None), "Install? (y/n)? ");
}

#[test]
fn answer_char_takes_first_lowercased() {
    assert_eq!(answer_char("  Yes\n"), Some('y'));
    assert_eq!(answer_char("N"), Some('n'));
    assert_eq!(answer_char(" \n"), None);
    assert_eq!(answer_char("Ärger"), Some('Ä'));
}

#[test]
fn yesno_decision_reads_reply() {
    assert_eq!(yesno_decision(Some('y')), YesNo::Answer(Some(true)));
    assert_eq!(yesno_decision(Some('n')), YesNo::Answer(Some(false)));
    assert_eq!(yesno_decision(Some('x')), YesNo::Invalid);
    assert_eq!(yesno_decision(None), YesNo::Answer(None));
}
