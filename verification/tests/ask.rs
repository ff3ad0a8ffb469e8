use git_leave::ask::{ask, interpret_answer, AskDefault};

fn lines(list: &[&str]) -> Vec<String> {
    list.iter().map(|line| line.to_string()).collect()
}

#[test]
fn letters_answer_whatever_the_default() {
    for default in [AskDefault::AssumeYes, AskDefault::AssumeNo, AskDefault::RequireExplicit] {
        assert_eq!(interpret_answer("Y\n", default), Some(true));
        assert_eq!(interpret_answer("y\n", default), Some(true));
        assert_eq!(interpret_answer("N\n", default), Some(false));
        assert_eq!(interpret_answer("n\n", default), Some(false));
    }
}

#[test]
fn empty_line_stands_for_the_default() {
    assert_eq!(interpret_answer("\n", AskDefault::AssumeYes), Some(true));
    assert_eq!(interpret_answer("\n", AskDefault::AssumeNo), Some(false));
    assert_eq!(interpret_answer("\n", AskDefault::RequireExplicit), None);
}

#[test]
fn other_lines_answer_nothing() {
    for line in ["yes\n", "no\n", "y", "", " y\n", "y\r\n", "maybe\n", "\n\n"] {
        assert_eq!(interpret_answer(line, AskDefault::AssumeYes), None);
        assert_eq!(interpret_answer(line, AskDefault::AssumeNo), None);
    }
}

#[test]
fn question_is_put_again_until_a_line_answers() {
    let script = lines(&["what\n", "\n", "n\n", "y\n"]);
    assert_eq!(ask(&script, AskDefault::RequireExplicit), Some(false));
    assert_eq!(ask(&script, AskDefault::AssumeYes), Some(true));
    assert_eq!(ask(&script, AskDefault::AssumeNo), Some(false));
}

#[test]
fn lines_that_run_out_give_no_answer() {
    assert_eq!(ask(&lines(&[]), AskDefault::AssumeYes), None);
    assert_eq!(ask(&lines(&["\n", "\n", "x\n"]), AskDefault::RequireExplicit), None);
}

#[test]
fn hints_show_the_default_in_upper_case() {
    assert_eq!(AskDefault::AssumeYes.hint(), "[Y/n]");
    assert_eq!(AskDefault::AssumeNo.hint(), "[y/N]");
    assert_eq!(AskDefault::RequireExplicit.hint(), "[y/n]");
}
