use forth::{lex, Arith, Forth, ForthError, Lexeme, Output, Pending, Step};

/// Reads each lexeme of a line as a double where it spells one.
fn lexemes(line: &str) -> Vec<Lexeme> {
    lex(line)
        .into_iter()
        .map(|text| {
            let number = text.parse::<f64>().ok().map(f64::to_bits);
            Lexeme { text, number }
        })
        .collect()
}

/// Plays the host: does the arithmetic the session asks for, drops output.
fn finish(f: &mut Forth, mut step: Step) -> Result<Option<f64>, ForthError> {
    loop {
        step = match step {
            Step::Done(r) => return r.map(|v| v.map(f64::from_bits)),
            Step::Compute(op, a, b) => {
                let (a, b) = (f64::from_bits(a), f64::from_bits(b));
                let v = match op {
                    Arith::Add => a + b,
                    Arith::Subtract => a - b,
                    Arith::Multiply => a * b,
                    Arith::Divide => a / b,
                    Arith::Remainder => a % b,
                };
                f.supply(v.to_bits())
            }
            Step::Write(_) => f.proceed(),
        }
    }
}

fn eval(f: &mut Forth, line: &str) -> Result<Option<f64>, ForthError> {
    let step = f.eval(&lexemes(line));
    finish(f, step)
}

fn stack(f: &Forth) -> Vec<f64> {
    f.stack().iter().map(|b| f64::from_bits(*b)).collect()
}

fn bits(v: f64) -> u64 {
    v.to_bits()
}

#[test]
fn arithmetic_yields_its_value() {
    let mut f = Forth::new();
    assert_eq!(eval(&mut f, "2.5 4 +"), Ok(Some(6.5)));
    assert_eq!(eval(&mut f, "7 10 -"), Ok(Some(-3.0)));
    assert_eq!(eval(&mut f, "3 4 *"), Ok(Some(12.0)));
    assert_eq!(eval(&mut f, "9 2 /"), Ok(Some(4.5)));
    assert_eq!(stack(&f), vec![6.5, -3.0, 12.0, 4.5]);
}

#[test]
fn division_by_literal_zero_fails() {
    let mut f = Forth::new();
    assert_eq!(eval(&mut f, "3 0 /"), Err(ForthError::DivisionByZero));
    assert_eq!(stack(&f), vec![3.0, 0.0]);
    let mut g = Forth::new();
    assert_eq!(eval(&mut g, "3 -0 /"), Err(ForthError::DivisionByZero));
}

#[test]
fn case_does_not_matter() {
    let mut upper = Forth::new();
    let mut title = Forth::new();
    let mut lower = Forth::new();
    assert_eq!(eval(&mut upper, "1 DUP"), eval(&mut lower, "1 dup"));
    assert_eq!(eval(&mut title, "1 Dup"), Ok(None));
    assert_eq!(stack(&upper), stack(&lower));
    assert_eq!(stack(&title), stack(&lower));
}

#[test]
fn snapshot_keeps_the_old_binding() {
    let mut f = Forth::new();
    assert_eq!(eval(&mut f, ": foo 5 ;"), Ok(None));
    assert_eq!(eval(&mut f, ": bar foo ;"), Ok(None));
    assert_eq!(eval(&mut f, ": foo 6 ;"), Ok(None));
    assert_eq!(eval(&mut f, "bar foo"), Ok(None));
    assert_eq!(stack(&f), vec![5.0, 6.0]);
}

#[test]
fn dup_then_drop_changes_nothing() {
    let mut f = Forth::new();
    let mut g = Forth::new();
    assert_eq!(eval(&mut f, "1 dup drop"), Ok(None));
    assert_eq!(eval(&mut g, "1"), Ok(Some(1.0)));
    assert_eq!(stack(&f), stack(&g));
}

#[test]
fn dup_on_empty_stack_leaves_it_empty() {
    let mut f = Forth::new();
    assert_eq!(eval(&mut f, "dup"), Err(ForthError::StackUnderflow));
    assert_eq!(stack(&f), Vec::<f64>::new());
}

#[test]
fn addition_scenario() {
    let mut f = Forth::new();
    assert_eq!(eval(&mut f, "5 6 +"), Ok(Some(11.0)));
    assert_eq!(stack(&f), vec![11.0]);
}

#[test]
fn blank_lines_do_nothing() {
    let mut f = Forth::new();
    assert_eq!(eval(&mut f, "1"), Ok(Some(1.0)));
    assert_eq!(eval(&mut f, ""), Ok(None));
    assert_eq!(eval(&mut f, "   \n"), Ok(None));
    assert_eq!(stack(&f), vec![1.0]);
}

#[test]
fn lexer_trims_and_folds() {
    assert_eq!(lex("  Dup SWAP\n"), vec!["dup".to_string(), "swap".to_string()]);
    assert_eq!(lex("   "), Vec::<String>::new());
}

#[test]
fn double_space_makes_an_empty_lexeme() {
    assert_eq!(lex("1  2"), vec!["1".to_string(), "".to_string(), "2".to_string()]);
    let mut f = Forth::new();
    assert_eq!(eval(&mut f, "1  2"), Err(ForthError::UnknownWord("".to_string())));
    assert_eq!(stack(&f), vec![1.0]);
}

#[test]
fn mod_and_slash_mod() {
    let mut f = Forth::new();
    assert_eq!(eval(&mut f, "7 2 mod"), Ok(Some(1.0)));
    assert_eq!(eval(&mut f, "drop 7 2 /mod"), Ok(Some(3.5)));
    assert_eq!(stack(&f), vec![1.0, 3.5]);
}

#[test]
fn mod_by_zero_fails_atomically() {
    let mut f = Forth::new();
    assert_eq!(eval(&mut f, "1 0 mod"), Err(ForthError::DivisionByZero));
    assert_eq!(stack(&f), vec![1.0, 0.0]);
    assert_eq!(eval(&mut f, "/mod"), Err(ForthError::DivisionByZero));
    assert_eq!(stack(&f), vec![1.0, 0.0]);
}

#[test]
fn bye_and_quit_end_the_session() {
    let mut f = Forth::new();
    assert_eq!(eval(&mut f, "1 bye 2"), Err(ForthError::UserQuit));
    assert_eq!(stack(&f), vec![1.0]);
    assert_eq!(eval(&mut f, "QUIT"), Err(ForthError::UserQuit));
}

#[test]
fn underflow_leaves_the_stack_whole() {
    let mut f = Forth::new();
    assert_eq!(eval(&mut f, "1 +"), Err(ForthError::StackUnderflow));
    assert_eq!(stack(&f), vec![1.0]);
    assert_eq!(eval(&mut f, "2 3 2swap"), Err(ForthError::StackUnderflow));
    assert_eq!(stack(&f), vec![1.0, 2.0, 3.0]);
}

#[test]
fn earlier_tokens_stay_done_after_a_failure() {
    let mut f = Forth::new();
    assert_eq!(eval(&mut f, "1 2 + foo"), Err(ForthError::UnknownWord("foo".to_string())));
    assert_eq!(stack(&f), vec![3.0]);
}

#[test]
fn stray_semicolon_is_invalid() {
    let mut f = Forth::new();
    assert!(matches!(eval(&mut f, ";"), Err(ForthError::InvalidWord(_))));
    assert!(matches!(eval(&mut f, ": ;"), Err(ForthError::InvalidWord(_))));
}

#[test]
fn unknown_word_in_a_definition() {
    let mut f = Forth::new();
    assert_eq!(eval(&mut f, ": foo bar ;"), Err(ForthError::UnknownWord("bar".to_string())));
    assert_eq!(eval(&mut f, "foo"), Err(ForthError::UnknownWord("foo".to_string())));
}

#[test]
fn unterminated_keeps_closed_definitions() {
    let mut f = Forth::new();
    assert_eq!(eval(&mut f, ": a 1 ; : b 2"), Err(ForthError::Unterminated));
    assert_eq!(eval(&mut f, "a"), Ok(None));
    assert_eq!(stack(&f), vec![1.0]);
    assert_eq!(eval(&mut f, "b"), Err(ForthError::UnknownWord("b".to_string())));
}

#[test]
fn definitions_install_before_the_line_runs() {
    let mut f = Forth::new();
    assert_eq!(eval(&mut f, ": foo 5 ; foo : foo 6 ; foo"), Ok(None));
    assert_eq!(stack(&f), vec![6.0, 6.0]);
}

#[test]
fn colon_inside_a_definition_is_ignored() {
    let mut f = Forth::new();
    assert_eq!(eval(&mut f, ": foo : 1 ;"), Ok(None));
    assert_eq!(eval(&mut f, "foo"), Ok(None));
    assert_eq!(stack(&f), vec![1.0]);
}

#[test]
fn a_call_produces_no_value() {
    let mut f = Forth::new();
    assert_eq!(eval(&mut f, ": nop ; 5 nop"), Ok(None));
    assert_eq!(stack(&f), vec![5.0]);
}

#[test]
fn output_is_asked_of_the_host() {
    let mut f = Forth::new();
    assert_eq!(f.eval(&lexemes("65 emit")), Step::Write(Output::Char(bits(65.0))));
    assert_eq!(f.pending(), Pending::Write);
    assert_eq!(f.proceed(), Step::Done(Ok(None)));
    assert_eq!(f.eval(&lexemes("4 .")), Step::Write(Output::Number(bits(4.0))));
    assert_eq!(f.proceed(), Step::Done(Ok(None)));
    assert_eq!(f.eval(&lexemes("3 spaces")), Step::Write(Output::Spaces(bits(3.0))));
    assert_eq!(f.proceed(), Step::Done(Ok(None)));
    assert_eq!(f.eval(&lexemes("cr")), Step::Write(Output::Newline));
    assert_eq!(f.proceed(), Step::Done(Ok(None)));
    assert_eq!(f.eval(&lexemes("space")), Step::Write(Output::Space));
    assert_eq!(f.proceed(), Step::Done(Ok(None)));
    assert_eq!(stack(&f), Vec::<f64>::new());
}

#[test]
fn show_keeps_the_stack() {
    let mut f = Forth::new();
    assert_eq!(f.eval(&lexemes("1 2 .s")), Step::Write(Output::Stack));
    assert_eq!(stack(&f), vec![1.0, 2.0]);
    assert_eq!(f.proceed(), Step::Done(Ok(None)));
    assert_eq!(stack(&f), vec![1.0, 2.0]);
}

#[test]
fn arithmetic_is_asked_of_the_host() {
    let mut f = Forth::new();
    assert_eq!(f.eval(&lexemes("5 6 +")), Step::Compute(Arith::Add, bits(5.0), bits(6.0)));
    assert_eq!(f.pending(), Pending::Value(None));
    assert_eq!(f.supply(bits(11.0)), Step::Done(Ok(Some(bits(11.0)))));
    assert_eq!(f.eval(&lexemes("7 2 /mod")), Step::Compute(Arith::Remainder, bits(7.0), bits(2.0)));
    assert_eq!(f.supply(bits(1.0)), Step::Compute(Arith::Divide, bits(7.0), bits(2.0)));
    assert_eq!(f.supply(bits(3.5)), Step::Done(Ok(Some(bits(3.5)))));
    assert_eq!(stack(&f), vec![11.0, 1.0, 3.5]);
}

#[test]
fn prompt_is_an_angle() {
    let f = Forth::new();
    assert_eq!(f.prompt(), "> ".to_string());
}
