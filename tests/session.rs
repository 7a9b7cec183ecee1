use forth::{lex, Arith, Forth, ForthError, Lexeme, Step, Token};

/// Reads each lexeme of a line as a double where it spells one.
fn lexemes(line: &str) -> Vec<Lexeme> {
    lex(line)
        .into_iter()
        .map(|text| {
            let number = text.parse::<f64>().ok().map(f64::to_bits);
            Lexeme { text, number }
        })
        .collect()
}

/// Plays the host: does the arithmetic the session asks for, drops output.
fn finish(f: &mut Forth, mut step: Step) -> Result<Option<f64>, ForthError> {
    loop {
        step = match step {
            Step::Done(r) => return r.map(|v| v.map(f64::from_bits)),
            Step::Compute(op, a, b) => {
                let (a, b) = (f64::from_bits(a), f64::from_bits(b));
                let v = match op {
                    Arith::Add => a + b,
                    Arith::Subtract => a - b,
                    Arith::Multiply => a * b,
                    Arith::Divide => a / b,
                    Arith::Remainder => a % b,
                };
                f.supply(v.to_bits())
            }
            Step::Write(_) => f.proceed(),
        }
    }
}

fn eval(f: &mut Forth, line: &str) -> Result<Option<f64>, ForthError> {
    let step = f.eval(&lexemes(line));
    finish(f, step)
}

fn stack(f: &Forth) -> Vec<f64> {
    f.stack().iter().map(|b| f64::from_bits(*b)).collect()
}

#[test]
fn cannot_parse_letter() {
    let mut forth = Forth::new();
    assert_eq!(
        eval(&mut forth, "1 a 3 4 5"),
        Err(ForthError::UnknownWord("a".to_string()))
    );
}

#[test]
fn parses_numbers() {
    let mut forth = Forth::new();
    assert_eq!(eval(&mut forth, "1 2.3 0.3 4 5"), Ok(Some(5.0)));
}

#[test]
fn parses_math_expressions() {
    let mut forth = Forth::new();
    let lexemes = lexemes("1 2.3 + 0.3 * 4 / 5 -");
    let result = forth.tokenize(&lexemes);
    assert_eq!(
        Ok(vec![
            Token::Number(1.0f64.to_bits()),
            Token::Number(2.3f64.to_bits()),
            Token::Word("+".to_string()),
            Token::Number(0.3f64.to_bits()),
            Token::Word("*".to_string()),
            Token::Number(4.0f64.to_bits()),
            Token::Word("/".to_string()),
            Token::Number(5.0f64.to_bits()),
            Token::Word("-".to_string()),
        ]),
        result
    );
}

#[test]
fn simple_addition_works() {
    let mut forth = Forth::new();
    let lexemes = lexemes("5 6 +");
    let tokens = forth.tokenize(&lexemes).unwrap();
    let step = forth.run(&tokens);
    let result = finish(&mut forth, step).unwrap();
    assert_eq!(Some(11.0), result);
}

#[test]
fn dup() {
    let mut f = Forth::new();
    assert_eq!(eval(&mut f, "1 dup"), Ok(None));
    assert_eq!(stack(&f), vec![1.0, 1.0],);
}

#[test]
fn dup_top_value_only() {
    let mut f = Forth::new();
    assert_eq!(eval(&mut f, "1 2 dup"), Ok(None));
    assert_eq!(stack(&f), vec![1.0, 2.0, 2.0]);
}

#[test]
fn dup_case_insensitive() {
    let mut f = Forth::new();
    assert_eq!(eval(&mut f, "1 DUP Dup dup"), Ok(None));
    assert_eq!(stack(&f), vec![1.0, 1.0, 1.0, 1.0]);
}

#[test]
fn dup_error() {
    let mut f = Forth::new();
    assert_eq!(Err(ForthError::StackUnderflow), eval(&mut f, "dup"));
}

#[test]
fn two_dup() {
    let mut f = Forth::new();
    assert_eq!(eval(&mut f, "1 2 2dup"), Ok(None));
    assert_eq!(stack(&f), vec![1.0, 2.0, 1.0, 2.0]);
}

#[test]
fn two_dup_top_pair_only() {
    let mut f = Forth::new();
    assert_eq!(eval(&mut f, "1 2 3 2dup"), Ok(None));
    assert_eq!(stack(&f), vec![1.0, 2.0, 3.0, 2.0, 3.0]);
}

#[test]
fn two_dup_case_insensitive() {
    let mut f = Forth::new();
    assert_eq!(eval(&mut f, "1 2 2DUP 2Dup 2dup"), Ok(None));
    assert_eq!(stack(&f), vec![1.0, 2.0, 1.0, 2.0, 1.0, 2.0, 1.0, 2.0]);
}

#[test]
fn two_dup_error() {
    let mut f = Forth::new();
    assert_eq!(Err(ForthError::StackUnderflow), eval(&mut f, "2dup"));
    assert_eq!(Err(ForthError::StackUnderflow), eval(&mut f, "1 2dup"));
}

#[test]
fn rot() {
    let mut f = Forth::new();
    assert_eq!(eval(&mut f, "1 2 3 rot"), Ok(None));
    assert_eq!(stack(&f), vec![2.0, 3.0, 1.0]);
}

#[test]
fn rot_case_insensitive() {
    let mut f = Forth::new();
    assert_eq!(eval(&mut f, "1 2 3 ROT Rot rot"), Ok(None));
    assert_eq!(stack(&f), vec![1.0, 2.0, 3.0]);
}

#[test]
fn rot_error() {
    let mut f = Forth::new();
    assert_eq!(Err(ForthError::StackUnderflow), eval(&mut f, "rot"));
}

#[test]
fn drop() {
    let mut f = Forth::new();
    assert_eq!(eval(&mut f, "1 drop"), Ok(None));
    assert_eq!(Vec::<f64>::new(), stack(&f));
}

#[test]
fn drop_with_two() {
    let mut f = Forth::new();
    assert_eq!(eval(&mut f, "1 2 drop"), Ok(None));
    assert_eq!(stack(&f), vec![1.0]);
}

#[test]
fn drop_case_insensitive() {
    let mut f = Forth::new();
    assert_eq!(eval(&mut f, "1 2 3 4 DROP Drop drop"), Ok(None));
    assert_eq!(stack(&f), vec![1.0]);
}

#[test]
fn drop_error() {
    let mut f = Forth::new();
    assert_eq!(Err(ForthError::StackUnderflow), eval(&mut f, "drop"));
}

#[test]
fn swap() {
    let mut f = Forth::new();
    assert_eq!(eval(&mut f, "1 2 swap"), Ok(None));
    assert_eq!(stack(&f), vec![2.0, 1.0]);
}

#[test]
fn swap_with_three() {
    let mut f = Forth::new();
    assert_eq!(eval(&mut f, "1 2 3 swap"), Ok(None));
    assert_eq!(stack(&f), vec![1.0, 3.0, 2.0]);
}

#[test]
fn swap_case_insensitive() {
    let mut f = Forth::new();
    assert_eq!(eval(&mut f, "1 2 SWAP 3 Swap 4 swap"), Ok(None));
    assert_eq!(stack(&f), vec![2.0, 3.0, 4.0, 1.0]);
}

#[test]
fn swap_error() {
    let mut f = Forth::new();
    assert_eq!(Err(ForthError::StackUnderflow), eval(&mut f, "1 swap"));
    assert_eq!(Err(ForthError::StackUnderflow), eval(&mut f, "swap"));
}

#[test]
fn two_swap() {
    let mut f = Forth::new();
    assert_eq!(eval(&mut f, "1 2 3 4 2swap"), Ok(None));
    assert_eq!(stack(&f), vec![3.0, 4.0, 1.0, 2.0]);
}

#[test]
fn two_swap_case_insensitive() {
    let mut f = Forth::new();
    assert_eq!(eval(&mut f, "1 2 3 4 2SWAP 2Swap 2swap"), Ok(None));
    assert_eq!(stack(&f), vec![3.0, 4.0, 1.0, 2.0]);
}

#[test]
fn two_swap_error() {
    let mut f = Forth::new();
    assert_eq!(Err(ForthError::StackUnderflow), eval(&mut f, "1 2swap"));
    assert_eq!(Err(ForthError::StackUnderflow), eval(&mut f, "2swap"));
}

#[test]
fn over() {
    let mut f = Forth::new();
    assert_eq!(eval(&mut f, "1 2 over"), Ok(None));
    assert_eq!(stack(&f), vec![1.0, 2.0, 1.0]);
}

#[test]
fn over_with_three() {
    let mut f = Forth::new();
    assert_eq!(eval(&mut f, "1 2 3 over"), Ok(None));
    assert_eq!(stack(&f), vec![1.0, 2.0, 3.0, 2.0]);
}

#[test]
fn over_case_insensitive() {
    let mut f = Forth::new();
    assert_eq!(eval(&mut f, "1 2 OVER Over over"), Ok(None));
    assert_eq!(stack(&f), vec![1.0, 2.0, 1.0, 2.0, 1.0]);
}

#[test]
fn over_error() {
    let mut f = Forth::new();
    assert_eq!(Err(ForthError::StackUnderflow), eval(&mut f, "1 over"));
    assert_eq!(Err(ForthError::StackUnderflow), eval(&mut f, "over"));
}

#[test]
fn two_over() {
    let mut f = Forth::new();
    assert_eq!(eval(&mut f, "1 2 3 4 2over"), Ok(None));
    assert_eq!(stack(&f), vec![1.0, 2.0, 3.0, 4.0, 1.0, 2.0]);
}

#[test]
fn two_over_case_insensitive() {
    let mut f = Forth::new();
    assert_eq!(eval(&mut f, "1 2 3 4 2OVER 2Over 2over"), Ok(None));
    assert_eq!(
        stack(&f),
        vec![1.0, 2.0, 3.0, 4.0, 1.0, 2.0, 3.0, 4.0, 1.0, 2.0]
    );
}

#[test]
fn two_over_error() {
    // A failing operation leaves the stack whole, so each line gets a session
    // of its own.
    let mut f = Forth::new();
    assert_eq!(eval(&mut f, "1 2over"), Err(ForthError::StackUnderflow));
    let mut f = Forth::new();
    assert_eq!(eval(&mut f, "1 2 2over"), Err(ForthError::StackUnderflow));
    let mut f = Forth::new();
    assert_eq!(eval(&mut f, "1 2 3 2over"), Err(ForthError::StackUnderflow));
}

#[test]
fn can_consist_of_built_in_words() {
    let mut f = Forth::new();
    assert_eq!(eval(&mut f, ": dup-twice dup dup ;"), Ok(None));
    assert_eq!(eval(&mut f, "1 dup-twice"), Ok(None));
    assert_eq!(stack(&f), vec![1.0, 1.0, 1.0]);
}

#[test]
fn execute_in_the_right_order() {
    let mut f = Forth::new();
    assert_eq!(eval(&mut f, ": countup 1 2 3 ;"), Ok(None));
    assert_eq!(eval(&mut f, "countup"), Ok(None));
    assert_eq!(stack(&f), vec![1.0, 2.0, 3.0]);
}

#[test]
fn redefining_an_existing_word() {
    let mut f = Forth::new();
    assert_eq!(eval(&mut f, ": foo dup ;"), Ok(None));
    assert_eq!(eval(&mut f, ": foo dup dup ;"), Ok(None));
    assert_eq!(eval(&mut f, "1 foo"), Ok(None));
    assert_eq!(stack(&f), vec![1.0, 1.0, 1.0]);
}

#[test]
fn redefining_an_existing_built_in_word() {
    let mut f = Forth::new();
    assert_eq!(eval(&mut f, ": swap dup ;"), Ok(None));
    assert_eq!(eval(&mut f, "1 swap"), Ok(None));
    assert_eq!(stack(&f), vec![1.0, 1.0]);
}

#[test]
fn user_defined_words_are_case_insensitive() {
    let mut f = Forth::new();
    assert_eq!(eval(&mut f, ": foo dup ;"), Ok(None));
    assert_eq!(eval(&mut f, "1 FOO Foo foo"), Ok(None));
    assert_eq!(stack(&f), vec![1.0, 1.0, 1.0, 1.0]);
}

#[test]
fn definitions_are_case_insensitive() {
    let mut f = Forth::new();
    assert_eq!(eval(&mut f, ": SWAP DUP Dup dup ;"), Ok(None));
    assert_eq!(eval(&mut f, "1 swap"), Ok(None));
    assert_eq!(stack(&f), vec![1.0, 1.0, 1.0, 1.0]);
}

#[test]
fn redefining_a_built_in_operator() {
    let mut f = Forth::new();
    assert_eq!(eval(&mut f, ": + * ;"), Ok(None));
    assert_eq!(eval(&mut f, "3 4 +"), Ok(None));
    assert_eq!(stack(&f), vec![12.0]);
}

#[test]
fn can_define_variable() {
    let mut f = Forth::new();
    assert_eq!(eval(&mut f, ": foo 5 ;"), Ok(None));
    assert_eq!(eval(&mut f, "foo"), Ok(None));
    assert_eq!(stack(&f), vec![5.0]);
}

#[test]
fn can_use_different_words_with_the_same_name() {
    let mut f = Forth::new();
    assert_eq!(eval(&mut f, ": foo 5 ;"), Ok(None));
    assert_eq!(eval(&mut f, ": bar foo ;"), Ok(None));
    assert_eq!(eval(&mut f, ": foo 6 ;"), Ok(None));
    assert_eq!(eval(&mut f, "bar foo"), Ok(None));
    assert_eq!(stack(&f), vec![5.0, 6.0]);
}

#[test]
fn can_define_word_that_uses_word_with_the_same_name() {
    let mut f = Forth::new();
    assert_eq!(eval(&mut f, ": foo 10 ;"), Ok(None));
    assert_eq!(eval(&mut f, ": foo foo 1 + ;"), Ok(None));
    assert_eq!(eval(&mut f, "foo"), Ok(None));
    assert_eq!(stack(&f), vec![11.0]);
}

#[test]
fn defining_a_number() {
    let mut f = Forth::new();
    let result = eval(&mut f, ": 1 2 ;");
    assert!(matches!(result, Err(ForthError::InvalidWord(_))));
}

#[test]
fn malformed_word_definition() {
    let mut f = Forth::new();
    assert_eq!(Err(ForthError::Unterminated), eval(&mut f, ":"));
    assert_eq!(Err(ForthError::Unterminated), eval(&mut f, ": foo"));
    assert_eq!(Err(ForthError::Unterminated), eval(&mut f, ": foo 1"));
}

#[test]
fn calling_non_existing_word() {
    let mut f = Forth::new();
    assert_eq!(
        Err(ForthError::UnknownWord("foo".to_string())),
        eval(&mut f, "1 foo")
    );
}

#[test]
fn multiple_definitions() {
    let mut f = Forth::new();
    assert_eq!(eval(&mut f, ": one 1 ; : two 2 ; one two +"), Ok(Some(3.0)));
    assert_eq!(stack(&f), vec![3.0]);
}

#[test]
fn definitions_after_ops() {
    let mut f = Forth::new();
    assert_eq!(eval(&mut f, "1 2 + : addone 1 + ; addone"), Ok(None));
    assert_eq!(stack(&f), vec![4.0]);
}

#[test]
fn redefine_an_existing_word_with_another_existing_word() {
    let mut f = Forth::new();
    assert_eq!(eval(&mut f, ": foo 5 ;"), Ok(None));
    assert_eq!(eval(&mut f, ": bar foo ;"), Ok(None));
    assert_eq!(eval(&mut f, ": foo 6 ;"), Ok(None));
    assert_eq!(eval(&mut f, ": bar foo ;"), Ok(None));
    assert_eq!(eval(&mut f, "bar foo"), Ok(None));
    assert_eq!(stack(&f), vec![6.0, 6.0]);
}
