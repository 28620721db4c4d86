use brain_corrosion::parser::Token;
use brain_corrosion::vm::standard::{translate, Operation};

#[test]
fn translate_all_tokens() {
    let program = translate(&[
        Token::Inc,
        Token::Dec,
        Token::Stl,
        Token::Endl,
        Token::Shl,
        Token::Shr,
        Token::In,
        Token::Out,
    ]);

    assert_eq!(
        *program,
        [
            Operation::Inc,
            Operation::Dec,
            Operation::LoopForward,
            Operation::LoopBack,
            Operation::Prev,
            Operation::Next,
            Operation::In,
            Operation::Out,
        ]
    )
}

#[test]
fn translate_empty_token_sequence() {
    let program = translate(&[]);

    assert_eq!(program.len(), 0);
}

#[test]
fn translate_through_both_modules_agrees() {
    let tokens = [Token::Inc, Token::Stl, Token::Dec, Token::Endl];

    let direct = brain_corrosion::vm::standard::translate(&tokens);
    let renamed = brain_corrosion::translator::translate(&tokens);

    assert_eq!(direct, renamed);
    assert_eq!(
        *direct,
        [
            Operation::Inc,
            Operation::LoopForward,
            Operation::Dec,
            Operation::LoopBack,
        ]
    );
}
