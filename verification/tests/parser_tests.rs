use brain_corrosion::parser::{parse, Token};

#[test]
fn parse_all_tokens() {
    let source = "+-.,<>[]";

    let program = parse(source.as_bytes());

    assert_eq!(
        *program,
        [
            Token::Inc,
            Token::Dec,
            Token::Out,
            Token::In,
            Token::Shl,
            Token::Shr,
            Token::Stl,
            Token::Endl
        ]
    );
}

#[test]
fn parse_skips_comment_bytes() {
    let source = "hello + world - !";

    let program = parse(source.as_bytes());

    assert_eq!(*program, [Token::Inc, Token::Dec]);
}

#[test]
fn parse_of_comments_only_is_empty() {
    let program = parse("no instruction characters at all".as_bytes());

    assert_eq!(program.len(), 0);
}

#[test]
fn parse_keeps_source_order() {
    let program = parse("][><,.-+".as_bytes());

    assert_eq!(
        *program,
        [
            Token::Endl,
            Token::Stl,
            Token::Shr,
            Token::Shl,
            Token::In,
            Token::Out,
            Token::Dec,
            Token::Inc
        ]
    );
}

#[test]
fn parse_is_idempotent_on_filtered_source() {
    let noisy = parse("+a- b[,anything.]x<not code>".as_bytes());
    let filtered = parse("+-[,.]<>".as_bytes());

    assert_eq!(noisy, filtered);
}

#[test]
fn parse_empty_source() {
    let program = parse("".as_bytes());

    assert_eq!(program.len(), 0);
}
