//! Lexer for program source text.
//!
//! Turns a buffer of source bytes into the ordered sequence of tokens it
//! spells, discarding every byte that is not one of the eight instruction
//! characters (such bytes act as comments).

use vstd::prelude::*;

verus! {

/// Source code token, one per instruction character.
#[derive(Debug, Clone, Copy, PartialEq, Eq, Structural)]
pub enum Token {
    /// `+`
    Inc,
    /// `-`
    Dec,
    /// `<`
    Shl,
    /// `>`
    Shr,
    /// `,`
    In,
    /// `.`
    Out,
    /// `[`
    Stl,
    /// `]`
    Endl,
}

/// The token a source byte stands for, or `None` for a comment byte.
pub open spec fn token_of_byte(b: u8) -> Option<Token> {
    if b == 43 {
        Some(Token::Inc)
    } else if b == 45 {
        Some(Token::Dec)
    } else if b == 62 {
        Some(Token::Shr)
    } else if b == 60 {
        Some(Token::Shl)
    } else if b == 46 {
        Some(Token::Out)
    } else if b == 44 {
        Some(Token::In)
    } else if b == 91 {
        Some(Token::Stl)
    } else if b == 93 {
        Some(Token::Endl)
    } else {
        None
    }
}

/// The instruction character that writes a token back out.
pub open spec fn byte_of_token(t: Token) -> u8 {
    match t {
        Token::Inc => 43,
        Token::Dec => 45,
        Token::Shr => 62,
        Token::Shl => 60,
        Token::Out => 46,
        Token::In => 44,
        Token::Stl => 91,
        Token::Endl => 93,
    }
}

/// The token sequence a source buffer spells: one token per recognized
/// instruction byte, in source order, and nothing for any other byte.
pub open spec fn lex(source: Seq<u8>) -> Seq<Token>
    decreases source.len(),
{
    if source.len() == 0 {
        Seq::empty()
    } else {
        match token_of_byte(source[0]) {
            Some(t) => seq![t] + lex(source.skip(1)),
            None => lex(source.skip(1)),
        }
    }
}

/// The source text that the emitted tokens themselves spell.
pub open spec fn bytes_of_tokens(tokens: Seq<Token>) -> Seq<u8> {
    tokens.map_values(|t: Token| byte_of_token(t))
}

/// Parse program source into the list of tokens.
///
/// Every byte that is not one of the eight instruction characters is
/// silently skipped; loop balance is not checked here.
pub fn parse(source: &[u8]) -> (tokens: Vec<Token>)
    ensures
        tokens@ == lex(source@),
{
    let mut code: Vec<Token> = Vec::new();
    let mut i: usize = 0;
    proof {
        assert(source@.skip(0) =~= source@);
        assert(code@ + lex(source@) =~= lex(source@));
    }
    while i < source.len()
        invariant
            i <= source@.len(),
            code@ + lex(source@.skip(i as int)) == lex(source@),
        decreases source@.len() - i,
    {
        proof {
            assert(source@.skip(i as int).skip(1) =~= source@.skip(i as int + 1));
            assert(source@.skip(i as int)[0] == source@[i as int]);
        }
        let b = source[i];
        match b {
            43 => code.push(Token::Inc),
            45 => code.push(Token::Dec),
            62 => code.push(Token::Shr),
            60 => code.push(Token::Shl),
            46 => code.push(Token::Out),
            44 => code.push(Token::In),
            91 => code.push(Token::Stl),
            93 => code.push(Token::Endl),
            _ => {},
        }
        i = i + 1;
        proof {
            assert(code@ + lex(source@.skip(i as int)) =~= lex(source@));
        }
    }
    proof {
        assert(source@.skip(i as int) =~= Seq::<u8>::empty());
        assert(code@ + lex(source@.skip(i as int)) =~= code@);
    }
    code
}

/// Writing a token back as its instruction character and lexing again
/// recovers the token.
pub proof fn lemma_token_byte_round_trip(t: Token)
    ensures
        token_of_byte(byte_of_token(t)) == Some(t),
{
}

/// Law: lexing is idempotent on already-filtered input. The source text
/// spelled by the emitted tokens lexes to the same token sequence.
pub proof fn lemma_lex_idempotent(source: Seq<u8>)
    ensures
        lex(bytes_of_tokens(lex(source))) == lex(source),
    decreases source.len(),
{
    if source.len() == 0 {
        assert(bytes_of_tokens(lex(source)) =~= Seq::<u8>::empty());
    } else {
        let rest = source.skip(1);
        lemma_lex_idempotent(rest);
        match token_of_byte(source[0]) {
            Some(t) => {
                lemma_token_byte_round_trip(t);
                assert(lex(source) =~= seq![t] + lex(rest));
                let written = bytes_of_tokens(lex(source));
                assert(written =~= seq![byte_of_token(t)] + bytes_of_tokens(lex(rest)));
                assert(written.skip(1) =~= bytes_of_tokens(lex(rest)));
                assert(lex(written) =~= seq![t] + lex(bytes_of_tokens(lex(rest))));
            },
            None => {
                assert(lex(source) =~= lex(rest));
            },
        }
    }
}

} // verus!
