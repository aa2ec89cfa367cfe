use vstd::prelude::*;

verus! {

/// One lexical unit of a script.
#[derive(Debug)]
pub enum Token {
    /// `hayde`: declaration.
    Hayde,
    /// `hiyye` or `=`: binds a value.
    Hiyye,
    /// `ong_no_cap`: true.
    OngNoCap,
    /// `cap`: false.
    Cap,
    /// `eza`: conditional.
    Eza,
    /// `betshil`: optional condition marker.
    Betshil,
    /// `lakan`: optional then marker.
    Lakan,
    /// `walla`: else.
    Walla,
    /// `deal`: end of a block.
    Deal,
    /// `3mol`: print.
    ThreeMol,
    /// `highkey`: optional emphasis after `3mol`.
    Highkey,
    /// `lowkey`: diagnostic print.
    Lowkey,
    /// `khalas`: while loop.
    Khalas,
    /// `yalla`: continue.
    Yalla,
    /// `waqif`: break.
    Waqif,
    Identifier(String),
    /// A string literal, escapes decoded.
    Text(String),
    /// A number literal, as the run of digits and points it was written with.
    Number(String),
    Plus,
    Minus,
    Star,
    Slash,
    Percent,
    EqualEqual,
    NotEquals,
    Greater,
    Less,
    GreaterEq,
    LessEq,
    And,
    Or,
    Not,
    LeftParen,
    RightParen,
    Newline,
    Eof,
}

/// The words that are keywords rather than identifiers (`3mol` is scanned apart).
pub open spec fn is_keyword(w: Seq<char>) -> bool {
    w =~= "hayde"@ || w =~= "hiyye"@ || w =~= "ong_no_cap"@ || w =~= "cap"@ || w =~= "eza"@
        || w =~= "betshil"@ || w =~= "lakan"@ || w =~= "walla"@ || w =~= "deal"@
        || w =~= "highkey"@ || w =~= "lowkey"@ || w =~= "khalas"@ || w =~= "yalla"@
        || w =~= "waqif"@
}

} // verus!
