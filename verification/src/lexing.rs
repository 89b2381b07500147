//! The assembler frontend: source text to a linear token stream. Per line,
//! everything after a `#` or `;` is comment; the rest splits on whitespace
//! into words, each classified in priority order: an origin address after
//! `.org`, the `.org` directive itself, a label definition ending in `:`, a
//! wide (`&&`) or narrow (`&`) label reference, a `0x` nibble literal, or an
//! opcode mnemonic. Anything else is a fatal error.

use vstd::prelude::*;
use crate::assembler::AsmError;
use crate::assembler::AsmErrorV;
use crate::assembler::AsmMessage;
use crate::assembler::Stage;
use crate::isa::Instruction;
use crate::isa::opcode_of_word;
use crate::nibble::u4;
use crate::util::parse_hex4_bytes;
use crate::util::parse_hex4_spec;
use crate::util::parse_hex8_bytes;
use crate::util::parse_hex8_spec;

verus! {

/// One token of the stream the lexer hands the code generator.
#[derive(Clone, PartialEq, Eq, Debug)]
pub enum LexToken {
    Instruction(Instruction),
    LabelDef(Vec<u8>),
    LabelRef { name: Vec<u8>, wide: bool },
    Org(u8),
    HexLiteral(u4),
}

/// The mathematical model of a token.
pub enum LexTokenV {
    Instruction(Instruction),
    LabelDef(Seq<u8>),
    LabelRef { name: Seq<u8>, wide: bool },
    Org(u8),
    HexLiteral(u8),
}

impl View for LexToken {
    type V = LexTokenV;

    open spec fn view(&self) -> LexTokenV {
        match self {
            LexToken::Instruction(i) => LexTokenV::Instruction(*i),
            LexToken::LabelDef(name) => LexTokenV::LabelDef(name@),
            LexToken::LabelRef { name, wide } => LexTokenV::LabelRef {
                name: name@,
                wide: *wide,
            },
            LexToken::Org(a) => LexTokenV::Org(*a),
            LexToken::HexLiteral(v) => LexTokenV::HexLiteral(v.val()),
        }
    }
}

/// A token tagged with its 1-based source line.
#[derive(Clone, PartialEq, Eq, Debug)]
pub struct TokenLineNumPair {
    pub linenum: usize,
    pub token: LexToken,
}

/// The mathematical model of a tagged token.
pub struct TokenLineNumPairV {
    pub linenum: int,
    pub token: LexTokenV,
}

impl View for TokenLineNumPair {
    type V = TokenLineNumPairV;

    open spec fn view(&self) -> TokenLineNumPairV {
        TokenLineNumPairV { linenum: self.linenum as int, token: self.token@ }
    }
}

/// The models of a stream of tagged tokens.
pub open spec fn view_tokens(v: Seq<TokenLineNumPair>) -> Seq<TokenLineNumPairV> {
    v.map_values(|t: TokenLineNumPair| t@)
}

/// Whitespace within a line.
pub open spec fn is_line_ws(b: u8) -> bool {
    b == 32 || b == 9 || b == 11 || b == 12 || b == 13
}

/// The line separator.
pub open spec fn is_newline(b: u8) -> bool {
    b == 10
}

/// A comment marker: `#` or `;`.
pub open spec fn is_comment_start(b: u8) -> bool {
    b == 35 || b == 59
}

/// A byte that ends a word.
pub open spec fn ends_word(b: u8) -> bool {
    is_line_ws(b) || is_newline(b) || is_comment_start(b)
}

/// The first position at or after `pos` whose byte ends a word, or the end
/// of the input.
pub open spec fn word_end(s: Seq<u8>, pos: int) -> int
    recommends
        0 <= pos <= s.len(),
    decreases s.len() - pos,
{
    if pos >= s.len() || ends_word(s[pos]) {
        pos
    } else {
        word_end(s, pos + 1)
    }
}

/// `word_end` stays within the input.
pub proof fn lemma_word_end(s: Seq<u8>, pos: int)
    requires
        0 <= pos <= s.len(),
    ensures
        pos <= word_end(s, pos) <= s.len(),
    decreases s.len() - pos,
{
    if pos < s.len() && !ends_word(s[pos]) {
        lemma_word_end(s, pos + 1);
    }
}

/// The bytes of the `.org` directive keyword.
pub open spec fn dot_org_word() -> Seq<u8> {
    seq!['.' as u8, 'o' as u8, 'r' as u8, 'g' as u8]
}

/// What one word contributes: a token, the pending-origin marker, or a
/// fatal error.
pub enum WordStep {
    Tok(LexTokenV),
    SetOrg,
    Fail(AsmMessage),
}

/// Classify one word, in the lexer's priority order. `org` says whether the
/// previous word on this line was the `.org` keyword, which makes this word
/// an origin address.
pub open spec fn classify_word(w: Seq<u8>, org: bool) -> WordStep {
    if org {
        match parse_hex8_spec(w) {
            Some(v) => WordStep::Tok(LexTokenV::Org(v)),
            None => WordStep::Fail(AsmMessage::BadHexDigit),
        }
    } else if w == dot_org_word() {
        WordStep::SetOrg
    } else if w.len() >= 1 && w[w.len() - 1] == 58 {
        WordStep::Tok(LexTokenV::LabelDef(w.take(w.len() - 1)))
    } else if w.len() >= 2 && w[0] == 38 && w[1] == 38 {
        WordStep::Tok(LexTokenV::LabelRef { name: w.skip(2), wide: true })
    } else if w.len() >= 1 && w[0] == 38 {
        WordStep::Tok(LexTokenV::LabelRef { name: w.skip(1), wide: false })
    } else if w.len() >= 2 && w[0] == 48 && w[1] == 120 {
        match parse_hex4_spec(w.skip(2)) {
            Some(v) => WordStep::Tok(LexTokenV::HexLiteral(v)),
            None => WordStep::Fail(AsmMessage::BadHexDigit),
        }
    } else {
        match opcode_of_word(w) {
            Some(i) => WordStep::Tok(LexTokenV::Instruction(i)),
            None => WordStep::Fail(AsmMessage::InvalidInstruction),
        }
    }
}

/// The token stream of the input from position `pos` on, with the current
/// 1-based line number, whether an origin address is pending on this line,
/// and whether the rest of this line is comment.
pub open spec fn lex_from(s: Seq<u8>, pos: int, line: int, org: bool, comment: bool) -> Result<
    Seq<TokenLineNumPairV>,
    AsmErrorV,
>
    recommends
        0 <= pos <= s.len(),
    decreases s.len() - pos,
    when 0 <= pos <= s.len()
{
    if pos >= s.len() {
        Ok(Seq::empty())
    } else {
        let b = s[pos];
        if is_newline(b) {
            lex_from(s, pos + 1, line + 1, false, false)
        } else if comment {
            lex_from(s, pos + 1, line, org, true)
        } else if is_comment_start(b) {
            lex_from(s, pos + 1, line, org, true)
        } else if is_line_ws(b) {
            lex_from(s, pos + 1, line, org, false)
        } else {
            let e = word_end(s, pos);
            proof {
                lemma_word_end(s, pos + 1);
                assert(e == word_end(s, pos + 1));
            }
            let w = s.subrange(pos, e);
            match classify_word(w, org) {
                WordStep::Fail(msg) => Err(
                    AsmErrorV {
                        stage: Stage::Lex,
                        linenum: Some(line),
                        code_snip: w,
                        message: msg,
                    },
                ),
                WordStep::SetOrg => lex_from(s, e, line, true, false),
                WordStep::Tok(t) => match lex_from(s, e, line, false, false) {
                    Ok(rest) => Ok(seq![TokenLineNumPairV { linenum: line, token: t }] + rest),
                    Err(er) => Err(er),
                },
            }
        }
    }
}

/// The token stream of a whole source text.
pub open spec fn lex_spec(s: Seq<u8>) -> Result<Seq<TokenLineNumPairV>, AsmErrorV> {
    lex_from(s, 0, 1, false, false)
}

/// A prefix of finished tokens joined with the outcome of the rest.
pub open spec fn combine_lex(
    done: Seq<TokenLineNumPairV>,
    rest: Result<Seq<TokenLineNumPairV>, AsmErrorV>,
) -> Result<Seq<TokenLineNumPairV>, AsmErrorV> {
    match rest {
        Ok(ts) => Ok(done + ts),
        Err(e) => Err(e),
    }
}

/// True of a byte that ends a word.
fn ends_word_exec(b: u8) -> (r: bool)
    ensures
        r == ends_word(b),
{
    b == 32 || b == 9 || b == 11 || b == 12 || b == 13 || b == 10 || b == 35 || b == 59
}

/// Copy `src[from..to]` into an owned byte vector.
fn copy_range(src: &[u8], from: usize, to: usize) -> (r: Vec<u8>)
    requires
        from <= to <= src@.len(),
    ensures
        r@ == src@.subrange(from as int, to as int),
{
    let mut out: Vec<u8> = Vec::new();
    let mut k = from;
    while k < to
        invariant
            from <= k <= to <= src@.len(),
            out@ == src@.subrange(from as int, k as int),
        decreases to - k,
    {
        out.push(src[k]);
        proof {
            assert(out@ =~= src@.subrange(from as int, k + 1));
        }
        k += 1;
    }
    out
}

/// Joining one classified word's token onto the finished prefix keeps the
/// running decomposition of the whole token stream.
proof fn lemma_lex_word_tok(
    s: Seq<u8>,
    pos: int,
    line: int,
    org: bool,
    oldts: Seq<TokenLineNumPairV>,
    tok: LexTokenV,
    newts: Seq<TokenLineNumPairV>,
)
    requires
        0 <= pos < s.len(),
        !is_newline(s[pos]),
        !is_comment_start(s[pos]),
        !is_line_ws(s[pos]),
        classify_word(s.subrange(pos, word_end(s, pos)), org) == WordStep::Tok(tok),
        newts == oldts.push(TokenLineNumPairV { linenum: line, token: tok }),
    ensures
        combine_lex(oldts, lex_from(s, pos, line, org, false)) == combine_lex(
            newts,
            lex_from(s, word_end(s, pos), line, false, false),
        ),
{
    let e = word_end(s, pos);
    lemma_word_end(s, pos);
    let rest = lex_from(s, e, line, false, false);
    if rest is Ok {
        let ts = rest->Ok_0;
        assert(oldts + (seq![TokenLineNumPairV { linenum: line, token: tok }] + ts) =~= newts
            + ts);
    }
}

/// Convert source text into its token stream, or the first fatal error.
pub fn lex(input: &[u8]) -> (r: Result<Vec<TokenLineNumPair>, AsmError>)
    requires
        input@.len() < usize::MAX,
    ensures
        match r {
            Ok(toks) => lex_spec(input@) == Ok::<_, AsmErrorV>(view_tokens(toks@))
                && toks@.len() <= input@.len(),
            Err(e) => lex_spec(input@) == Err::<Seq<TokenLineNumPairV>, _>(e@),
        },
{
    let ghost s = input@;
    let n = input.len();
    let mut vec: Vec<TokenLineNumPair> = Vec::new();
    let mut pos: usize = 0;
    let mut line: usize = 1;
    let mut org = false;
    let mut comment = false;
    proof {
        let whole = lex_from(s, 0, 1, false, false);
        if whole is Ok {
            assert(view_tokens(vec@) + whole->Ok_0 =~= whole->Ok_0);
        }
        assert(view_tokens(vec@) =~= Seq::<TokenLineNumPairV>::empty());
    }
    while pos < n
        invariant
            input@ == s,
            n == s.len(),
            n < usize::MAX,
            0 <= pos <= n,
            1 <= line <= pos + 1,
            vec@.len() <= pos,
            lex_spec(s) == combine_lex(
                view_tokens(vec@),
                lex_from(s, pos as int, line as int, org, comment),
            ),
        decreases n - pos,
    {
        let b = input[pos];
        if b == 10 {
            pos += 1;
            line += 1;
            org = false;
            comment = false;
        } else if comment {
            pos += 1;
        } else if b == 35 || b == 59 {
            comment = true;
            pos += 1;
        } else if b == 32 || b == 9 || b == 11 || b == 12 || b == 13 {
            pos += 1;
        } else {
            // find the end of the word
            let mut j = pos;
            while j < n && !ends_word_exec(input[j])
                invariant
                    input@ == s,
                    n == s.len(),
                    pos <= j <= n,
                    word_end(s, pos as int) == word_end(s, j as int),
                decreases n - j,
            {
                j += 1;
            }
            proof {
                assert(word_end(s, pos as int) == j);
                lemma_word_end(s, pos as int);
            }
            let w = copy_range(input, pos, j);
            let ghost wv = s.subrange(pos as int, j as int);
            let wlen = w.len();
            let kw_org = wlen == 4 && w[0] == 46 && w[1] == 111 && w[2] == 114 && w[3] == 103;
            let colon = wlen >= 1 && w[wlen - 1] == 58;
            let amp2 = wlen >= 2 && w[0] == 38 && w[1] == 38;
            let amp1 = wlen >= 1 && w[0] == 38;
            let hex = wlen >= 2 && w[0] == 48 && w[1] == 120;
            proof {
                if kw_org {
                    assert(wv =~= dot_org_word());
                }
            }
            if org {
                match parse_hex8_bytes(w.as_slice()) {
                    Some(v) => {
                        let ghost oldts = view_tokens(vec@);
                        vec.push(TokenLineNumPair { linenum: line, token: LexToken::Org(v) });
                        org = false;
                        proof {
                            assert(view_tokens(vec@) =~= oldts.push(
                                TokenLineNumPairV {
                                    linenum: line as int,
                                    token: LexTokenV::Org(v),
                                },
                            ));
                            lemma_lex_word_tok(
                                s,
                                pos as int,
                                line as int,
                                true,
                                oldts,
                                LexTokenV::Org(v),
                                view_tokens(vec@),
                            );
                        }
                    },
                    None => {
                        return Err(
                            AsmError {
                                stage: Stage::Lex,
                                linenum: Some(line),
                                code_snip: w,
                                message: AsmMessage::BadHexDigit,
                            },
                        );
                    },
                }
            } else if kw_org {
                org = true;
            } else if colon {
                let ghost oldts = view_tokens(vec@);
                let mut name = w;
                let _last = name.pop();
                proof {
                    assert(name@ =~= wv.take(wv.len() - 1));
                }
                vec.push(TokenLineNumPair { linenum: line, token: LexToken::LabelDef(name) });
                proof {
                    assert(view_tokens(vec@) =~= oldts.push(
                        TokenLineNumPairV {
                            linenum: line as int,
                            token: LexTokenV::LabelDef(wv.take(wv.len() - 1)),
                        },
                    ));
                    lemma_lex_word_tok(
                        s,
                        pos as int,
                        line as int,
                        false,
                        oldts,
                        LexTokenV::LabelDef(wv.take(wv.len() - 1)),
                        view_tokens(vec@),
                    );
                }
            } else if amp2 {
                let ghost oldts = view_tokens(vec@);
                let name = copy_range(w.as_slice(), 2, wlen);
                proof {
                    assert(name@ =~= wv.skip(2));
                }
                vec.push(
                    TokenLineNumPair {
                        linenum: line,
                        token: LexToken::LabelRef { name, wide: true },
                    },
                );
                proof {
                    assert(view_tokens(vec@) =~= oldts.push(
                        TokenLineNumPairV {
                            linenum: line as int,
                            token: LexTokenV::LabelRef { name: wv.skip(2), wide: true },
                        },
                    ));
                    lemma_lex_word_tok(
                        s,
                        pos as int,
                        line as int,
                        false,
                        oldts,
                        LexTokenV::LabelRef { name: wv.skip(2), wide: true },
                        view_tokens(vec@),
                    );
                }
            } else if amp1 {
                let ghost oldts = view_tokens(vec@);
                let name = copy_range(w.as_slice(), 1, wlen);
                proof {
                    assert(name@ =~= wv.skip(1));
                }
                vec.push(
                    TokenLineNumPair {
                        linenum: line,
                        token: LexToken::LabelRef { name, wide: false },
                    },
                );
                proof {
                    assert(view_tokens(vec@) =~= oldts.push(
                        TokenLineNumPairV {
                            linenum: line as int,
                            token: LexTokenV::LabelRef { name: wv.skip(1), wide: false },
                        },
                    ));
                    lemma_lex_word_tok(
                        s,
                        pos as int,
                        line as int,
                        false,
                        oldts,
                        LexTokenV::LabelRef { name: wv.skip(1), wide: false },
                        view_tokens(vec@),
                    );
                }
            } else if hex {
                let digits = copy_range(w.as_slice(), 2, wlen);
                proof {
                    assert(digits@ =~= wv.skip(2));
                }
                match parse_hex4_bytes(digits.as_slice()) {
                    Some(v) => {
                        let ghost oldts = view_tokens(vec@);
                        vec.push(
                            TokenLineNumPair {
                                linenum: line,
                                token: LexToken::HexLiteral(v),
                            },
                        );
                        proof {
                            assert(view_tokens(vec@) =~= oldts.push(
                                TokenLineNumPairV {
                                    linenum: line as int,
                                    token: LexTokenV::HexLiteral(v.val()),
                                },
                            ));
                            lemma_lex_word_tok(
                                s,
                                pos as int,
                                line as int,
                                false,
                                oldts,
                                LexTokenV::HexLiteral(v.val()),
                                view_tokens(vec@),
                            );
                        }
                    },
                    None => {
                        return Err(
                            AsmError {
                                stage: Stage::Lex,
                                linenum: Some(line),
                                code_snip: w,
                                message: AsmMessage::BadHexDigit,
                            },
                        );
                    },
                }
            } else {
                match Instruction::try_from_bytes(w.as_slice()) {
                    Some(i) => {
                        let ghost oldts = view_tokens(vec@);
                        vec.push(
                            TokenLineNumPair {
                                linenum: line,
                                token: LexToken::Instruction(i),
                            },
                        );
                        proof {
                            assert(view_tokens(vec@) =~= oldts.push(
                                TokenLineNumPairV {
                                    linenum: line as int,
                                    token: LexTokenV::Instruction(i),
                                },
                            ));
                            lemma_lex_word_tok(
                                s,
                                pos as int,
                                line as int,
                                false,
                                oldts,
                                LexTokenV::Instruction(i),
                                view_tokens(vec@),
                            );
                        }
                    },
                    None => {
                        return Err(
                            AsmError {
                                stage: Stage::Lex,
                                linenum: Some(line),
                                code_snip: w,
                                message: AsmMessage::InvalidInstruction,
                            },
                        );
                    },
                }
            }
            pos = j;
        }
    }
    proof {
        assert(view_tokens(vec@) + Seq::<TokenLineNumPairV>::empty() =~= view_tokens(vec@));
    }
    Ok(vec)
}

} // verus!
