//! Recursive-descent parsing of the token stream into a generic statement
//! tree. Syntactic errors abort the whole parse with the first error.

use vstd::prelude::*;
use vstd::string::StringExecFns;
use crate::Span;
use crate::parser::lexer::{chars_of, input_src, spec_next, tok_matches, Lexer, LexicalError, SpecLex, SpecTok, Tok};

verus! {

broadcast use crate::parser::lexer::Lexer::lemma_wf_bounds;

/// One generic statement: a keyword, an optional argument and nested child
/// statements, with no knowledge of which keywords are valid where.
#[derive(Debug)]
pub struct Statement {
    pub keyword_span: Span,
    pub keyword: String,
    pub argument_span: Span,
    pub argument: Option<String>,
    pub statements: Vec<Statement>,
}

#[derive(Debug)]
pub struct ParseError {
    pub span: Option<Span>,
    pub message: String,
}

/// Specification-level mirror of a parsed statement: spans as integer
/// pairs, texts as character sequences.
pub struct SpecStatement {
    pub keyword_span: (int, int),
    pub keyword: Seq<char>,
    pub argument_span: (int, int),
    pub argument: Option<Seq<char>>,
    pub children: Seq<SpecStatement>,
}

/// Whether a produced statement agrees with its specification mirror,
/// child by child.
pub open spec fn stmt_matches(s: Statement, m: SpecStatement) -> bool
    decreases s,
{
    &&& s.keyword@ == m.keyword
    &&& s.keyword_span.start == m.keyword_span.0
    &&& s.keyword_span.end == m.keyword_span.1
    &&& s.argument_span.start == m.argument_span.0
    &&& s.argument_span.end == m.argument_span.1
    &&& match (s.argument, m.argument) {
        (Some(a), Some(b)) => a@ == b,
        (None, None) => true,
        _ => false,
    }
    &&& s.statements@.len() == m.children.len()
    &&& forall|i: int|
        0 <= i < m.children.len() ==> stmt_matches(#[trigger] s.statements@[i], m.children[i])
}

/// One statement of the grammar, starting at `pos`: a bareword keyword,
/// then the argument and body per `spec_stmt_after_kw`. `None` is a parse
/// failure.
pub open spec fn spec_parse_stmt(src: Seq<(usize, char)>, pos: int) -> Option<(SpecStatement, int)>
    decreases src.len() - pos, 0int,
{
    let (t1, p1) = spec_next(src, pos);
    match t1 {
        SpecLex::Tok(ks, stk, ke) => match stk {
            SpecTok::UString(kw) => if pos < p1 <= src.len() {
                spec_stmt_after_kw(src, p1, kw, (ks, ke))
            } else {
                None
            },
            _ => None,
        },
        _ => None,
    }
}

/// The rest of a statement after its keyword: an optional bareword
/// argument or a `+`-joined chain of quoted strings, then the terminator.
pub open spec fn spec_stmt_after_kw(
    src: Seq<(usize, char)>,
    pos: int,
    kw: Seq<char>,
    kspan: (int, int),
) -> Option<(SpecStatement, int)>
    decreases src.len() - pos, 3int,
{
    let (t2, p2) = spec_next(src, pos);
    match t2 {
        SpecLex::Tok(s2, stk, e2) => match stk {
            SpecTok::UString(a) => if pos < p2 <= src.len() {
                let (t3, p3) = spec_next(src, p2);
                if p2 <= p3 <= src.len() {
                    spec_finish_stmt(src, t3, p3, kw, kspan, Some(a), (s2, e2))
                } else {
                    None
                }
            } else {
                None
            },
            SpecTok::QString(q) => if pos < p2 <= src.len() {
                match spec_quoted_chain(src, p2, q) {
                    Some((joined, t3, p3)) => if p2 <= p3 <= src.len() {
                        spec_finish_stmt(src, t3, p3, kw, kspan, Some(joined), (s2, e2))
                    } else {
                        None
                    },
                    None => None,
                }
            } else {
                None
            },
            _ => if pos < p2 <= src.len() {
                spec_finish_stmt(src, t2, p2, kw, kspan, None, (s2, e2))
            } else {
                None
            },
        },
        _ => None,
    }
}

/// A chain of quoted strings joined by `+`, concatenated in source order
/// with no separator; returns the joined text and the token after the
/// chain.
pub open spec fn spec_quoted_chain(src: Seq<(usize, char)>, pos: int, acc: Seq<char>) -> Option<
    (Seq<char>, SpecLex, int),
>
    decreases src.len() - pos, 0int,
{
    let (t, p) = spec_next(src, pos);
    match t {
        SpecLex::Tok(_s, stk, _e) => match stk {
            SpecTok::Plus => {
                let (t2, p2) = spec_next(src, p);
                match t2 {
                    SpecLex::Tok(_s2, stk2, _e2) => match stk2 {
                        SpecTok::QString(q2) => if pos < p2 <= src.len() {
                            spec_quoted_chain(src, p2, acc + q2)
                        } else {
                            None
                        },
                        _ => None,
                    },
                    _ => None,
                }
            },
            _ => Some((acc, t, p)),
        },
        _ => None,
    }
}

/// A statement's ending: `;` closes it without children; `{` opens the
/// child list; anything else is a parse failure.
pub open spec fn spec_finish_stmt(
    src: Seq<(usize, char)>,
    term: SpecLex,
    pos: int,
    kw: Seq<char>,
    kspan: (int, int),
    arg: Option<Seq<char>>,
    aspan: (int, int),
) -> Option<(SpecStatement, int)>
    decreases src.len() - pos, 2int,
{
    match term {
        SpecLex::Tok(_s, stk, _e) => match stk {
            SpecTok::Semicolon => Some(
                (
                    SpecStatement {
                        keyword_span: kspan,
                        keyword: kw,
                        argument_span: aspan,
                        argument: arg,
                        children: Seq::empty(),
                    },
                    pos,
                ),
            ),
            SpecTok::LBrace => match spec_stmt_list(src, pos) {
                Some((cs, np)) => Some(
                    (
                        SpecStatement {
                            keyword_span: kspan,
                            keyword: kw,
                            argument_span: aspan,
                            argument: arg,
                            children: cs,
                        },
                        np,
                    ),
                ),
                None => None,
            },
            _ => None,
        },
        _ => None,
    }
}

/// Statements up to the closing brace, in source order.
pub open spec fn spec_stmt_list(src: Seq<(usize, char)>, pos: int) -> Option<(
    Seq<SpecStatement>,
    int,
)>
    decreases src.len() - pos, 1int,
{
    let (t, p) = spec_next(src, pos);
    match t {
        SpecLex::Tok(_s, stk, _e) => match stk {
            SpecTok::RBrace => Some((Seq::empty(), p)),
            _ => match spec_parse_stmt(src, pos) {
                Some((m, np)) => if pos < np <= src.len() {
                    match spec_stmt_list(src, np) {
                        Some((cs, e)) => Some((seq![m] + cs, e)),
                        None => None,
                    }
                } else {
                    None
                },
                None => None,
            },
        },
        _ => None,
    }
}

/// The whole document: exactly one statement consuming the whole input.
pub open spec fn spec_parse(src: Seq<(usize, char)>) -> Option<SpecStatement> {
    match spec_parse_stmt(src, 0) {
        Some((m, np)) => {
            let (t, _p) = spec_next(src, np);
            match t {
                SpecLex::End => Some(m),
                _ => None,
            }
        },
        None => None,
    }
}

/// Parses one statement and requires the input to be exhausted afterwards.
/// The result corresponds exactly to the grammar model `spec_parse` over
/// the input's character table; in particular a successfully parsed
/// statement's keyword is the literal text of the input's first token, a
/// bareword.
pub fn parse(input: &str) -> (r: Result<Statement, ParseError>)
    ensures
        match spec_parse(input_src(input@)) {
            Some(m) => r matches Ok(st) && stmt_matches(st, m),
            None => r is Err,
        },
        r matches Ok(st) ==> exists|a: int, b: int|
            0 <= a < b <= input@.len() && st.keyword@ == #[trigger] input@.subrange(a, b),
{
    let mut lexer = Lexer::new(input);
    let ghost c0 = lexer.cursor();
    let first_tok = match next_tok_or_err(&mut lexer) {
        Ok(t) => t,
        Err(e) => {
            return Err(e);
        },
    };
    let ghost c1 = lexer.cursor();
    let ghost ft = first_tok;
    let statement = match parse_statement(&mut lexer, first_tok, Ghost(c0)) {
        Ok(s) => s,
        Err(e) => {
            return Err(e);
        },
    };
    proof {
        match ft.1 {
            Tok::UString(k) => {
                let (a, b) = choose|a: int, b: int|
                    c0 <= a < b <= c1 && k@ == #[trigger] chars_of(lexer.src(), a, b)
                        && ft.0.start == lexer.src()[a].0 && ft.0.end == lexer.src()[b - 1].0 + 1;
                assert(k@ =~= input@.subrange(a, b));
            },
            _ => {
                assert(false);
            },
        }
    }
    match lexer.next() {
        Some(tok) => Err(
            ParseError {
                span: Some(Span { start: tok.0, end: tok.2 }),
                message: String::from_str("Expected end of input"),
            },
        ),
        None => Ok(statement),
    }
}

/// Fetches the next token, turning end-of-input and lexical errors into
/// parse errors. The result corresponds exactly to `spec_next` at the
/// cursor.
pub(crate) fn next_tok_or_err(lexer: &mut Lexer) -> (r: Result<(Span, Tok), ParseError>)
    requires
        old(lexer).wf(),
    ensures
        final(lexer).wf(),
        final(lexer).src() == old(lexer).src(),
        final(lexer).cursor() >= old(lexer).cursor(),
        r is Ok ==> final(lexer).cursor() > old(lexer).cursor(),
        r matches Ok(tk) ==> (tk.1 matches Tok::UString(u) ==> exists|a: int, b: int|
            old(lexer).cursor() <= a < b <= final(lexer).cursor() && u@ == #[trigger] chars_of(
                final(lexer).src(),
                a,
                b,
            ) && tk.0.start == final(lexer).src()[a].0 && tk.0.end == final(lexer).src()[b - 1].0
                + 1),
        ({
            let (sl, np) = spec_next(old(lexer).src(), old(lexer).cursor());
            &&& final(lexer).cursor() == np
            &&& match sl {
                SpecLex::End => r matches Err(e) && e.span is None,
                SpecLex::Error(start, _kind, _end) => r matches Err(e) && (e.span matches Some(sp)
                    && sp.start == start),
                SpecLex::Tok(start, stk, end) => r matches Ok(tk) && (tk.0.start == start
                    && tk.0.end == end && tok_matches(tk.1, stk)),
            }
        }),
{
    let tok = match lexer.next() {
        Some(t) => t,
        None => {
            return Err(
                ParseError {
                    span: None,
                    message: String::from_str("Expected token, found end of input"),
                },
            );
        },
    };
    let span = Span { start: tok.0, end: tok.2 };
    match tok.1 {
        Err(err) => {
            let message = match err {
                LexicalError::UnexpectedEOF => String::from_str("UnexpectedEOF"),
                LexicalError::IllegalToken => String::from_str("IllegalToken"),
                LexicalError::IllegalStringEscape => String::from_str("IllegalStringEscape"),
            };
            Err(ParseError { span: Some(span), message })
        },
        Ok(token) => Ok((span, token)),
    }
}

/// Parses one statement whose first token has already been read at ghost
/// position `at`: a keyword, an optional argument (a bareword, or quoted
/// strings joined by `+`), then either `;` or `{ ... }` with nested
/// statements. The result corresponds exactly to `spec_parse_stmt` at `at`.
#[verifier::rlimit(100)]
#[verifier::spinoff_prover]
pub(crate) fn parse_statement(lexer: &mut Lexer, first_tok: (Span, Tok), at: Ghost<int>) -> (r:
    Result<Statement, ParseError>)
    requires
        old(lexer).wf(),
        at@ < old(lexer).cursor() <= old(lexer).src().len(),
        ({
            let (sl, np) = spec_next(old(lexer).src(), at@);
            sl matches SpecLex::Tok(start, stk, end) && (np == old(lexer).cursor()
                && first_tok.0.start == start && first_tok.0.end == end && tok_matches(
                first_tok.1,
                stk,
            ))
        }),
    ensures
        final(lexer).wf(),
        final(lexer).src() == old(lexer).src(),
        final(lexer).cursor() >= old(lexer).cursor(),
        r matches Ok(st) ==> (first_tok.1 matches Tok::UString(k) && st.keyword == k
            && st.keyword_span == first_tok.0),
        !(first_tok.1 is UString) ==> r is Err,
        match spec_parse_stmt(old(lexer).src(), at@) {
            Some((m, np)) => r matches Ok(st) && (stmt_matches(st, m) && final(lexer).cursor()
                == np),
            None => r is Err,
        },
    decreases old(lexer).remaining(),
{
    broadcast use crate::parser::lexer::Lexer::lemma_wf_bounds;

    let ghost src = old(lexer).src();
    let keyword = match first_tok.1 {
        Tok::UString(kw) => kw,
        _ => {
            return Err(
                ParseError {
                    span: Some(first_tok.0),
                    message: String::from_str("Expected keyword, found something else"),
                },
            );
        },
    };
    let keyword_span = first_tok.0;
    let ghost kspan = (keyword_span.start as int, keyword_span.end as int);
    let ghost p1 = old(lexer).cursor();
    let ghost target = spec_stmt_after_kw(src, p1, keyword@, kspan);
    proof {
        assert(spec_parse_stmt(src, at@) == target);
    }
    let mut argument: Option<String> = None;
    let mut statements: Vec<Statement> = Vec::new();

    let t = match next_tok_or_err(lexer) {
        Ok(t) => t,
        Err(e) => {
            return Err(e);
        },
    };
    let argument_span = t.0;
    let ghost aspan = (argument_span.start as int, argument_span.end as int);
    let ghost p2 = lexer.cursor();
    let mut cur_span = t.0;
    let mut cur_tok = t.1;
    // the terminator token's model and the position after it
    let ghost mut term_sl: SpecLex = spec_next(src, p1).0;
    let ghost mut term_p: int = p2;
    let ghost mut argm: Option<Seq<char>> = None;
    match cur_tok {
        Tok::UString(arg) => {
            proof {
                argm = Some(arg@);
            }
            argument = Some(arg);
            let t2 = match next_tok_or_err(lexer) {
                Ok(t2) => t2,
                Err(e) => {
                    return Err(e);
                },
            };
            cur_span = t2.0;
            cur_tok = t2.1;
            proof {
                term_sl = spec_next(src, p2).0;
                term_p = lexer.cursor();
            }
        },
        Tok::QString(arg) => {
            let mut arg_joined = arg;
            let ghost ch_anchor = p2;
            let ghost q0 = arg_joined@;
            loop
                invariant_except_break
                    spec_quoted_chain(src, ch_anchor, q0) == spec_quoted_chain(
                        src,
                        lexer.cursor(),
                        arg_joined@,
                    ),
                invariant
                    lexer.wf(),
                    src == old(lexer).src(),
                    lexer.src() == src,
                    lexer.cursor() > at@,
                    lexer.cursor() >= old(lexer).cursor(),
                    lexer.cursor() >= ch_anchor,
                    spec_parse_stmt(src, at@) == (match spec_quoted_chain(src, ch_anchor, q0) {
                        Some((j, t, p)) => if ch_anchor <= p <= src.len() {
                            spec_finish_stmt(src, t, p, keyword@, kspan, Some(j), aspan)
                        } else {
                            None
                        },
                        None => None,
                    }),
                ensures
                    lexer.wf(),
                    src == old(lexer).src(),
                    lexer.src() == src,
                    lexer.cursor() > at@,
                    lexer.cursor() >= old(lexer).cursor(),
                    lexer.cursor() >= ch_anchor,
                    spec_parse_stmt(src, at@) == (match spec_quoted_chain(src, ch_anchor, q0) {
                        Some((j, t, p)) => if ch_anchor <= p <= src.len() {
                            spec_finish_stmt(src, t, p, keyword@, kspan, Some(j), aspan)
                        } else {
                            None
                        },
                        None => None,
                    }),
                    term_p == lexer.cursor(),
                    argm == Some(arg_joined@),
                    spec_quoted_chain(src, ch_anchor, q0) == Some((arg_joined@, term_sl, term_p)),
                    term_sl matches SpecLex::Tok(ts, tstk, te) && (cur_span.start == ts
                        && cur_span.end == te && tok_matches(cur_tok, tstk)),
                decreases lexer.remaining(),
            {
                let ghost c_pre = lexer.cursor();
                let t2 = match next_tok_or_err(lexer) {
                    Ok(t2) => t2,
                    Err(e) => {
                        return Err(e);
                    },
                };
                cur_span = t2.0;
                cur_tok = t2.1;
                if matches!(cur_tok, Tok::Plus) {
                    let next_tok = match next_tok_or_err(lexer) {
                        Ok(t3) => t3,
                        Err(e) => {
                            return Err(e);
                        },
                    };
                    match next_tok.1 {
                        Tok::QString(arg2) => {
                            arg_joined.append(arg2.as_str());
                        },
                        _ => {
                            return Err(
                                ParseError {
                                    span: Some(next_tok.0),
                                    message: String::from_str(
                                        "Expected string, found something else",
                                    ),
                                },
                            );
                        },
                    }
                } else {
                    proof {
                        term_sl = spec_next(src, c_pre).0;
                        term_p = lexer.cursor();
                        argm = Some(arg_joined@);
                    }
                    break;
                }
            }
            argument = Some(arg_joined);
        },
        _ => {
            proof {
                term_sl = spec_next(src, p1).0;
                term_p = p2;
                argm = None;
            }
        },
    }
    proof {
        assert(target == spec_finish_stmt(src, term_sl, term_p, keyword@, kspan, argm, aspan));
    }

    if matches!(cur_tok, Tok::Semicolon) {
        // no children
    } else if matches!(cur_tok, Tok::LBrace) {
        let ghost list_anchor = term_p;
        let ghost mut specs_acc: Seq<SpecStatement> = Seq::empty();
        proof {
            assert(match spec_stmt_list(src, lexer.cursor()) {
                Some((cs, e)) => spec_stmt_list(src, list_anchor) == Some((specs_acc + cs, e)),
                None => spec_stmt_list(src, list_anchor) is None,
            }) by {
                match spec_stmt_list(src, list_anchor) {
                    Some(p) => {
                        assert(specs_acc + p.0 =~= p.0);
                    },
                    None => {},
                }
            }
        }
        loop
            invariant_except_break
                match spec_stmt_list(src, lexer.cursor()) {
                    Some(p) => spec_stmt_list(src, list_anchor) == Some(
                        (specs_acc + p.0, p.1),
                    ),
                    None => spec_stmt_list(src, list_anchor) is None,
                },
            invariant
                lexer.wf(),
                src == old(lexer).src(),
                lexer.src() == src,
                lexer.cursor() > at@,
                lexer.cursor() >= old(lexer).cursor(),
                spec_parse_stmt(src, at@) == (match spec_stmt_list(src, list_anchor) {
                    Some((cs, np)) => Some(
                        (
                            SpecStatement {
                                keyword_span: kspan,
                                keyword: keyword@,
                                argument_span: aspan,
                                argument: argm,
                                children: cs,
                            },
                            np,
                        ),
                    ),
                    None => None,
                }),
                statements@.len() == specs_acc.len(),
                forall|i: int|
                    0 <= i < specs_acc.len() ==> stmt_matches(
                        #[trigger] statements@[i],
                        specs_acc[i],
                    ),
            ensures
                lexer.wf(),
                src == old(lexer).src(),
                lexer.src() == src,
                lexer.cursor() > at@,
                lexer.cursor() >= old(lexer).cursor(),
                spec_parse_stmt(src, at@) == (match spec_stmt_list(src, list_anchor) {
                    Some((cs, np)) => Some(
                        (
                            SpecStatement {
                                keyword_span: kspan,
                                keyword: keyword@,
                                argument_span: aspan,
                                argument: argm,
                                children: cs,
                            },
                            np,
                        ),
                    ),
                    None => None,
                }),
                statements@.len() == specs_acc.len(),
                forall|i: int|
                    0 <= i < specs_acc.len() ==> stmt_matches(
                        #[trigger] statements@[i],
                        specs_acc[i],
                    ),
                spec_stmt_list(src, list_anchor) == Some((specs_acc, lexer.cursor() as int)),
            decreases lexer.remaining(),
        {
            let ghost c_pre = lexer.cursor();
            let next_tok = match next_tok_or_err(lexer) {
                Ok(t3) => t3,
                Err(e) => {
                    return Err(e);
                },
            };
            if matches!(next_tok.1, Tok::RBrace) {
                proof {
                    assert(spec_stmt_list(src, list_anchor) == Some(
                        (specs_acc, lexer.cursor() as int),
                    )) by {
                        assert(specs_acc + Seq::<SpecStatement>::empty() =~= specs_acc);
                    }
                }
                break;
            }
            let sub = match parse_statement(lexer, next_tok, Ghost(c_pre)) {
                Ok(s) => s,
                Err(e) => {
                    return Err(e);
                },
            };
            proof {
                let (m, np) = spec_parse_stmt(src, c_pre)->Some_0;
                specs_acc = specs_acc + seq![m];
                assert(match spec_stmt_list(src, lexer.cursor()) {
                    Some(p) => spec_stmt_list(src, list_anchor) == Some(
                        (specs_acc + p.0, p.1),
                    ),
                    None => spec_stmt_list(src, list_anchor) is None,
                }) by {
                    match spec_stmt_list(src, lexer.cursor()) {
                        Some(p) => {
                            assert((specs_acc.drop_last() + (seq![m] + p.0)) =~= (specs_acc
                                + p.0));
                        },
                        None => {},
                    }
                }
            }
            statements.push(sub);
        }
    } else {
        return Err(
            ParseError {
                span: Some(cur_span),
                message: String::from_str("Expected semicolon or left brace, found something else"),
            },
        );
    }

    let st = Statement { keyword, keyword_span, argument, argument_span, statements };
    proof {
        match spec_parse_stmt(src, at@) {
            Some(p) => {
                assert(stmt_matches(st, p.0));
            },
            None => {
                assert(false);
            },
        }
    }
    Ok(st)
}

} // verus!
