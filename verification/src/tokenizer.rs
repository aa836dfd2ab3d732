//! The tokenizer: a single left-to-right scan over the characters, keeping
//! two pending accumulators — a digit run and a name run.  A digit flushes
//! the name accumulator first, so a run that began as a name absorbs later
//! digits instead of splitting; a non-digit flushes the digit accumulator and
//! starts (or continues) a name run.

use crate::error::ParseError;
use crate::text::{all_digits, dec_digits, digits_val, is_digit_char, lemma_dec_digits_val,
    parse_i32_digits, push_char};
use crate::token::{SpecToken, Token};
use vstd::prelude::*;

verus! {

/// The views of a token list: the tokens as mathematical values.
pub open spec fn views_of(ts: Seq<Token>) -> Seq<SpecToken> {
    ts.map_values(|t: Token| t@)
}

/// Flushing the digit accumulator: nothing for an empty run; a single
/// integer-literal token for a run whose value fits in 32 signed bits; an
/// overflow error otherwise.
pub open spec fn flush_int(acc: Seq<char>) -> Result<Seq<SpecToken>, ParseError> {
    if acc.len() == 0 {
        Ok(seq![])
    } else if digits_val(acc) <= i32::MAX as int {
        Ok(seq![SpecToken::IntLit(digits_val(acc))])
    } else {
        Err(ParseError::IntegerOverflow)
    }
}

/// Flushing the name accumulator: nothing for an empty run, one name token
/// otherwise.
pub open spec fn flush_name(acc: Seq<char>) -> Seq<SpecToken> {
    if acc.len() == 0 {
        seq![]
    } else {
        seq![SpecToken::Name(acc)]
    }
}

/// Is `c` one of the recognized operator / punctuation characters?
pub open spec fn is_op_char(c: char) -> bool {
    c == '+' || c == '-' || c == '/' || c == '*' || c == '!' || c == '~' || c == '(' || c == ')'
        || c == '^'
}

/// The token a single operator / punctuation character produces.
pub open spec fn op_token(c: char) -> SpecToken {
    if c == '+' {
        SpecToken::Plus
    } else if c == '-' {
        SpecToken::Minus
    } else if c == '/' {
        SpecToken::Slash
    } else if c == '*' {
        SpecToken::Star
    } else if c == '!' {
        SpecToken::Bang
    } else if c == '~' {
        SpecToken::Tilde
    } else if c == '(' {
        SpecToken::OpenParen
    } else if c == ')' {
        SpecToken::CloseParen
    } else {
        SpecToken::Caret
    }
}

/// Puts tokens already emitted in front of the outcome of scanning the rest.
pub open spec fn prepend(pre: Seq<SpecToken>, r: Result<Seq<SpecToken>, ParseError>) -> Result<
    Seq<SpecToken>,
    ParseError,
> {
    match r {
        Ok(ts) => Ok(pre + ts),
        Err(e) => Err(e),
    }
}

/// The scan, one character at a time, carrying the two accumulators.
/// Whitespace and operators flush both accumulators (digits first); a digit
/// joins an active name run — a run that began as a name absorbs later
/// digits — and only with an empty name accumulator starts or continues the
/// digit run; any other character flushes the digit accumulator before
/// joining the name run.  At the end of the input both accumulators are
/// flushed, names first.
pub open spec fn spec_tokenize_from(
    cs: Seq<char>,
    int_acc: Seq<char>,
    name_acc: Seq<char>,
) -> Result<Seq<SpecToken>, ParseError>
    decreases cs.len(),
{
    if cs.len() == 0 {
        prepend(flush_name(name_acc), flush_int(int_acc))
    } else {
        let c = cs[0];
        let rest = cs.skip(1);
        if c == '\n' || c == ' ' {
            match flush_int(int_acc) {
                Err(e) => Err(e),
                Ok(its) => prepend(
                    its + flush_name(name_acc),
                    spec_tokenize_from(rest, seq![], seq![]),
                ),
            }
        } else if is_op_char(c) {
            match flush_int(int_acc) {
                Err(e) => Err(e),
                Ok(its) => prepend(
                    its + flush_name(name_acc) + seq![op_token(c)],
                    spec_tokenize_from(rest, seq![], seq![]),
                ),
            }
        } else if is_digit_char(c) {
            if name_acc.len() > 0 {
                spec_tokenize_from(rest, int_acc, name_acc.push(c))
            } else {
                spec_tokenize_from(rest, int_acc.push(c), seq![])
            }
        } else {
            match flush_int(int_acc) {
                Err(e) => Err(e),
                Ok(its) => prepend(its, spec_tokenize_from(rest, seq![], name_acc.push(c))),
            }
        }
    }
}

/// The tokens of a character sequence, scanned from empty accumulators.
pub open spec fn spec_tokenize(cs: Seq<char>) -> Result<Seq<SpecToken>, ParseError> {
    spec_tokenize_from(cs, seq![], seq![])
}

/// Scanning a pure digit run with an empty name accumulator gathers every
/// digit into the digit accumulator and flushes it once at the end.
proof fn lemma_tokenize_digit_run(cs: Seq<char>, acc: Seq<char>)
    requires
        all_digits(cs),
        all_digits(acc),
    ensures
        spec_tokenize_from(cs, acc, Seq::empty()) == flush_int(acc + cs),
    decreases cs.len(),
{
    if cs.len() == 0 {
        assert(acc + cs =~= acc);
        match flush_int(acc) {
            Ok(ts) => {
                assert(Seq::<SpecToken>::empty() + ts =~= ts);
            },
            Err(_) => {},
        }
    } else {
        let c = cs[0];
        assert(is_digit_char(c));
        assert(all_digits(cs.skip(1))) by {
            assert(forall|i: int| 0 <= i < cs.skip(1).len() ==> cs.skip(1)[i] == cs[i + 1]);
        }
        assert(all_digits(acc.push(c)));
        lemma_tokenize_digit_run(cs.skip(1), acc.push(c));
        assert(acc.push(c) + cs.skip(1) =~= acc + cs);
    }
}

/// Tokenizer round trip on literals: for every non-negative integer that
/// fits in 32 signed bits, tokenizing its decimal text yields exactly one
/// integer-literal token holding that value.
pub proof fn lemma_tokenize_int_literal(k: int)
    requires
        0 <= k <= i32::MAX as int,
    ensures
        spec_tokenize(dec_digits(k)) == Ok::<Seq<SpecToken>, ParseError>(
            seq![SpecToken::IntLit(k)],
        ),
{
    lemma_dec_digits_val(k);
    lemma_tokenize_digit_run(dec_digits(k), Seq::empty());
    assert(Seq::<char>::empty() + dec_digits(k) =~= dec_digits(k));
}

proof fn lemma_prefix_of_concat(a: Seq<SpecToken>, b: Seq<SpecToken>)
    ensures
        a.is_prefix_of(a + b),
{
    assert(a =~= (a + b).subrange(0, a.len() as int));
}

proof fn lemma_views_push(ts: Seq<Token>, t: Token)
    ensures
        views_of(ts.push(t)) == views_of(ts) + seq![t@],
{
    assert(views_of(ts.push(t)) =~= views_of(ts) + seq![t@]);
}

proof fn lemma_prepend_prepend(a: Seq<SpecToken>, b: Seq<SpecToken>, r: Result<
    Seq<SpecToken>,
    ParseError,
>)
    ensures
        prepend(a, prepend(b, r)) == prepend(a + b, r),
{
    match r {
        Ok(ts) => {
            assert(a + (b + ts) =~= (a + b) + ts);
        },
        Err(_) => {},
    }
}

/// Flushes the digit accumulator into the token list, exactly as
/// [`flush_int`] describes.
fn flush_int_acc(tokens: &mut Vec<Token>, is_int: &mut bool, curr_int: &mut String) -> (r: Result<
    (),
    ParseError,
>)
    requires
        all_digits(old(curr_int)@),
        *old(is_int) <==> old(curr_int)@.len() > 0,
    ensures
        match flush_int(old(curr_int)@) {
            Ok(ts) => r == Ok::<(), ParseError>(()) && views_of(final(tokens)@) == views_of(
                old(tokens)@,
            ) + ts && *final(is_int) == false && final(curr_int)@.len() == 0,
            Err(e) => r == Err::<(), ParseError>(e) && final(tokens)@ == old(tokens)@,
        },
{
    if !*is_int {
        proof {
            assert(views_of(tokens@) + Seq::<SpecToken>::empty() =~= views_of(tokens@));
        }
        return Ok(());
    }
    *is_int = false;
    match parse_i32_digits(curr_int.as_str()) {
        Err(e) => Err(e),
        Ok(v) => {
            proof {
                lemma_views_push(tokens@, Token::IntLit(v));
            }
            tokens.push(Token::IntLit(v));
            *curr_int = String::new();
            Ok(())
        },
    }
}

/// Flushes the name accumulator into the token list, exactly as
/// [`flush_name`] describes.
fn flush_name_acc(tokens: &mut Vec<Token>, is_name: &mut bool, curr_name: &mut String)
    requires
        *old(is_name) <==> old(curr_name)@.len() > 0,
    ensures
        views_of(final(tokens)@) == views_of(old(tokens)@) + flush_name(old(curr_name)@),
        *final(is_name) == false,
        final(curr_name)@.len() == 0,
{
    if !*is_name {
        proof {
            assert(views_of(tokens@) + Seq::<SpecToken>::empty() =~= views_of(tokens@));
        }
        return ;
    }
    *is_name = false;
    proof {
        lemma_views_push(tokens@, Token::Name(*curr_name));
    }
    tokens.push(Token::Name(curr_name.clone()));
    *curr_name = String::new();
}

/// Converts the text into an ordered token list, appended to `tokens`.
/// Succeeds exactly when [`spec_tokenize`] does, appending exactly the tokens
/// it names; the one failure is a digit run whose value does not fit in a
/// signed 32-bit integer.
pub fn tokenize(tokens: &mut Vec<Token>, prog: &str) -> (r: Result<(), ParseError>)
    ensures
        match spec_tokenize(prog@) {
            Ok(ts) => r == Ok::<(), ParseError>(()) && views_of(final(tokens)@) == views_of(
                old(tokens)@,
            ) + ts,
            Err(e) => r == Err::<(), ParseError>(e) && views_of(old(tokens)@).is_prefix_of(
                views_of(final(tokens)@),
            ),
        },
{
    let ghost orig: Seq<SpecToken> = views_of(tokens@);
    let ghost mut emitted: Seq<SpecToken> = Seq::empty();
    let n = prog.unicode_len();
    let mut i: usize = 0;
    let mut is_int: bool = false;
    let mut curr_int = String::new();
    let mut is_name: bool = false;
    let mut curr_name = String::new();
    proof {
        assert(orig + emitted =~= orig);
        assert(prog@.skip(0) =~= prog@);
    }
    while i < n
        invariant
            n == prog@.len(),
            0 <= i <= n,
            all_digits(curr_int@),
            is_int <==> curr_int@.len() > 0,
            is_name <==> curr_name@.len() > 0,
            views_of(tokens@) == orig + emitted,
            orig == views_of(old(tokens)@),
            prepend(emitted, spec_tokenize_from(prog@.skip(i as int), curr_int@, curr_name@))
                == spec_tokenize(prog@),
        decreases n - i,
    {
        let ghost cs = prog@.skip(i as int);
        let c = prog.get_char(i);
        proof {
            assert(cs[0] == prog@[i as int]);
            assert(cs.skip(1) =~= prog@.skip(i as int + 1));
        }
        match c {
            '\n' | ' ' => {
                let ghost int0 = curr_int@;
                let ghost name0 = curr_name@;
                match flush_int_acc(tokens, &mut is_int, &mut curr_int) {
                    Err(e) => {
                        proof {
                            lemma_prefix_of_concat(orig, emitted);
                        }
                        return Err(e);
                    },
                    Ok(_) => {},
                }
                let ghost its = flush_int(int0)->Ok_0;
                flush_name_acc(tokens, &mut is_name, &mut curr_name);
                proof {
                    assert(curr_int@ =~= Seq::<char>::empty());
                    assert(curr_name@ =~= Seq::<char>::empty());
                    let step = its + flush_name(name0);
                    assert(views_of(tokens@) =~= orig + (emitted + step));
                    lemma_prepend_prepend(emitted, step, spec_tokenize_from(
                        prog@.skip(i as int + 1), Seq::empty(), Seq::empty()));
                    emitted = emitted + step;
                }
            },
            '+' | '-' | '/' | '*' | '!' | '~' | '(' | ')' | '^' => {
                let ghost int0 = curr_int@;
                let ghost name0 = curr_name@;
                match flush_int_acc(tokens, &mut is_int, &mut curr_int) {
                    Err(e) => {
                        proof {
                            lemma_prefix_of_concat(orig, emitted);
                        }
                        return Err(e);
                    },
                    Ok(_) => {},
                }
                let ghost its = flush_int(int0)->Ok_0;
                flush_name_acc(tokens, &mut is_name, &mut curr_name);
                let op = match c {
                    '+' => Token::Plus,
                    '-' => Token::Minus,
                    '/' => Token::Slash,
                    '*' => Token::Star,
                    '!' => Token::Bang,
                    '~' => Token::Tilde,
                    '(' => Token::OpenParen,
                    ')' => Token::CloseParen,
                    _ => Token::Caret,
                };
                proof {
                    assert(op@ == op_token(c));
                    lemma_views_push(tokens@, op);
                }
                tokens.push(op);
                proof {
                    assert(curr_int@ =~= Seq::<char>::empty());
                    assert(curr_name@ =~= Seq::<char>::empty());
                    let step = its + flush_name(name0) + seq![op_token(c)];
                    assert(views_of(tokens@) =~= orig + (emitted + step));
                    lemma_prepend_prepend(emitted, step, spec_tokenize_from(
                        prog@.skip(i as int + 1), Seq::empty(), Seq::empty()));
                    emitted = emitted + step;
                }
            },
            '0' | '1' | '2' | '3' | '4' | '5' | '6' | '7' | '8' | '9' => {
                let ghost int0 = curr_int@;
                let ghost name0 = curr_name@;
                if is_name {
                    // A run that began as a name absorbs the digit.
                    push_char(&mut curr_name, c);
                    proof {
                        assert(is_digit_char(c));
                        assert(curr_name@ =~= name0.push(c));
                    }
                } else {
                    is_int = true;
                    push_char(&mut curr_int, c);
                    proof {
                        assert(is_digit_char(c));
                        assert(all_digits(int0.push(c)));
                        assert(curr_int@ =~= int0.push(c));
                        assert(name0 =~= Seq::<char>::empty());
                    }
                }
            },
            _ => {
                let ghost int0 = curr_int@;
                let ghost name0 = curr_name@;
                match flush_int_acc(tokens, &mut is_int, &mut curr_int) {
                    Err(e) => {
                        proof {
                            lemma_prefix_of_concat(orig, emitted);
                        }
                        return Err(e);
                    },
                    Ok(_) => {},
                }
                let ghost its = flush_int(int0)->Ok_0;
                is_name = true;
                push_char(&mut curr_name, c);
                proof {
                    assert(!(c == '\n' || c == ' ') && !is_op_char(c) && !is_digit_char(c));
                    assert(curr_int@ =~= Seq::<char>::empty());
                    assert(curr_name@ =~= name0.push(c));
                    assert(views_of(tokens@) =~= orig + (emitted + its));
                    lemma_prepend_prepend(emitted, its, spec_tokenize_from(
                        prog@.skip(i as int + 1), Seq::empty(), name0.push(c)));
                    emitted = emitted + its;
                }
            },
        }
        i = i + 1;
    }
    proof {
        assert(prog@.skip(i as int) =~= Seq::<char>::empty());
    }
    let ghost int0 = curr_int@;
    let ghost name0 = curr_name@;
    flush_name_acc(tokens, &mut is_name, &mut curr_name);
    match flush_int_acc(tokens, &mut is_int, &mut curr_int) {
        Err(e) => {
            proof {
                assert(views_of(tokens@) =~= orig + (emitted + flush_name(name0)));
                lemma_prefix_of_concat(orig, emitted + flush_name(name0));
            }
            return Err(e);
        },
        Ok(_) => {},
    }
    proof {
        let its = flush_int(int0)->Ok_0;
        let step = flush_name(name0) + its;
        assert(views_of(tokens@) =~= orig + (emitted + step));
        lemma_prepend_prepend(emitted, flush_name(name0), flush_int(int0));
        assert(spec_tokenize(prog@) == Ok::<Seq<SpecToken>, ParseError>(emitted + step));
    }
    Ok(())
}

}
