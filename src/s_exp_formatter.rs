use vstd::prelude::*;

use crate::text::{
    chars_of, chars_view, copy_range, push_all, string_of, trim, trim_chars,
};

verus! {

/// Characters after which the raw text is cut into pieces (each kept at the end of its piece).
pub open spec fn is_cut(c: char) -> bool {
    c == '(' || c == ')' || c == ':' || c == ' '
}

/// A one-element token list, or none for an empty fragment.
pub open spec fn non_empty(t: Seq<char>) -> Seq<Seq<char>> {
    if t.len() == 0 {
        seq![]
    } else {
        seq![t]
    }
}

/// The tokens of one piece: a name before an opening or closing parenthesis, then the
/// parenthesis; otherwise the trimmed piece itself (an atom or a field label).
pub open spec fn piece_tokens(p: Seq<char>) -> Seq<Seq<char>> {
    if p.len() > 0 && (p.last() == '(' || p.last() == ')') {
        non_empty(trim(p.drop_last())) + seq![seq![p.last()]]
    } else {
        non_empty(trim(p))
    }
}

/// Tokens of the completed pieces of `s`, and the piece still open at its end.
pub open spec fn scan(s: Seq<char>) -> (Seq<Seq<char>>, Seq<char>)
    decreases s.len(),
{
    if s.len() == 0 {
        (seq![], seq![])
    } else {
        let (toks, cur) = scan(s.drop_last());
        let c = s.last();
        if is_cut(c) {
            (toks + piece_tokens(cur.push(c)), seq![])
        } else {
            (toks, cur.push(c))
        }
    }
}

/// The token stream of a raw S-expression.
pub open spec fn tokens_of(s: Seq<char>) -> Seq<Seq<char>> {
    let (toks, cur) = scan(trim(s));
    toks + piece_tokens(cur)
}

/// The token at position `k`, or an empty one outside the stream.
pub open spec fn tok_at(t: Seq<Seq<char>>, k: int) -> Seq<char> {
    if 0 <= k < t.len() {
        t[k]
    } else {
        seq![]
    }
}

pub open spec fn is_label(tok: Seq<char>) -> bool {
    tok.len() > 0 && tok.last() == ':'
}

pub open spec fn dec(n: nat) -> nat {
    if n == 0 {
        0
    } else {
        (n - 1) as nat
    }
}

/// Two spaces per level.
pub open spec fn indent(n: nat) -> Seq<char>
    decreases n,
{
    if n == 0 {
        seq![]
    } else {
        indent((n - 1) as nat) + seq![' ', ' ']
    }
}

/// Appends the indentation of level `n` to `out`.
fn push_indent(out: &mut Vec<char>, n: usize)
    ensures
        final(out)@ == old(out)@ + indent(n as nat),
{
    let mut k: usize = 0;
    while k < n
        invariant
            k <= n,
            out@ == old(out)@ + indent(k as nat),
        decreases n - k,
    {
        out.push(' ');
        out.push(' ');
        k += 1;
        assert(out@ =~= old(out)@ + indent(k as nat));
    }
}

/// What the token at `i` appends to the output, and the indentation level after it.
pub open spec fn emit_step(t: Seq<Seq<char>>, i: int, out: Seq<char>, lvl: nat) -> (
    Seq<char>,
    nat,
) {
    let tok = t[i];
    if tok == seq!['('] {
        (out.push('('), if tok_at(t, i + 2) != seq![')'] {
            lvl + 1
        } else {
            lvl
        })
    } else if tok == seq![')'] {
        let lvl2 = if tok_at(t, i - 2) == seq!['('] {
            lvl
        } else {
            dec(lvl)
        };
        let pad = if tok_at(t, i + 1) == seq!['('] {
            lvl2
        } else {
            dec(lvl2)
        };
        (out + seq![')', '\n'] + indent(pad), lvl2)
    } else if is_label(tok) {
        let prev = tok_at(t, i - 1);
        let sep = if prev == seq!['('] || prev == seq![')'] || is_label(prev) {
            seq![' ', ' ']
        } else {
            seq![]
        };
        (out + sep + tok.push(' '), lvl)
    } else if tok_at(t, i + 1) == seq![')'] {
        (out + tok, lvl)
    } else {
        (out + tok.push('\n') + indent(lvl), lvl)
    }
}

/// Output and indentation level after the first `n` tokens.
pub open spec fn emit(t: Seq<Seq<char>>, n: nat) -> (Seq<char>, nat)
    decreases n,
{
    if n == 0 {
        (seq![], 0)
    } else {
        let (out, lvl) = emit(t, (n - 1) as nat);
        emit_step(t, n - 1, out, lvl)
    }
}

/// The canonical indented rendering of a raw S-expression.
pub open spec fn format_s_expr_spec(s: Seq<char>) -> Seq<char> {
    let t = tokens_of(s);
    emit(t, t.len()).0
}

/// Appends the tokens of piece `p` to `toks`.
fn push_piece_tokens(toks: &mut Vec<Vec<char>>, p: &Vec<char>)
    ensures
        chars_view(final(toks)@) == chars_view(old(toks)@) + piece_tokens(p@),
{
    let n = p.len();
    if n > 0 && (p[n - 1] == '(' || p[n - 1] == ')') {
        let head = copy_range(p, 0, n - 1);
        let name = trim_chars(&head);
        assert(head@ =~= p@.drop_last());
        if name.len() > 0 {
            toks.push(name);
        }
        let mut par: Vec<char> = Vec::new();
        par.push(p[n - 1]);
        toks.push(par);
    } else {
        let t = trim_chars(p);
        if t.len() > 0 {
            toks.push(t);
        }
    }
    assert(chars_view(toks@) =~= chars_view(old(toks)@) + piece_tokens(p@));
}

/// Cuts a raw S-expression into its token stream.
pub fn tokenize(s: &Vec<char>) -> (r: Vec<Vec<char>>)
    ensures
        chars_view(r@) == tokens_of(s@),
{
    let t = trim_chars(s);
    let mut toks: Vec<Vec<char>> = Vec::new();
    let mut cur: Vec<char> = Vec::new();
    let mut i: usize = 0;
    assert(t@.subrange(0, 0) =~= Seq::<char>::empty());
    while i < t.len()
        invariant
            i <= t.len(),
            (chars_view(toks@), cur@) == scan(t@.subrange(0, i as int)),
        decreases t.len() - i,
    {
        let c = t[i];
        assert(t@.subrange(0, i + 1).drop_last() =~= t@.subrange(0, i as int));
        cur.push(c);
        if c == '(' || c == ')' || c == ':' || c == ' ' {
            push_piece_tokens(&mut toks, &cur);
            cur = Vec::new();
        }
        i += 1;
    }
    assert(t@.subrange(0, t.len() as int) =~= t@);
    push_piece_tokens(&mut toks, &cur);
    toks
}

/// Whether the token at `k` is the single character `c`.
fn tok_is(t: &Vec<Vec<char>>, k: usize, c: char) -> (r: bool)
    ensures
        r == (tok_at(chars_view(t@), k as int) == seq![c]),
{
    let ghost one: Seq<char> = seq![c];
    assert(one.len() == 1 && one[0] == c);
    if k < t.len() {
        let tok = &t[k];
        assert(chars_view(t@)[k as int] == tok@);
        if tok.len() == 1 && tok[0] == c {
            assert(tok@ =~= one);
            true
        } else {
            false
        }
    } else {
        assert(tok_at(chars_view(t@), k as int).len() == 0);
        false
    }
}

fn tok_is_label(t: &Vec<Vec<char>>, k: usize) -> (r: bool)
    requires
        k < t.len(),
    ensures
        r == is_label(chars_view(t@)[k as int]),
{
    let tok = &t[k];
    tok.len() > 0 && tok[tok.len() - 1] == ':'
}

proof fn lemma_emit_level(t: Seq<Seq<char>>, n: nat)
    ensures
        emit(t, n).1 <= n,
    decreases n,
{
    if n > 0 {
        lemma_emit_level(t, (n - 1) as nat);
    }
}

/// Renders a token stream with the indentation rules.
pub fn emit_tokens(t: &Vec<Vec<char>>) -> (r: Vec<char>)
    ensures
        r@ == emit(chars_view(t@), t.len() as nat).0,
{
    let ghost tv = chars_view(t@);
    let mut out: Vec<char> = Vec::new();
    let mut lvl: usize = 0;
    let mut i: usize = 0;
    while i < t.len()
        invariant
            i <= t.len(),
            tv == chars_view(t@),
            (out@, lvl as nat) == emit(tv, i as nat),
        decreases t.len() - i,
    {
        proof {
            lemma_emit_level(tv, i as nat);
        }
        if tok_is(t, i, '(') {
            out.push('(');
            if !(t.len() - i > 2 && tok_is(t, i + 2, ')')) {
                lvl += 1;
            }
        } else if tok_is(t, i, ')') {
            let leaf = i >= 2 && tok_is(t, i - 2, '(');
            if !leaf && lvl > 0 {
                lvl -= 1;
            }
            out.push(')');
            out.push('\n');
            if tok_is(t, i + 1, '(') {
                push_indent(&mut out, lvl);
            } else if lvl > 0 {
                push_indent(&mut out, lvl - 1);
            }
        } else if tok_is_label(t, i) {
            let spaced = (i >= 1 && (tok_is(t, i - 1, '(') || tok_is(t, i - 1, ')') || tok_is_label(t, i - 1)));
            if spaced {
                out.push(' ');
                out.push(' ');
            }
            push_all(&mut out, &t[i]);
            out.push(' ');
        } else if tok_is(t, i + 1, ')') {
            push_all(&mut out, &t[i]);
        } else {
            push_all(&mut out, &t[i]);
            out.push('\n');
            push_indent(&mut out, lvl);
        }
        i += 1;
    }
    out
}

/// Re-indents a raw S-expression: leaf nodes on one line, the children of a branch one
/// level deeper, a field label on the line of the node it labels.
pub fn format_s_expr(input: &str) -> (r: String)
    ensures
        r@ == format_s_expr_spec(input@),
{
    let cs = chars_of(input);
    string_of(&format_s_expr_chars(&cs))
}

/// [`format_s_expr`] on a character vector.
pub fn format_s_expr_chars(s: &Vec<char>) -> (r: Vec<char>)
    ensures
        r@ == format_s_expr_spec(s@),
{
    let t = tokenize(s);
    emit_tokens(&t)
}

} // verus!
