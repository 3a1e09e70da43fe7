//! Rendering a program as text, in pieces: the texts to be written one
//! after the other, and the number literals among them, which are left to
//! be rendered by whoever joins the pieces.
use crate::ast::{ElseCond, Expr, ExprKind, IfStatement, Stmt, StmtKind};
use crate::parser::Program;
use vstd::prelude::*;
use vstd::string::*;

verus! {

/// A piece of formatted text.
#[derive(PartialEq, Eq, Debug, Clone)]
pub enum Piece {
    /// Text that is written as it stands.
    Text(String),
    /// A number literal, given by its digits.
    Number(String),
}

pub enum PieceModel {
    Text(Seq<char>),
    Number(Seq<char>),
}

impl Piece {
    pub open spec fn model(&self) -> PieceModel {
        match self {
            Piece::Text(s) => PieceModel::Text(s@),
            Piece::Number(s) => PieceModel::Number(s@),
        }
    }
}

pub open spec fn pieces_model(v: Seq<Piece>) -> Seq<PieceModel> {
    Seq::new(v.len(), |i: int| v[i].model())
}

/// The piece that holds the text of the literal `s`.
pub open spec fn text(s: Seq<char>) -> Seq<PieceModel> {
    seq![PieceModel::Text(s)]
}

/// The indentation of the nesting level `level`: two spaces for each level.
pub open spec fn indentation(level: nat) -> Seq<char> {
    Seq::new(2 * level, |i: int| ' ')
}

/// The pieces of an expression: an identifier or a number. Other
/// expressions cannot be formatted.
pub open spec fn expr_pieces(e: Expr) -> Option<Seq<PieceModel>> {
    match e.kind {
        ExprKind::Identifier(x) => Some(text(x.name@)),
        ExprKind::Number(x) => Some(seq![PieceModel::Number(x.digits@)]),
        _ => None,
    }
}

/// `a` followed by `b`, if both are there.
pub open spec fn both(a: Option<Seq<PieceModel>>, b: Option<Seq<PieceModel>>) -> Option<
    Seq<PieceModel>,
> {
    match (a, b) {
        (Some(x), Some(y)) => Some(x + y),
        _ => None,
    }
}

/// The pieces of a list of statements at the nesting level `level`.
pub open spec fn stmts_pieces(v: Seq<Stmt>, level: nat) -> Option<Seq<PieceModel>>
    decreases v, 1nat,
{
    if v.len() == 0 {
        Some(seq![])
    } else {
        both(stmts_pieces(v.drop_last(), level), stmt_pieces(v.last(), level))
    }
}

/// The pieces of a statement at the nesting level `level`: a function
/// without its parameters, an `if`, a `let` with `=`, or a `return`
/// without its value. Other statements cannot be formatted.
pub open spec fn stmt_pieces(s: Stmt, level: nat) -> Option<Seq<PieceModel>>
    decreases s, 0nat,
{
    let indent = text(indentation(level));
    match s.kind {
        StmtKind::Function(f) => both(
            both(
                Some(indent + text("function "@) + text(f.name@) + text("()\n"@)),
                stmts_pieces(f.body@, level + 1),
            ),
            Some(indent + text("endfunction\n"@)),
        ),
        StmtKind::If(x) => both(
            both(
                both(Some(indent + text("if "@)), expr_pieces(x.condition)),
                both(Some(text("\n"@)), if_pieces(x, level)),
            ),
            Some(text("endif\n"@)),
        ),
        StmtKind::Let(x) => both(
            both(
                both(Some(indent + text("let "@)), expr_pieces(*x.var)),
                both(Some(text(" "@) + text("="@) + text(" "@)), expr_pieces(*x.value)),
            ),
            Some(text("\n"@)),
        ),
        StmtKind::Return(_) => Some(indent + text("return"@) + text("\n"@)),
        _ => None,
    }
}

/// The pieces of what follows the condition of an `if` or `elseif` up to
/// `endif`: the body one level deeper, then `else` and its body, or
/// `elseif` with its condition and what follows it, and the indentation.
pub open spec fn if_pieces(s: IfStatement, level: nat) -> Option<Seq<PieceModel>>
    decreases s, 0nat,
{
    let indent = text(indentation(level));
    both(
        both(
            stmts_pieces(s.then_branch@, level + 1),
            match s.else_cond {
                ElseCond::Else(stmts) => both(
                    Some(indent + text("else\n"@)),
                    stmts_pieces(stmts@, level + 1),
                ),
                ElseCond::ElseIf(inner) => both(
                    both(Some(text("elseif "@)), expr_pieces(inner.condition)),
                    both(Some(text("\n"@)), if_pieces(*inner, level)),
                ),
                ElseCond::NoElse => Some(seq![]),
            },
        ),
        Some(indent),
    )
}

/// The pieces of a program.
pub open spec fn program_pieces(p: Program) -> Option<Seq<PieceModel>> {
    stmts_pieces(p.statements@, 0)
}

pub open spec fn result_model(r: Option<Vec<Piece>>) -> Option<Seq<PieceModel>> {
    match r {
        Some(v) => Some(pieces_model(v@)),
        None => None,
    }
}

/// `out` with `more` after it, if there is more.
pub open spec fn extended(out: Seq<Piece>, more: Option<Seq<PieceModel>>) -> Option<
    Seq<PieceModel>,
> {
    both(Some(pieces_model(out)), more)
}

/// The pieces of the formatted program, or nothing where the program
/// holds a statement or an expression that cannot be formatted.
pub fn format(program: &Program) -> (r: Option<Vec<Piece>>)
    ensures
        result_model(r) == program_pieces(*program),
{
    let out: Vec<Piece> = Vec::new();
    let indent = String::from_str("");
    proof {
        reveal_strlit("");
        assert(indent@ =~= indentation(0));
        assert(pieces_model(out@) =~= Seq::<PieceModel>::empty());
    }
    let r = format_stmts(&program.statements, indent.as_str(), Ghost(0), out);
    proof {
        match stmts_pieces(program.statements@, 0) {
            Some(x) => {
                assert(Seq::<PieceModel>::empty() + x =~= x);
            },
            None => {},
        }
    }
    r
}

fn write(out: Vec<Piece>, s: &str) -> (r: Vec<Piece>)
    ensures
        pieces_model(r@) == pieces_model(out@) + text(s@),
{
    let mut out = out;
    let ghost before = out@;
    out.push(Piece::Text(String::from_str(s)));
    proof {
        assert(pieces_model(out@) =~= pieces_model(before) + text(s@));
    }
    out
}

fn format_expression(expr: &Expr, out: Vec<Piece>) -> (r: Option<Vec<Piece>>)
    ensures
        result_model(r) == extended(out@, expr_pieces(*expr)),
{
    let mut out = out;
    let ghost before = out@;
    match &expr.kind {
        ExprKind::Identifier(e) => {
            out.push(Piece::Text(String::from_str(e.name())));
            proof {
                assert(pieces_model(out@) =~= pieces_model(before) + text(e.name@));
            }
            Some(out)
        },
        ExprKind::Number(e) => {
            out.push(Piece::Number(String::from_str(e.digits())));
            proof {
                assert(pieces_model(out@) =~= pieces_model(before) + seq![
                    PieceModel::Number(e.digits@),
                ]);
            }
            Some(out)
        },
        _ => None,
    }
}

fn format_stmts(stmts: &Vec<Stmt>, indent: &str, Ghost(level): Ghost<nat>, out: Vec<Piece>) -> (r:
    Option<Vec<Piece>>)
    requires
        indent@ == indentation(level),
    ensures
        result_model(r) == extended(out@, stmts_pieces(stmts@, level)),
    decreases stmts, 1nat,
{
    let mut out = out;
    let ghost start = out@;
    let mut i: usize = 0;
    proof {
        assert(stmts@.take(0) =~= Seq::<Stmt>::empty());
        assert(pieces_model(start) + Seq::<PieceModel>::empty() =~= pieces_model(start));
    }
    while i < stmts.len()
        invariant
            i <= stmts@.len(),
            indent@ == indentation(level),
            Some(pieces_model(out@)) == extended(start, stmts_pieces(stmts@.take(i as int), level)),
        decreases stmts@.len() - i,
    {
        proof {
            let v = stmts@.take(i + 1);
            assert(v.drop_last() =~= stmts@.take(i as int));
            assert(v.last() == stmts@[i as int]);
        }
        let ghost before = out@;
        out =
        match format_stmt(&stmts[i], indent, Ghost(level), out) {
            Some(out) => out,
            None => {
                proof {
                    lemma_none_stays(stmts@, i + 1, level);
                }
                return None;
            },
        };
        proof {
            let a = stmts_pieces(stmts@.take(i as int), level)->0;
            let b = stmt_pieces(stmts@[i as int], level)->0;
            assert(pieces_model(start) + a + b =~= pieces_model(start) + (a + b));
        }
        i = i + 1;
    }
    proof {
        assert(stmts@.take(stmts@.len() as int) =~= stmts@);
    }
    Some(out)
}

/// Where the first `n` statements cannot be formatted, the list cannot.
proof fn lemma_none_stays(v: Seq<Stmt>, n: int, level: nat)
    requires
        0 <= n <= v.len(),
        stmts_pieces(v.take(n), level) is None,
    ensures
        stmts_pieces(v, level) is None,
    decreases v.len() - n,
{
    if n < v.len() {
        let w = v.take(n + 1);
        assert(w.drop_last() =~= v.take(n));
        lemma_none_stays(v, n + 1, level);
    } else {
        assert(v.take(n) =~= v);
    }
}

/// The indentation one level deeper.
fn deeper(indent: &str, Ghost(level): Ghost<nat>) -> (r: String)
    requires
        indent@ == indentation(level),
    ensures
        r@ == indentation(level + 1),
{
    proof {
        reveal_strlit("  ");
    }
    let r = String::from_str(indent).concat("  ");
    proof {
        assert(r@ =~= indentation(level + 1));
    }
    r
}

fn format_stmt(stmt: &Stmt, indent: &str, Ghost(level): Ghost<nat>, out: Vec<Piece>) -> (r:
    Option<Vec<Piece>>)
    requires
        indent@ == indentation(level),
    ensures
        result_model(r) == extended(out@, stmt_pieces(*stmt, level)),
    decreases stmt, 0nat,
{
    let ghost start = pieces_model(out@);
    let ghost margin = text(indentation(level));
    match &stmt.kind {
        StmtKind::Function(s) => {
            let out = write(out, indent);
            let out = write(out, "function ");
            let out = write(out, s.name.as_str());
            let out = write(out, "()\n");
            let inner = deeper(indent, Ghost(level));
            let out = match format_stmts(&s.body, inner.as_str(), Ghost(level + 1), out) {
                Some(out) => out,
                None => return None,
            };
            let out = write(out, indent);
            let out = write(out, "endfunction\n");
            proof {
                let head = margin + text("function "@) + text(s.name@) + text("()\n"@);
                let body = stmts_pieces(s.body@, level + 1)->0;
                let tail = margin + text("endfunction\n"@);
                assert(pieces_model(out@) =~= start + (head + body + tail));
            }
            Some(out)
        },
        StmtKind::If(s) => {
            let out = write(out, indent);
            let out = write(out, "if ");
            let out = match format_expression(&s.condition, out) {
                Some(out) => out,
                None => return None,
            };
            let out = write(out, "\n");
            let out = match format_if_statement_internal(s, indent, Ghost(level), out) {
                Some(out) => out,
                None => return None,
            };
            let out = write(out, "endif\n");
            proof {
                let a = margin + text("if "@);
                let b = expr_pieces(s.condition)->0;
                let c = text("\n"@);
                let d = if_pieces(*s, level)->0;
                let e = text("endif\n"@);
                assert(pieces_model(out@) =~= start + (((a + b) + (c + d)) + e));
            }
            Some(out)
        },
        StmtKind::Let(s) => {
            let out = write(out, indent);
            let out = write(out, "let ");
            let out = match format_expression(&s.var, out) {
                Some(out) => out,
                None => return None,
            };
            let out = write(out, " ");
            let out = write(out, "=");
            let out = write(out, " ");
            let out = match format_expression(&s.value, out) {
                Some(out) => out,
                None => return None,
            };
            let out = write(out, "\n");
            proof {
                let a = margin + text("let "@);
                let b = expr_pieces(*s.var)->0;
                let c = text(" "@) + text("="@) + text(" "@);
                let d = expr_pieces(*s.value)->0;
                let e = text("\n"@);
                assert(pieces_model(out@) =~= start + (((a + b) + (c + d)) + e));
            }
            Some(out)
        },
        StmtKind::Return(_) => {
            let out = write(out, indent);
            let out = write(out, "return");
            let out = write(out, "\n");
            proof {
                assert(pieces_model(out@) =~= start + (margin + text("return"@) + text("\n"@)));
            }
            Some(out)
        },
        _ => None,
    }
}

fn format_if_statement_internal(
    stmt: &IfStatement,
    indent: &str,
    Ghost(level): Ghost<nat>,
    out: Vec<Piece>,
) -> (r: Option<Vec<Piece>>)
    requires
        indent@ == indentation(level),
    ensures
        result_model(r) == extended(out@, if_pieces(*stmt, level)),
    decreases stmt, 0nat,
{
    let ghost start = pieces_model(out@);
    let ghost margin = text(indentation(level));
    let inner = deeper(indent, Ghost(level));
    let out = match format_stmts(&stmt.then_branch, inner.as_str(), Ghost(level + 1), out) {
        Some(out) => out,
        None => return None,
    };
    let ghost body = stmts_pieces(stmt.then_branch@, level + 1)->0;
    match &stmt.else_cond {
        ElseCond::Else(stmts) => {
            let out = write(out, indent);
            let out = write(out, "else\n");
            let out = match format_stmts(stmts, inner.as_str(), Ghost(level + 1), out) {
                Some(out) => out,
                None => return None,
            };
            let out = write(out, indent);
            proof {
                let a = margin + text("else\n"@);
                let b = stmts_pieces(stmts@, level + 1)->0;
                assert(pieces_model(out@) =~= start + ((body + (a + b)) + margin));
            }
            Some(out)
        },
        ElseCond::ElseIf(next) => {
            let out = write(out, "elseif ");
            let out = match format_expression(&next.condition, out) {
                Some(out) => out,
                None => return None,
            };
            let out = write(out, "\n");
            let out = match format_if_statement_internal(next, indent, Ghost(level), out) {
                Some(out) => out,
                None => return None,
            };
            let out = write(out, indent);
            proof {
                let a = text("elseif "@);
                let b = expr_pieces(next.condition)->0;
                let c = text("\n"@);
                let d = if_pieces(**next, level)->0;
                assert(pieces_model(out@) =~= start + ((body + ((a + b) + (c + d))) + margin));
            }
            Some(out)
        },
        ElseCond::NoElse => {
            let out = write(out, indent);
            proof {
                assert(pieces_model(out@) =~= start + ((body + Seq::<PieceModel>::empty())
                    + margin));
            }
            Some(out)
        },
    }
}

} // verus!
