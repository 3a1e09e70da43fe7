//! Renaming a variable: the edits that replace every occurrence of the
//! name under the cursor.
use crate::ast::{Expr, ExprKind, Stmt, StmtKind};
use crate::ast_model::{
    exprs_model, stmts_model, ExprKindModel, ExprModel, StmtKindModel, StmtModel,
};
use crate::grammar;
use crate::grammar::Input;
use crate::lexer::{
    token_position, Lexer, SourceLocation, SourcePosition, TokenPosition, TokenType,
};
use crate::parser::{first_holding, Parser, Program};
use crate::scanner::lex;
use crate::text::text_of;
use vstd::prelude::*;
use vstd::string::*;

verus! {

/// Replaces the text at `range` by `new_text`.
#[derive(PartialEq, Eq, Debug, Clone)]
pub struct TextEdit {
    pub range: TokenPosition,
    pub new_text: String,
}

pub struct TextEditModel {
    pub range: TokenPosition,
    pub new_text: Seq<char>,
}

impl TextEdit {
    pub open spec fn model(&self) -> TextEditModel {
        TextEditModel { range: self.range, new_text: self.new_text@ }
    }
}

pub open spec fn edits_model(v: Seq<TextEdit>) -> Seq<TextEditModel> {
    Seq::new(v.len(), |i: int| v[i].model())
}

/// Where the first `n` of the arguments `args` are the identifier `name`.
pub open spec fn argument_occurrences(args: Seq<ExprModel>, name: Seq<char>, n: int) -> Seq<
    SourceLocation,
>
    decreases n,
{
    if n <= 0 {
        seq![]
    } else {
        let before = argument_occurrences(args, name, n - 1);
        match args[n - 1].kind {
            ExprKindModel::Identifier { name: found, name_location } => if found == name {
                before.push(name_location)
            } else {
                before
            },
            _ => before,
        }
    }
}

/// Where `name` occurs as an argument of the `call` statements among the
/// first `n` of the statements `stmts`.
pub open spec fn occurrences(stmts: Seq<StmtModel>, name: Seq<char>, n: int) -> Seq<SourceLocation>
    decreases n,
{
    if n <= 0 {
        seq![]
    } else {
        let before = occurrences(stmts, name, n - 1);
        match stmts[n - 1].kind {
            StmtKindModel::Call { name: _, arguments } => before + argument_occurrences(
                arguments,
                name,
                arguments.len() as int,
            ),
            _ => before,
        }
    }
}

/// The edits that rename the identifier at `pos` of the text `src` to
/// `new_name`: one for each place where it is an argument of a `call`
/// statement of the program. There are none where no identifier stands at
/// `pos`, or where it is no such argument anywhere.
pub open spec fn rename_of(src: Seq<u8>, pos: SourcePosition, new_name: Seq<char>) -> Option<
    Seq<TextEditModel>,
> {
    let tokens = lex(src);
    let stmts = grammar::program(Input { src, tokens }, grammar::initial()).value->0;
    match first_holding(src, tokens, pos, 0) {
        None => None,
        Some(i) => if tokens[i].token_type != TokenType::Ident {
            None
        } else {
            let name = text_of(src, tokens[i].location.start as int, tokens[i].location.end as int);
            let places = occurrences(stmts, name, stmts.len() as int);
            if places.len() == 0 {
                None
            } else {
                Some(
                    Seq::new(
                        places.len(),
                        |k: int|
                            TextEditModel {
                                range: token_position(src, places[k]),
                                new_text: new_name,
                            },
                    ),
                )
            }
        },
    }
}

pub open spec fn result_model(r: Result<Vec<TextEdit>, ()>) -> Option<Seq<TextEditModel>> {
    match r {
        Ok(edits) => Some(edits_model(edits@)),
        Err(_) => None,
    }
}

pub fn rename(source: &str, pos: SourcePosition, new_name: &str) -> (r: Result<Vec<TextEdit>, ()>)
    ensures
        result_model(r) == rename_of(source.spec_bytes(), pos, new_name@),
{
    let mut parser = Parser::new(Lexer::new(source));
    let program = parser.parse();
    let mut rename_op = Rename::new();
    let token = match parser.find_token(pos) {
        Ok(token) => token,
        Err(_) => return Err(()),
    };
    if token.token_type != TokenType::Ident {
        return Err(());
    }
    proof {
        let i = first_holding(parser.l.src(), parser.tokens@, pos, 0)->0;
        lemma_first_holding(parser.l.src(), parser.tokens@, pos, 0);
        parser.lemma_token(i);
    }
    let name = parser.identifier_name(&token);
    rename_op.visit(&program, name.as_str());
    rename_op.rename(&parser, new_name)
}

/// Where a token holds a position, it is one of the tokens.
proof fn lemma_first_holding(
    src: Seq<u8>,
    tokens: Seq<crate::lexer::Token>,
    pos: SourcePosition,
    from: int,
)
    requires
        0 <= from,
    ensures
        first_holding(src, tokens, pos, from) matches Some(i) ==> from <= i < tokens.len(),
    decreases tokens.len() - from,
{
    if from < tokens.len() && !crate::parser::holds(src, tokens[from], pos) {
        lemma_first_holding(src, tokens, pos, from + 1);
    }
}

/// The places of a name that were found so far.
pub struct Rename {
    pub places: Vec<SourceLocation>,
}

impl Rename {
    pub fn new() -> (r: Rename)
        ensures
            r.places@.len() == 0,
    {
        return Rename { places: Vec::new() };
    }

    /// Finds the places of `name` in `program`.
    pub fn visit(&mut self, program: &Program, name: &str)
        ensures
            final(self).places@ == old(self).places@ + occurrences(
                stmts_model(program.statements@),
                name@,
                program.statements@.len() as int,
            ),
    {
        let ghost stmts = stmts_model(program.statements@);
        let mut i: usize = 0;
        while i < program.statements.len()
            invariant
                i <= program.statements@.len(),
                stmts == stmts_model(program.statements@),
                self.places@ == old(self).places@ + occurrences(stmts, name@, i as int),
            decreases program.statements@.len() - i,
        {
            self.visit_statement(&program.statements[i], name);
            proof {
                assert(stmts[i as int] == program.statements@[i as int].model());
                assert(self.places@ =~= old(self).places@ + occurrences(stmts, name@, i + 1));
            }
            i = i + 1;
        }
    }

    /// Finds the places of `name` among the arguments of `stmt`, if it is a call.
    pub fn visit_statement(&mut self, stmt: &Stmt, name: &str)
        ensures
            final(self).places@ == old(self).places@ + match stmt.model().kind {
                StmtKindModel::Call { name: _, arguments } => argument_occurrences(
                    arguments,
                    name@,
                    arguments.len() as int,
                ),
                _ => seq![],
            },
    {
        proof {
            stmt.kind.lemma_model();
        }
        match &stmt.kind {
            StmtKind::Call(call) => {
                let ghost args = exprs_model(call.arguments@);
                let mut i: usize = 0;
                while i < call.arguments.len()
                    invariant
                        i <= call.arguments@.len(),
                        args == exprs_model(call.arguments@),
                        self.places@ == old(self).places@ + argument_occurrences(
                            args,
                            name@,
                            i as int,
                        ),
                    decreases call.arguments@.len() - i,
                {
                    self.visit_expression(&call.arguments[i], name);
                    proof {
                        assert(args[i as int] == call.arguments@[i as int].model());
                        assert(self.places@ =~= old(self).places@ + argument_occurrences(
                            args,
                            name@,
                            i + 1,
                        ));
                    }
                    i = i + 1;
                }
            },
            _ => {
                assert(self.places@ =~= old(self).places@ + Seq::<SourceLocation>::empty());
            },
        }
    }

    /// Notes the place of `expr` if it is the identifier `name`.
    pub fn visit_expression(&mut self, expr: &Expr, name: &str)
        ensures
            final(self).places@ == match expr.model().kind {
                ExprKindModel::Identifier { name: found, name_location } => if found == name@ {
                    old(self).places@.push(name_location)
                } else {
                    old(self).places@
                },
                _ => old(self).places@,
            },
    {
        proof {
            expr.kind.lemma_model();
        }
        match &expr.kind {
            ExprKind::Identifier(e) => {
                if crate::text::same_text(e.name(), name) {
                    self.places.push(*e.name_location());
                }
            },
            _ => {},
        }
    }

    /// The edits that put `new_name` at every place that was found; none
    /// where no place was found.
    pub fn rename(&self, parser: &Parser, new_name: &str) -> (r: Result<Vec<TextEdit>, ()>)
        ensures
            result_model(r) == if self.places@.len() == 0 {
                None
            } else {
                Some(
                    Seq::new(
                        self.places@.len(),
                        |k: int|
                            TextEditModel {
                                range: token_position(parser.l.src(), self.places@[k]),
                                new_text: new_name@,
                            },
                    ),
                )
            },
    {
        if self.places.len() == 0 {
            return Err(());
        }
        let mut edits: Vec<TextEdit> = Vec::new();
        let mut i: usize = 0;
        while i < self.places.len()
            invariant
                i <= self.places@.len(),
                edits@.len() == i,
                forall|k: int|
                    0 <= k < i ==> (#[trigger] edits@[k]).model() == (TextEditModel {
                        range: token_position(parser.l.src(), self.places@[k]),
                        new_text: new_name@,
                    }),
            decreases self.places@.len() - i,
        {
            edits.push(
                TextEdit {
                    new_text: String::from_str(new_name),
                    range: parser.resolve_location(self.places[i]),
                },
            );
            i = i + 1;
        }
        proof {
            assert(edits_model(edits@) =~= Seq::new(
                self.places@.len(),
                |k: int|
                    TextEditModel {
                        range: token_position(parser.l.src(), self.places@[k]),
                        new_text: new_name@,
                    },
            ));
        }
        Ok(edits)
    }
}

} // verus!
