//! The syntax tree as a mathematical value: every node with its text as a
//! sequence of characters and its children as sequences of nodes.
use crate::ast::{
    ArraySubscript, DictionaryEntry, ElseCond, Expr, ExprKind, IfStatement, LoopVariable, Stmt,
    StmtKind,
};
use crate::lexer::SourceLocation;
use crate::lexer::TokenType;
use crate::span::Span;
use vstd::prelude::*;

verus! {

pub struct ExprModel {
    pub id: nat,
    pub span: Span,
    pub kind: ExprKindModel,
}

#[allow(inconsistent_fields)]
pub enum ExprKindModel {
    Identifier { name: Seq<char>, name_location: SourceLocation },
    Number { digits: Seq<char> },
    Infix { left: Box<ExprModel>, operator: TokenType, right: Box<ExprModel> },
    Function { callee: Box<ExprModel>, arguments: Seq<ExprModel> },
    StringLiteral { value: Seq<char> },
    ArraySubscript { base: Box<ExprModel>, idx: Box<SubscriptModel> },
    Array { elements: Seq<ExprModel> },
    Unary { operator: TokenType, expr: Box<ExprModel> },
    Paren { expr: Box<ExprModel> },
    Choose { cond: Box<ExprModel>, lhs: Box<ExprModel>, rhs: Box<ExprModel> },
    Dictionary { entries: Seq<EntryModel> },
}

pub enum SubscriptModel {
    Index(ExprModel),
    Sublist { left: Option<ExprModel>, right: Option<ExprModel> },
}

pub struct EntryModel {
    pub key: Seq<char>,
    pub value: ExprModel,
}

pub struct StmtModel {
    pub id: nat,
    pub span: Span,
    pub kind: StmtKindModel,
}

#[allow(inconsistent_fields)]
pub enum StmtKindModel {
    Let { var: ExprModel, operator: TokenType, value: ExprModel },
    Call { name: Seq<char>, arguments: Seq<ExprModel> },
    Execute { arguments: Seq<ExprModel> },
    Return { value: Option<ExprModel> },
    If(IfModel),
    While { condition: ExprModel, body: Seq<StmtModel> },
    Function {
        name: Seq<char>,
        arguments: Seq<Seq<char>>,
        body: Seq<StmtModel>,
        overwrite: bool,
        abort: bool,
    },
    For { loop_variable: LoopVariableModel, range: ExprModel, body: Seq<StmtModel> },
    Try { body: Seq<StmtModel>, finally: Option<Seq<StmtModel>> },
    SetOption { option: Seq<char>, value: Option<Seq<char>> },
    Break,
    Empty,
}

pub struct IfModel {
    pub condition: ExprModel,
    pub then_branch: Seq<StmtModel>,
    pub else_cond: ElseModel,
}

pub enum ElseModel {
    NoElse,
    Else(Seq<StmtModel>),
    ElseIf(Box<IfModel>),
}

pub enum LoopVariableModel {
    Single(Seq<char>),
    List(Seq<Seq<char>>),
}

/// The texts of a list of strings.
pub open spec fn names_model(v: Seq<String>) -> Seq<Seq<char>> {
    Seq::new(v.len(), |i: int| v[i]@)
}

/// The models of a list of expressions, in order.
pub open spec fn exprs_model(v: Seq<Expr>) -> Seq<ExprModel> {
    Seq::new(v.len(), |i: int| v[i].model())
}

/// The models of a list of dictionary entries, in order.
pub open spec fn entries_model(v: Seq<DictionaryEntry>) -> Seq<EntryModel> {
    Seq::new(v.len(), |i: int| v[i].model())
}

/// The models of a list of statements, in order.
pub open spec fn stmts_model(v: Seq<Stmt>) -> Seq<StmtModel> {
    Seq::new(v.len(), |i: int| v[i].model())
}

pub open spec fn option_model(e: Option<Expr>) -> Option<ExprModel> {
    match e {
        Some(e) => Some(e.model()),
        None => None,
    }
}

impl DictionaryEntry {
    pub open spec fn model(&self) -> EntryModel {
        EntryModel { key: self.key@, value: self.value.model() }
    }
}

impl ArraySubscript {
    pub open spec fn model(&self) -> SubscriptModel {
        match self {
            ArraySubscript::Index(e) => SubscriptModel::Index(e.model()),
            ArraySubscript::Sublist(s) => SubscriptModel::Sublist {
                left: option_model(s.left),
                right: option_model(s.right),
            },
        }
    }
}

impl Expr {
    pub open spec fn model(&self) -> ExprModel {
        ExprModel { id: self.id.0 as nat, span: self.span, kind: self.kind.model() }
    }
}

impl ExprKind {
    /// The model of an expression's kind; each child is modelled as `Expr::model` does.
    #[verifier::opaque]
    pub open spec fn model(&self) -> ExprKindModel
        decreases self,
    {
        match self {
            ExprKind::Identifier(e) => ExprKindModel::Identifier {
                name: e.name@,
                name_location: e.name_location,
            },
            ExprKind::Number(e) => ExprKindModel::Number { digits: e.digits@ },
            ExprKind::Infix(e) => ExprKindModel::Infix {
                left: Box::new(
                    ExprModel {
                        id: e.left.id.0 as nat,
                        span: e.left.span,
                        kind: e.left.kind.model(),
                    },
                ),
                operator: e.operator,
                right: Box::new(
                    ExprModel {
                        id: e.right.id.0 as nat,
                        span: e.right.span,
                        kind: e.right.kind.model(),
                    },
                ),
            },
            ExprKind::Function(e) => ExprKindModel::Function {
                callee: Box::new(
                    ExprModel {
                        id: e.callee.id.0 as nat,
                        span: e.callee.span,
                        kind: e.callee.kind.model(),
                    },
                ),
                arguments: Seq::new(
                    e.arguments@.len(),
                    |i: int|
                        ExprModel {
                            id: e.arguments@[i].id.0 as nat,
                            span: e.arguments@[i].span,
                            kind: if 0 <= i < e.arguments@.len() {
                                e.arguments@[i].kind.model()
                            } else {
                                arbitrary()
                            },
                        },
                ),
            },
            ExprKind::StringLiteral(e) => ExprKindModel::StringLiteral { value: e.value@ },
            ExprKind::ArraySubscript(e) => ExprKindModel::ArraySubscript {
                base: Box::new(
                    ExprModel {
                        id: e.base.id.0 as nat,
                        span: e.base.span,
                        kind: e.base.kind.model(),
                    },
                ),
                idx: Box::new(
                    match *e.idx {
                        ArraySubscript::Index(x) => SubscriptModel::Index(
                            ExprModel { id: x.id.0 as nat, span: x.span, kind: x.kind.model() },
                        ),
                        ArraySubscript::Sublist(s) => SubscriptModel::Sublist {
                            left: match s.left {
                                Some(x) => Some(
                                    ExprModel {
                                        id: x.id.0 as nat,
                                        span: x.span,
                                        kind: x.kind.model(),
                                    },
                                ),
                                None => None,
                            },
                            right: match s.right {
                                Some(x) => Some(
                                    ExprModel {
                                        id: x.id.0 as nat,
                                        span: x.span,
                                        kind: x.kind.model(),
                                    },
                                ),
                                None => None,
                            },
                        },
                    },
                ),
            },
            ExprKind::Array(e) => ExprKindModel::Array {
                elements: Seq::new(
                    e.elements@.len(),
                    |i: int|
                        ExprModel {
                            id: e.elements@[i].id.0 as nat,
                            span: e.elements@[i].span,
                            kind: if 0 <= i < e.elements@.len() {
                                e.elements@[i].kind.model()
                            } else {
                                arbitrary()
                            },
                        },
                ),
            },
            ExprKind::Unary(e) => ExprKindModel::Unary {
                operator: e.operator,
                expr: Box::new(
                    ExprModel {
                        id: e.expr.id.0 as nat,
                        span: e.expr.span,
                        kind: e.expr.kind.model(),
                    },
                ),
            },
            ExprKind::Paren(e) => ExprKindModel::Paren {
                expr: Box::new(
                    ExprModel {
                        id: e.expr.id.0 as nat,
                        span: e.expr.span,
                        kind: e.expr.kind.model(),
                    },
                ),
            },
            ExprKind::Choose(e) => ExprKindModel::Choose {
                cond: Box::new(
                    ExprModel {
                        id: e.cond.id.0 as nat,
                        span: e.cond.span,
                        kind: e.cond.kind.model(),
                    },
                ),
                lhs: Box::new(
                    ExprModel { id: e.lhs.id.0 as nat, span: e.lhs.span, kind: e.lhs.kind.model() },
                ),
                rhs: Box::new(
                    ExprModel { id: e.rhs.id.0 as nat, span: e.rhs.span, kind: e.rhs.kind.model() },
                ),
            },
            ExprKind::Dictionary(e) => ExprKindModel::Dictionary {
                entries: Seq::new(
                    e.entries@.len(),
                    |i: int|
                        EntryModel {
                            key: e.entries@[i].key@,
                            value: ExprModel {
                                id: e.entries@[i].value.id.0 as nat,
                                span: e.entries@[i].value.span,
                                kind: if 0 <= i < e.entries@.len() {
                                    e.entries@[i].value.kind.model()
                                } else {
                                    arbitrary()
                                },
                            },
                        },
                ),
            },
        }
    }
}


impl ExprKind {
    /// The model of an expression's kind in terms of the models of its children.
    pub open spec fn by_parts(&self) -> ExprKindModel {
        match self {
            ExprKind::Identifier(e) => ExprKindModel::Identifier {
                name: e.name@,
                name_location: e.name_location,
            },
            ExprKind::Number(e) => ExprKindModel::Number { digits: e.digits@ },
            ExprKind::Infix(e) => ExprKindModel::Infix {
                left: Box::new(e.left.model()),
                operator: e.operator,
                right: Box::new(e.right.model()),
            },
            ExprKind::Function(e) => ExprKindModel::Function {
                callee: Box::new(e.callee.model()),
                arguments: exprs_model(e.arguments@),
            },
            ExprKind::StringLiteral(e) => ExprKindModel::StringLiteral { value: e.value@ },
            ExprKind::ArraySubscript(e) => ExprKindModel::ArraySubscript {
                base: Box::new(e.base.model()),
                idx: Box::new(e.idx.model()),
            },
            ExprKind::Array(e) => ExprKindModel::Array { elements: exprs_model(e.elements@) },
            ExprKind::Unary(e) => ExprKindModel::Unary {
                operator: e.operator,
                expr: Box::new(e.expr.model()),
            },
            ExprKind::Paren(e) => ExprKindModel::Paren { expr: Box::new(e.expr.model()) },
            ExprKind::Choose(e) => ExprKindModel::Choose {
                cond: Box::new(e.cond.model()),
                lhs: Box::new(e.lhs.model()),
                rhs: Box::new(e.rhs.model()),
            },
            ExprKind::Dictionary(e) => ExprKindModel::Dictionary {
                entries: entries_model(e.entries@),
            },
        }
    }

    /// The model of a kind is made of the models of its children.
    pub proof fn lemma_model(&self)
        ensures
            self.model() == self.by_parts(),
    {
        reveal(ExprKind::model);
        match self {
            ExprKind::Function(e) => {
                assert(self.model()->Function_arguments =~= exprs_model(e.arguments@));
            },
            ExprKind::Array(e) => {
                assert(self.model()->Array_elements =~= exprs_model(e.elements@));
            },
            ExprKind::Dictionary(e) => {
                assert(self.model()->Dictionary_entries =~= entries_model(e.entries@));
            },
            _ => {},
        }
    }
}

impl LoopVariable {
    pub open spec fn model(&self) -> LoopVariableModel {
        match self {
            LoopVariable::Single(name) => LoopVariableModel::Single(name@),
            LoopVariable::List(names) => LoopVariableModel::List(names_model(names@)),
        }
    }
}

impl Stmt {
    pub open spec fn model(&self) -> StmtModel {
        StmtModel { id: self.id.0 as nat, span: self.span, kind: self.kind.model() }
    }
}

impl ElseCond {
    pub open spec fn model(&self) -> ElseModel {
        match self {
            ElseCond::NoElse => ElseModel::NoElse,
            ElseCond::Else(stmts) => ElseModel::Else(stmts_model(stmts@)),
            ElseCond::ElseIf(stmt) => ElseModel::ElseIf(Box::new(stmt.model())),
        }
    }
}

impl IfStatement {
    /// The model of an `if` statement; each statement of its bodies is
    /// modelled as `Stmt::model` does.
    #[verifier::opaque]
    pub open spec fn model(&self) -> IfModel
        decreases self,
    {
        IfModel {
            condition: self.condition.model(),
            then_branch: Seq::new(
 self.then_branch@.len(),
 |i: int|
 StmtModel {
 id: self.then_branch@[i].id.0 as nat,
 span: self.then_branch@[i].span,
 kind: if 0 <= i < self.then_branch@.len() {
 self.then_branch@[i].kind.model()
 } else {
 arbitrary()
 },
 },
 ),
            else_cond: match self.else_cond {
                ElseCond::NoElse => ElseModel::NoElse,
                ElseCond::Else(stmts) => ElseModel::Else(Seq::new(
 stmts@.len(),
 |i: int|
 StmtModel {
 id: stmts@[i].id.0 as nat,
 span: stmts@[i].span,
 kind: if 0 <= i < stmts@.len() {
 stmts@[i].kind.model()
 } else {
 arbitrary()
 },
 },
 )),
                ElseCond::ElseIf(stmt) => ElseModel::ElseIf(Box::new(stmt.model())),
            },
        }
    }

    /// The model of an `if` statement in terms of the models of its parts.
    pub open spec fn by_parts(&self) -> IfModel {
        IfModel {
            condition: self.condition.model(),
            then_branch: stmts_model(self.then_branch@),
            else_cond: self.else_cond.model(),
        }
    }

    /// The model of an `if` statement is made of the models of its parts.
    pub proof fn lemma_model(&self)
        ensures
            self.model() == self.by_parts(),
    {
        reveal(IfStatement::model);
        reveal(StmtKind::model);
        assert(self.model().then_branch =~= stmts_model(self.then_branch@));
        match self.else_cond {
            ElseCond::Else(stmts) => {
                assert(self.model().else_cond->Else_0 =~= stmts_model(stmts@));
            },
            _ => {},
        }
    }
}

impl StmtKind {
    /// The model of a statement's kind; each statement of its bodies is
    /// modelled as `Stmt::model` does.
    #[verifier::opaque]
    pub open spec fn model(&self) -> StmtKindModel
        decreases self,
    {
        match self {
            StmtKind::Let(s) => StmtKindModel::Let {
                var: s.var.model(),
                operator: s.operator,
                value: s.value.model(),
            },
            StmtKind::Call(s) => StmtKindModel::Call {
                name: s.name@,
                arguments: exprs_model(s.arguments@),
            },
            StmtKind::Execute(s) => StmtKindModel::Execute {
                arguments: exprs_model(s.arguments@),
            },
            StmtKind::Return(s) => StmtKindModel::Return { value: option_model(s.value) },
            StmtKind::If(s) => StmtKindModel::If(s.model()),
            StmtKind::While(s) => StmtKindModel::While {
                condition: s.condition.model(),
                body: Seq::new(
 s.body@.len(),
 |i: int|
 StmtModel {
 id: s.body@[i].id.0 as nat,
 span: s.body@[i].span,
 kind: if 0 <= i < s.body@.len() {
 s.body@[i].kind.model()
 } else {
 arbitrary()
 },
 },
 ),
            },
            StmtKind::Function(s) => StmtKindModel::Function {
                name: s.name@,
                arguments: names_model(s.arguments@),
                body: Seq::new(
 s.body@.len(),
 |i: int|
 StmtModel {
 id: s.body@[i].id.0 as nat,
 span: s.body@[i].span,
 kind: if 0 <= i < s.body@.len() {
 s.body@[i].kind.model()
 } else {
 arbitrary()
 },
 },
 ),
                overwrite: s.overwrite,
                abort: s.abort,
            },
            StmtKind::For(s) => StmtKindModel::For {
                loop_variable: s.loop_variable.model(),
                range: s.range.model(),
                body: Seq::new(
 s.body@.len(),
 |i: int|
 StmtModel {
 id: s.body@[i].id.0 as nat,
 span: s.body@[i].span,
 kind: if 0 <= i < s.body@.len() {
 s.body@[i].kind.model()
 } else {
 arbitrary()
 },
 },
 ),
            },
            StmtKind::Try(s) => StmtKindModel::Try {
                body: Seq::new(
 s.body@.len(),
 |i: int|
 StmtModel {
 id: s.body@[i].id.0 as nat,
 span: s.body@[i].span,
 kind: if 0 <= i < s.body@.len() {
 s.body@[i].kind.model()
 } else {
 arbitrary()
 },
 },
 ),
                finally: match s.finally {
                    Some(f) => Some(Seq::new(
 f@.len(),
 |i: int|
 StmtModel {
 id: f@[i].id.0 as nat,
 span: f@[i].span,
 kind: if 0 <= i < f@.len() {
 f@[i].kind.model()
 } else {
 arbitrary()
 },
 },
 )),
                    None => None,
                },
            },
            StmtKind::SetOption(s) => StmtKindModel::SetOption {
                option: s.option@,
                value: match s.value {
                    Some(v) => Some(v@),
                    None => None,
                },
            },
            StmtKind::Break(_) => StmtKindModel::Break,
            StmtKind::Empty() => StmtKindModel::Empty,
        }
    }

    /// The model of a statement's kind in terms of the models of its parts.
    pub open spec fn by_parts(&self) -> StmtKindModel {
        match self {
            StmtKind::While(s) => StmtKindModel::While {
                condition: s.condition.model(),
                body: stmts_model(s.body@),
            },
            StmtKind::Function(s) => StmtKindModel::Function {
                name: s.name@,
                arguments: names_model(s.arguments@),
                body: stmts_model(s.body@),
                overwrite: s.overwrite,
                abort: s.abort,
            },
            StmtKind::For(s) => StmtKindModel::For {
                loop_variable: s.loop_variable.model(),
                range: s.range.model(),
                body: stmts_model(s.body@),
            },
            StmtKind::Try(s) => StmtKindModel::Try {
                body: stmts_model(s.body@),
                finally: match s.finally {
                    Some(f) => Some(stmts_model(f@)),
                    None => None,
                },
            },
            StmtKind::If(s) => StmtKindModel::If(s.by_parts()),
            StmtKind::Let(s) => StmtKindModel::Let {
                var: s.var.model(),
                operator: s.operator,
                value: s.value.model(),
            },
            StmtKind::Call(s) => StmtKindModel::Call {
                name: s.name@,
                arguments: exprs_model(s.arguments@),
            },
            StmtKind::Execute(s) => StmtKindModel::Execute {
                arguments: exprs_model(s.arguments@),
            },
            StmtKind::Return(s) => StmtKindModel::Return { value: option_model(s.value) },
            StmtKind::SetOption(s) => StmtKindModel::SetOption {
                option: s.option@,
                value: match s.value {
                    Some(v) => Some(v@),
                    None => None,
                },
            },
            StmtKind::Break(_) => StmtKindModel::Break,
            StmtKind::Empty() => StmtKindModel::Empty,
        }
    }

    /// The model of a kind is made of the models of its parts.
    pub proof fn lemma_model(&self)
        ensures
            self.model() == self.by_parts(),
    {
        reveal(StmtKind::model);
        reveal(IfStatement::model);
        match self {
            StmtKind::While(s) => {
                assert(self.model()->While_body =~= stmts_model(s.body@));
            },
            StmtKind::Function(s) => {
                assert(self.model()->Function_body =~= stmts_model(s.body@));
            },
            StmtKind::For(s) => {
                assert(self.model()->For_body =~= stmts_model(s.body@));
            },
            StmtKind::Try(s) => {
                assert(self.model()->Try_body =~= stmts_model(s.body@));
                match s.finally {
                    Some(f) => {
                        assert(self.model()->Try_finally->0 =~= stmts_model(f@));
                    },
                    None => {},
                }
            },
            StmtKind::If(s) => {
                s.lemma_model();
            },
            _ => {},
        }
    }
}

} // verus!
