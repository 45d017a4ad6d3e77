//! The nodes of the syntax tree, each with the text of its defining token and
//! a canonical rendering of its subtree.
use vstd::prelude::*;
use vstd::string::StringExecFns;
use crate::token::Token;

verus! {

/// An identifier used as an expression: its token and its name.
pub struct Identifier {
    pub token: Token,
    pub value: String,
}

/// A declaration: the introducing keyword, the bound name and an optional
/// initializer.
pub struct VarStatement {
    pub token: Token,
    pub name: Identifier,
    pub value: Option<ExpressionNode>,
}

/// The kinds of expression.
pub enum ExpressionNode {
    IdentifierNode(Identifier),
}

/// The kinds of statement.
pub enum StatementNode {
    Var(VarStatement),
}

/// A whole program: its statements in source order.
pub struct Program {
    pub statements: Vec<StatementNode>,
}

impl Identifier {
    /// An identifier renders as its name.
    pub open spec fn rendered(&self) -> Seq<char> {
        self.value@
    }

    /// Returns the text of the identifier's token.
    pub fn token_literal(&self) -> (r: String)
        ensures
            r@ == self.token.literal@,
    {
        self.token.literal.clone()
    }

    /// Returns the identifier's rendering: its name.
    pub fn print_string(&self) -> (r: String)
        ensures
            r@ == self.rendered(),
    {
        self.value.clone()
    }
}

impl ExpressionNode {
    /// The text of the expression's defining token.
    pub open spec fn spec_token_literal(&self) -> Seq<char> {
        match self {
            ExpressionNode::IdentifierNode(identifier) => identifier.token.literal@,
        }
    }

    /// The rendering of the expression.
    pub open spec fn rendered(&self) -> Seq<char> {
        match self {
            ExpressionNode::IdentifierNode(identifier) => identifier.rendered(),
        }
    }

    /// Returns the text of the expression's defining token.
    pub fn token_literal(&self) -> (r: String)
        ensures
            r@ == self.spec_token_literal(),
    {
        match self {
            ExpressionNode::IdentifierNode(identifier) => identifier.token_literal(),
        }
    }

    /// Returns the rendering of the expression.
    pub fn print_string(&self) -> (r: String)
        ensures
            r@ == self.rendered(),
    {
        match self {
            ExpressionNode::IdentifierNode(identifier) => identifier.print_string(),
        }
    }
}

impl VarStatement {
    /// `<keyword> <name> = <initializer>;`, with nothing between `= ` and `;`
    /// when there is no initializer.
    pub open spec fn rendered(&self) -> Seq<char> {
        let initializer = match self.value {
            Some(value) => value.rendered(),
            None => Seq::empty(),
        };
        self.token.literal@ + " "@ + self.name.rendered() + " = "@ + initializer + ";"@
    }

    /// Returns the text of the keyword token.
    pub fn token_literal(&self) -> (r: String)
        ensures
            r@ == self.token.literal@,
    {
        self.token.literal.clone()
    }

    /// Returns the rendering of the declaration.
    pub fn print_string(&self) -> (r: String)
        ensures
            r@ == self.rendered(),
    {
        let mut out = String::new();
        out.append(self.token_literal().as_str());
        out.append(" ");
        out.append(self.name.print_string().as_str());
        out.append(" = ");
        if let Some(value) = &self.value {
            out.append(value.print_string().as_str());
        }
        out.append(";");
        assert(out@ =~= self.rendered());
        out
    }
}

impl StatementNode {
    /// The text of the statement's defining token.
    pub open spec fn spec_token_literal(&self) -> Seq<char> {
        match self {
            StatementNode::Var(statement) => statement.token.literal@,
        }
    }

    /// The rendering of the statement.
    pub open spec fn rendered(&self) -> Seq<char> {
        match self {
            StatementNode::Var(statement) => statement.rendered(),
        }
    }

    /// Returns the text of the statement's defining token.
    pub fn token_literal(&self) -> (r: String)
        ensures
            r@ == self.spec_token_literal(),
    {
        match self {
            StatementNode::Var(statement) => statement.token_literal(),
        }
    }

    /// Returns the rendering of the statement.
    pub fn print_string(&self) -> (r: String)
        ensures
            r@ == self.rendered(),
    {
        match self {
            StatementNode::Var(statement) => statement.print_string(),
        }
    }
}

/// The renderings of `statements`, one after another.
pub open spec fn rendered_all(statements: Seq<StatementNode>) -> Seq<char>
    decreases statements.len(),
{
    if statements.len() == 0 {
        Seq::empty()
    } else {
        rendered_all(statements.drop_last()) + statements.last().rendered()
    }
}

impl Program {
    /// The text of the first statement's defining token, or nothing for an
    /// empty program.
    pub open spec fn spec_token_literal(&self) -> Seq<char> {
        if self.statements.len() > 0 {
            self.statements@[0].spec_token_literal()
        } else {
            Seq::empty()
        }
    }

    /// The rendering of the program: its statements' renderings in order.
    pub open spec fn rendered(&self) -> Seq<char> {
        rendered_all(self.statements@)
    }

    /// Returns the text of the first statement's defining token, or an empty
    /// text for an empty program.
    pub fn token_literal(&self) -> (r: String)
        ensures
            r@ == self.spec_token_literal(),
    {
        if self.statements.len() > 0 {
            self.statements[0].token_literal()
        } else {
            String::new()
        }
    }

    /// Returns the rendering of the program.
    pub fn print_string(&self) -> (r: String)
        ensures
            r@ == self.rendered(),
    {
        let mut out = String::new();
        let mut i: usize = 0;
        while i < self.statements.len()
            invariant
                i <= self.statements.len(),
                out@ == rendered_all(self.statements@.take(i as int)),
            decreases self.statements.len() - i,
        {
            out.append(self.statements[i].print_string().as_str());
            proof {
                assert(self.statements@.take(i + 1int).drop_last() =~= self.statements@.take(i as int));
            }
            i = i + 1;
        }
        assert(self.statements@.take(i as int) =~= self.statements@);
        out
    }
}

} // verus!
