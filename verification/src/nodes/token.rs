//! Tokens and the trivia around them, and identifiers, which may carry a token.
use vstd::prelude::*;
use crate::nodes::list::{decides, retain};
use crate::nodes::tree::{Kind, Tree};

verus! {

/// The two sorts of text around a token that mean nothing to the program.
#[derive(Clone, Copy, Debug, PartialEq, Eq, Structural)]
pub enum TriviaKind {
    Comment,
    Whitespace,
}

/// A comment or a stretch of whitespace.
#[derive(Clone, Debug, PartialEq, Eq)]
pub struct Trivia {
    pub kind: TriviaKind,
    pub content: String,
}

impl Trivia {
    pub fn new(kind: TriviaKind, content: String) -> (trivia: Self)
        ensures
            trivia.kind == kind,
            trivia.content == content,
    {
        Self { kind, content }
    }

    pub open spec fn is_comment(self) -> bool {
        self.kind is Comment
    }

    pub open spec fn is_whitespace(self) -> bool {
        self.kind is Whitespace
    }
}

impl View for Trivia {
    type V = Tree;

    open spec fn view(&self) -> Tree {
        Tree::node(
            Kind::Trivia,
            if self.kind is Comment { 0 } else { 1 },
            seq![self.content@],
            Seq::empty(),
        )
    }
}

/// Drops the comments of a list of trivia.
fn drop_comments(trivia: &mut Vec<Trivia>)
    ensures
        final(trivia)@ == old(trivia)@.filter(|t: Trivia| !t.is_comment()),
{
    let keep = |t: &Trivia| -> (kept: bool)
        ensures
            kept == !t.is_comment(),
        {
            match t.kind {
                TriviaKind::Comment => false,
                TriviaKind::Whitespace => true,
            }
        };
    assert(decides(keep, |t: Trivia| !t.is_comment()));
    retain(trivia, keep);
}

/// Drops the whitespace of a list of trivia.
fn drop_whitespaces(trivia: &mut Vec<Trivia>)
    ensures
        final(trivia)@ == old(trivia)@.filter(|t: Trivia| !t.is_whitespace()),
{
    let keep = |t: &Trivia| -> (kept: bool)
        ensures
            kept == !t.is_whitespace(),
        {
            match t.kind {
                TriviaKind::Comment => true,
                TriviaKind::Whitespace => false,
            }
        };
    assert(decides(keep, |t: Trivia| !t.is_whitespace()));
    retain(trivia, keep);
}

/// A structural token of the source with the trivia before and after it.
#[derive(Clone, Debug, PartialEq, Eq)]
pub struct Token {
    pub content: String,
    pub leading_trivia: Vec<Trivia>,
    pub trailing_trivia: Vec<Trivia>,
}

impl Token {
    /// A token without trivia.
    pub fn from_content(content: String) -> (token: Self)
        ensures
            token.content == content,
            token.leading_trivia@.len() == 0,
            token.trailing_trivia@.len() == 0,
    {
        Self { content, leading_trivia: Vec::new(), trailing_trivia: Vec::new() }
    }

    pub fn with_leading_trivia(self, trivia: Trivia) -> (token: Self)
        ensures
            token.content == self.content,
            token.leading_trivia@ == self.leading_trivia@.push(trivia),
            token.trailing_trivia == self.trailing_trivia,
    {
        let mut token = self;
        token.leading_trivia.push(trivia);
        token
    }

    pub fn with_trailing_trivia(self, trivia: Trivia) -> (token: Self)
        ensures
            token.content == self.content,
            token.leading_trivia == self.leading_trivia,
            token.trailing_trivia@ == self.trailing_trivia@.push(trivia),
    {
        let mut token = self;
        token.trailing_trivia.push(trivia);
        token
    }

    /// The token as it is once its comments are gone.
    pub open spec fn without_comments(self, cleared: Token) -> bool {
        &&& cleared.content == self.content
        &&& cleared.leading_trivia@ == self.leading_trivia@.filter(|t: Trivia| !t.is_comment())
        &&& cleared.trailing_trivia@ == self.trailing_trivia@.filter(|t: Trivia| !t.is_comment())
    }

    /// The token as it is once its whitespace is gone.
    pub open spec fn without_whitespaces(self, cleared: Token) -> bool {
        &&& cleared.content == self.content
        &&& cleared.leading_trivia@ == self.leading_trivia@.filter(|t: Trivia| !t.is_whitespace())
        &&& cleared.trailing_trivia@ == self.trailing_trivia@.filter(|t: Trivia| !t.is_whitespace())
    }

    pub fn clear_comments(&mut self)
        ensures
            old(self).without_comments(*final(self)),
    {
        drop_comments(&mut self.leading_trivia);
        drop_comments(&mut self.trailing_trivia);
    }

    pub fn clear_whitespaces(&mut self)
        ensures
            old(self).without_whitespaces(*final(self)),
    {
        drop_whitespaces(&mut self.leading_trivia);
        drop_whitespaces(&mut self.trailing_trivia);
    }
}

impl View for Token {
    type V = Tree;

    open spec fn view(&self) -> Tree {
        Tree {
            kind: Kind::Token,
            variant: self.leading_trivia@.len(),
            texts: seq![self.content@],
            details: self.leading_trivia@.map_values(|t: Trivia| t@) + self.trailing_trivia@.map_values(
                |t: Trivia| t@,
            ),
            children: Seq::empty(),
        }
    }
}

/// The model of a token that may be absent.
pub open spec fn token_trees(token: Option<Token>) -> Seq<Tree> {
    match token {
        Some(token) => seq![token@],
        None => Seq::empty(),
    }
}

/// A name, with the token it was read from where that is known.
#[derive(Clone, Debug, PartialEq, Eq)]
pub struct Identifier {
    pub name: String,
    pub token: Option<Token>,
}

impl Identifier {
    /// An identifier has a name.
    pub open spec fn well_formed(self) -> bool {
        self.name@.len() > 0
    }

    pub fn new(name: String) -> (identifier: Self)
        ensures
            identifier.name == name,
            identifier.token is None,
    {
        Self { name, token: None }
    }

    pub fn with_token(self, token: Token) -> (identifier: Self)
        ensures
            identifier.name == self.name,
            identifier.token == Some(token),
    {
        let mut identifier = self;
        identifier.token = Some(token);
        identifier
    }

    pub fn get_name(&self) -> (name: &String)
        ensures
            *name == self.name,
    {
        &self.name
    }

    /// The identifier as it is once the comments of its token are gone.
    pub open spec fn without_comments(self, cleared: Identifier) -> bool {
        &&& cleared.name == self.name
        &&& match self.token {
            Some(token) => cleared.token matches Some(t) && token.without_comments(t),
            None => cleared.token is None,
        }
    }

    /// The identifier as it is once the whitespace of its token is gone.
    pub open spec fn without_whitespaces(self, cleared: Identifier) -> bool {
        &&& cleared.name == self.name
        &&& match self.token {
            Some(token) => cleared.token matches Some(t) && token.without_whitespaces(t),
            None => cleared.token is None,
        }
    }

    pub fn clear_comments(&mut self)
        ensures
            old(self).without_comments(*final(self)),
    {
        match &mut self.token {
            Some(token) => token.clear_comments(),
            None => {},
        }
    }

    pub fn clear_whitespaces(&mut self)
        ensures
            old(self).without_whitespaces(*final(self)),
    {
        match &mut self.token {
            Some(token) => token.clear_whitespaces(),
            None => {},
        }
    }
}

impl View for Identifier {
    type V = Tree;

    open spec fn view(&self) -> Tree {
        Tree {
            kind: Kind::Identifier,
            variant: 0,
            texts: seq![self.name@],
            details: token_trees(self.token),
            children: Seq::empty(),
        }
    }
}

} // verus!
