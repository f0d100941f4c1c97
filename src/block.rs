use vstd::prelude::*;
use crate::token::Token;

verus! {

/// The visible token of a stack: its last element, if any.
pub open spec fn top(s: Seq<Token>) -> Option<Token> {
    if s.len() == 0 {
        None
    } else {
        Some(s.last())
    }
}

/// The stacking rule: a token goes on an empty stack, or on a top of the
/// other color and of a strictly smaller size.
pub open spec fn can_accept(s: Seq<Token>, t: Token) -> bool {
    match top(s) {
        None => true,
        Some(u) => u.color != t.color && u.size.rank() < t.size.rank(),
    }
}

/// Every token of the stack, bottom to top, was accepted by the part beneath it.
pub closed spec fn stack_ok(s: Seq<Token>) -> bool {
    forall|i: int|
        #![trigger s[i]]
        1 <= i < s.len() ==> s[i - 1].color != s[i].color && s[i - 1].size.rank() < s[i].size.rank()
}

/// Pushing an accepted token keeps a stack well formed.
pub proof fn lemma_push_keeps_stack_ok(s: Seq<Token>, t: Token)
    requires
        stack_ok(s),
        can_accept(s, t),
    ensures
        stack_ok(s.push(t)),
{
    let s2 = s.push(t);
    assert forall|i: int| 1 <= i < s2.len() implies s2[i - 1].color != #[trigger] s2[i].color
        && s2[i - 1].size.rank() < s2[i].size.rank() by {
        if i < s.len() {
            assert(s2[i - 1] == s[i - 1] && s2[i] == s[i]);
        }
    }
}

/// Removing the top of a stack keeps it well formed.
pub proof fn lemma_pop_keeps_stack_ok(s: Seq<Token>)
    requires
        stack_ok(s),
        s.len() > 0,
    ensures
        stack_ok(s.drop_last()),
{
    let s2 = s.drop_last();
    assert forall|i: int| 1 <= i < s2.len() implies s2[i - 1].color != #[trigger] s2[i].color
        && s2[i - 1].size.rank() < s2[i].size.rank() by {
        assert(s2[i - 1] == s[i - 1] && s2[i] == s[i]);
    }
}

/// A token always goes on an empty stack; whatever the
/// colors, it never goes on a top of equal or larger size; whatever the sizes,
/// never on a top of its own color; and it always goes on a top of the other
/// color and a strictly smaller size.
pub proof fn lemma_stacking_rule(s: Seq<Token>, t: Token)
    ensures
        s.len() == 0 ==> can_accept(s, t),
        s.len() > 0 && s.last().size.rank() >= t.size.rank() ==> !can_accept(s, t),
        s.len() > 0 && s.last().color == t.color ==> !can_accept(s, t),
        s.len() > 0 && s.last().color != t.color && s.last().size.rank() < t.size.rank() ==> can_accept(s, t),
{
}

/// One cell of the board: a pile of tokens, bottom to top.
#[derive(Debug, Clone, PartialEq, Eq, Hash)]
pub struct Block {
    tokens: Vec<Token>,
}

impl View for Block {
    type V = Seq<Token>;

    closed spec fn view(&self) -> Seq<Token> {
        self.tokens@
    }
}

impl Default for Block {
    fn default() -> (b: Block)
        ensures
            b@ == Seq::<Token>::empty(),
            b.wf(),
    {
        Block { tokens: Vec::new() }
    }
}

impl Block {
    /// Well formed: every token respects the stacking rule against the one beneath.
    pub open spec fn wf(&self) -> bool {
        stack_ok(self@)
    }

    /// A stack holding `tokens`, bottom to top, which must obey the stacking rule.
    pub fn new(tokens: Vec<Token>) -> (b: Block)
        requires
            stack_ok(tokens@),
        ensures
            b@ == tokens@,
            b.wf(),
    {
        Block { tokens }
    }

    /// The number of tokens in the stack.
    pub fn len(&self) -> (r: usize)
        ensures
            r == self@.len(),
    {
        self.tokens.len()
    }

    pub fn is_empty(&self) -> (r: bool)
        ensures
            r == (self@.len() == 0),
    {
        self.tokens.len() == 0
    }

    /// A copy of the tokens, bottom to top.
    pub fn tokens(&self) -> (r: Vec<Token>)
        ensures
            r@ == self@,
    {
        let mut out: Vec<Token> = Vec::new();
        let mut i: usize = 0;
        while i < self.tokens.len()
            invariant
                i <= self.tokens@.len(),
                out@ == self.tokens@.subrange(0, i as int),
            decreases self.tokens@.len() - i,
        {
            out.push(self.tokens[i]);
            i += 1;
            assert(out@ =~= self.tokens@.subrange(0, i as int));
        }
        assert(out@ =~= self.tokens@);
        out
    }

    /// The visible token, if any.
    pub fn get_outermost_token(&self) -> (r: Option<Token>)
        ensures
            r == top(self@),
    {
        let n = self.tokens.len();
        if n == 0 {
            None
        } else {
            Some(self.tokens[n - 1])
        }
    }

    /// Removes and returns the visible token; the stack must not be empty.
    pub fn pop_outermost_token(&mut self) -> (t: Token)
        requires
            old(self)@.len() > 0,
        ensures
            t == old(self)@.last(),
            final(self)@ == old(self)@.drop_last(),
    {
        self.tokens.pop().unwrap()
    }

    /// Whether the stacking rule lets `token` go on top.
    pub fn is_stackable(&self, token: Token) -> (r: bool)
        ensures
            r == can_accept(self@, token),
    {
        match self.get_outermost_token() {
            Some(t) => t.color != token.color && t.size.index() < token.size.index(),
            None => true,
        }
    }

    /// Puts `token` on top if the stacking rule allows it; reports whether it did.
    pub fn push_token(&mut self, token: Token) -> (r: bool)
        ensures
            r == can_accept(old(self)@, token),
            r ==> final(self)@ == old(self)@.push(token),
            !r ==> final(self)@ == old(self)@,
            old(self).wf() ==> final(self).wf(),
    {
        if self.is_stackable(token) {
            self.tokens.push(token);
            proof {
                if stack_ok(old(self)@) {
                    lemma_push_keeps_stack_ok(old(self)@, token);
                }
            }
            true
        } else {
            false
        }
    }
}

} // verus!
