//! One-shot latch for the engine instance's bound voice token.
//!
//! The latch starts unbound, can be bound exactly once, and never returns to
//! the unbound state. Binding again is an error and leaves the first token in
//! place; reading before binding is an error.

use vstd::prelude::*;

verus! {

/// Why a latch operation was rejected.
#[derive(Clone, Copy, Debug, PartialEq, Eq, Structural)]
pub enum TokenError {
    /// The latch was already bound and keeps its first token.
    AlreadyBound,
    /// The latch was read before any token was bound.
    NotBound,
}

/// Assign-once cell holding an engine instance's bound voice token.
pub struct TokenLatch<T> {
    token: Option<T>,
}

/// What binding `t` does to a latch holding `cur`: an empty latch accepts the
/// token, a full one is left unchanged and the call fails.
pub open spec fn bind_outcome<T>(cur: Option<T>, t: T) -> (Option<T>, bool) {
    match cur {
        Option::None => (Option::Some(t), true),
        Option::Some(_) => (cur, false),
    }
}

impl<T> TokenLatch<T> {
    /// The token currently bound, if any.
    pub closed spec fn token(&self) -> Option<T> {
        self.token
    }

    /// A fresh latch with nothing bound.
    pub fn new() -> (r: TokenLatch<T>)
        ensures
            r.token() is None,
    {
        TokenLatch { token: None }
    }

    /// Binds `t` if the latch is still unbound; otherwise reports the double
    /// assignment and keeps the first token.
    pub fn set_token(&mut self, t: T) -> (r: Result<(), TokenError>)
        ensures
            (final(self).token(), r is Ok) == bind_outcome(old(self).token(), t),
            r is Err ==> r == Result::<(), TokenError>::Err(TokenError::AlreadyBound),
    {
        if self.token.is_some() {
            Err(TokenError::AlreadyBound)
        } else {
            self.token = Some(t);
            Ok(())
        }
    }

    /// The bound token, or an error when nothing was bound yet.
    pub fn get_token(&self) -> (r: Result<&T, TokenError>)
        ensures
            match r {
                Result::Ok(t) => self.token() == Option::Some(*t),
                Result::Err(e) => self.token() is None && e == TokenError::NotBound,
            },
    {
        match &self.token {
            Some(t) => Ok(t),
            None => Err(TokenError::NotBound),
        }
    }
}

/// Binding twice always fails on the second call, and the latch keeps the
/// token of the first call.
pub proof fn lemma_token_latch_one_shot<T>(t1: T, t2: T)
    ensures
        ({
            let (s1, ok1) = bind_outcome(Option::<T>::None, t1);
            let (s2, ok2) = bind_outcome(s1, t2);
            ok1 && !ok2 && s2 == Option::Some(t1)
        }),
{
}

} // verus!
