//! Context window tracking and token budget management.

use vstd::prelude::*;

verus! {

/// The number of tokens that `ulmen_core::tokens::count_tokens` counts in a
/// text (a cl100k_base-style approximation).
pub uninterp spec fn token_count(text: Seq<char>) -> usize;

/// `ulmen_core::tokens::count_tokens`.
/// Claimed: the result is `token_count` of the text; it is 0 for the empty
/// text and at least 1 for any other (the function returns 0 early on empty
/// input, and otherwise the larger of 1 and its chunk total). How the count
/// is made is not stated.
#[verifier::external_body]
fn count_tokens(text: &str) -> (n: usize)
    ensures
        n == token_count(text@),
        text@.len() == 0 ==> n == 0,
        text@.len() > 0 ==> n >= 1,
{
    ulmen_core::tokens::count_tokens(text)
}

/// Tracks token usage within a context window.
#[derive(Debug, Clone)]
pub struct ContextTracker {
    pub budget: usize,
    pub used: usize,
    pub reserved: usize,
}

/// Used and reserved tokens together stay within the budget.
pub open spec fn within_budget(c: ContextTracker) -> bool {
    c.used + c.reserved <= c.budget
}

/// Tokens left: the budget minus used and reserved tokens, or 0 when those
/// reach the budget.
pub open spec fn spec_available(c: ContextTracker) -> int {
    if c.used + c.reserved >= c.budget {
        0
    } else {
        c.budget - c.used - c.reserved
    }
}

/// The sums that `use_tokens` and `reserve` form fit in a `usize`.
pub open spec fn sums_fit(c: ContextTracker, n: int) -> bool {
    c.used + c.reserved + n <= usize::MAX
}

/// `use_tokens(n)`: succeeds when the tokens fit in the budget beside what
/// is used and reserved, and then counts them as used.
pub open spec fn spec_use_tokens(c: ContextTracker, n: int) -> (ContextTracker, bool) {
    if c.used + n + c.reserved > c.budget {
        (c, false)
    } else {
        (ContextTracker { used: (c.used + n) as usize, ..c }, true)
    }
}

/// `reserve(n)`: succeeds when the tokens fit in the budget beside what is
/// used and reserved, and then holds them back.
pub open spec fn spec_reserve(c: ContextTracker, n: int) -> (ContextTracker, bool) {
    if c.used + c.reserved + n > c.budget {
        (c, false)
    } else {
        (ContextTracker { reserved: (c.reserved + n) as usize, ..c }, true)
    }
}

/// `release_reserve(n)`: gives back up to `n` reserved tokens.
pub open spec fn spec_release_reserve(c: ContextTracker, n: int) -> ContextTracker {
    ContextTracker { reserved: (if c.reserved <= n { 0 } else { c.reserved - n }) as usize, ..c }
}

impl ContextTracker {
    /// A tracker with the given budget and nothing used or reserved.
    pub fn new(budget: usize) -> (c: Self)
        ensures
            c.budget == budget,
            c.used == 0,
            c.reserved == 0,
    {
        ContextTracker { budget, used: 0, reserved: 0 }
    }

    /// Tokens still available.
    pub fn available(&self) -> (n: usize)
        requires
            self.used + self.reserved <= usize::MAX,
        ensures
            n == spec_available(*self),
    {
        self.budget.saturating_sub(self.used + self.reserved)
    }

    /// Counts `n` tokens as used, if they fit; reports whether they did.
    pub fn use_tokens(&mut self, n: usize) -> (ok: bool)
        requires
            sums_fit(*old(self), n as int),
        ensures
            (*final(self), ok) == spec_use_tokens(*old(self), n as int),
    {
        if self.used + n + self.reserved > self.budget {
            false
        } else {
            self.used += n;
            true
        }
    }

    /// Reserves `n` tokens, if they fit; reports whether they did.
    pub fn reserve(&mut self, n: usize) -> (ok: bool)
        requires
            sums_fit(*old(self), n as int),
        ensures
            (*final(self), ok) == spec_reserve(*old(self), n as int),
    {
        if self.used + self.reserved + n > self.budget {
            false
        } else {
            self.reserved += n;
            true
        }
    }

    /// Gives back up to `n` reserved tokens.
    pub fn release_reserve(&mut self, n: usize)
        ensures
            *final(self) == spec_release_reserve(*old(self), n as int),
    {
        self.reserved = self.reserved.saturating_sub(n);
    }

    /// Estimated token count of a text.
    pub fn estimate_text(&self, text: &str) -> (n: usize)
        ensures
            n == token_count(text@),
    {
        count_tokens(text)
    }

    /// Whether a text of `tokens` tokens fits in what is still available.
    pub fn fits_count(&self, tokens: usize) -> (b: bool)
        requires
            self.used + self.reserved <= usize::MAX,
        ensures
            b == (tokens <= spec_available(*self)),
    {
        tokens <= self.available()
    }

    /// Whether a text fits in what is still available.
    pub fn fits(&self, text: &str) -> (b: bool)
        requires
            self.used + self.reserved <= usize::MAX,
        ensures
            b == (token_count(text@) <= spec_available(*self)),
    {
        let n = count_tokens(text);
        self.fits_count(n)
    }
}

/// Using tokens keeps used and reserved tokens within the budget.
pub proof fn law_use_tokens_within_budget(c: ContextTracker, n: nat)
    requires
        within_budget(c),
    ensures
        within_budget(spec_use_tokens(c, n as int).0),
{
}

/// Reserving tokens keeps used and reserved tokens within the budget.
pub proof fn law_reserve_within_budget(c: ContextTracker, n: nat)
    requires
        within_budget(c),
    ensures
        within_budget(spec_reserve(c, n as int).0),
{
}

/// Releasing reserved tokens keeps used and reserved tokens within the budget.
pub proof fn law_release_within_budget(c: ContextTracker, n: nat)
    requires
        within_budget(c),
    ensures
        within_budget(spec_release_reserve(c, n as int)),
{
}

/// Using `n` tokens succeeds exactly when `n` tokens are available; on
/// success the available count drops by `n`; on failure nothing changes.
pub proof fn law_use_tokens_succeeds_iff_available(c: ContextTracker, n: nat)
    requires
        within_budget(c),
    ensures
        spec_use_tokens(c, n as int).1 <==> n <= spec_available(c),
        spec_use_tokens(c, n as int).1 ==> spec_available(spec_use_tokens(c, n as int).0)
            == spec_available(c) - n,
        !spec_use_tokens(c, n as int).1 ==> spec_use_tokens(c, n as int).0 == c,
{
}

/// Reserving `n` tokens succeeds exactly when `n` tokens are available; on
/// success the available count drops by `n`; on failure nothing changes.
pub proof fn law_reserve_succeeds_iff_available(c: ContextTracker, n: nat)
    requires
        within_budget(c),
    ensures
        spec_reserve(c, n as int).1 <==> n <= spec_available(c),
        spec_reserve(c, n as int).1 ==> spec_available(spec_reserve(c, n as int).0)
            == spec_available(c) - n,
        !spec_reserve(c, n as int).1 ==> spec_reserve(c, n as int).0 == c,
{
}

/// Releasing what a successful reservation reserved restores the tracker.
pub proof fn law_release_undoes_reserve(c: ContextTracker, n: nat)
    requires
        spec_reserve(c, n as int).1,
    ensures
        spec_release_reserve(spec_reserve(c, n as int).0, n as int) == c,
{
}

/// A text fits exactly when using its token count would succeed.
pub proof fn law_fits_iff_use_succeeds(c: ContextTracker, tokens: nat)
    requires
        within_budget(c),
    ensures
        (tokens <= spec_available(c)) <==> spec_use_tokens(c, tokens as int).1,
{
}

} // verus!
