//! Local session usage snapshot (not billing).

use vstd::prelude::*;
use crate::text::{append_str, dec, push_dec, string_of};

verus! {

/// Turns and tokens for the current local session.
#[derive(Debug, Clone, PartialEq, Eq)]
pub struct UsageSnapshot {
    pub turns: u64,
    pub tokens: u64,
    pub note: String,
}

impl UsageSnapshot {
    /// Empty local-account snapshot.
    pub fn local() -> (s: Self)
        ensures
            s.turns == 0,
            s.tokens == 0,
            s.note@ == "local snapshot only"@,
    {
        UsageSnapshot { turns: 0, tokens: 0, note: "local snapshot only".to_owned() }
    }

    /// Record one finished turn and add its token count.
    pub fn bump_turn(&mut self, tokens: u64)
        requires
            old(self).turns < u64::MAX,
            old(self).tokens + tokens <= u64::MAX,
        ensures
            final(self).turns == old(self).turns + 1,
            final(self).tokens == old(self).tokens + tokens,
            final(self).note == old(self).note,
    {
        self.turns = self.turns + 1;
        self.tokens = self.tokens + tokens;
    }

    /// Session-detail block: Turns, Tokens, and the account note.
    pub fn format_lines(&self) -> (r: String)
        ensures
            r@ == "Turns: "@ + dec(self.turns as nat) + "\nTokens: "@ + dec(self.tokens as nat)
                + "\n"@ + self.note@,
    {
        let mut v: Vec<char> = Vec::new();
        append_str(&mut v, "Turns: ");
        push_dec(&mut v, self.turns);
        append_str(&mut v, "\nTokens: ");
        push_dec(&mut v, self.tokens);
        append_str(&mut v, "\n");
        append_str(&mut v, self.note.as_str());
        let r = string_of(&v);
        assert(r@ =~= "Turns: "@ + dec(self.turns as nat) + "\nTokens: "@ + dec(self.tokens as nat)
            + "\n"@ + self.note@);
        r
    }
}

} // verus!
