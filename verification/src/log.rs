//! What a battle tells: the history that decisions are taken on, and the lines streamed to whoever
//! watches.

use vstd::prelude::*;
use crate::text;

verus! {

/// The history of a battle, and the texts that are yet to be streamed.
#[derive(Debug)]
pub struct BattleLog {
    pub history: String,
    pub deltas: Vec<String>,
}

/// A battle log, by its texts.
#[verifier::ext_equal]
pub struct Log {
    pub history: Seq<char>,
    pub deltas: Seq<Seq<char>>,
}

impl View for BattleLog {
    type V = Log;

    open spec fn view(&self) -> Log {
        Log { history: self.history@, deltas: text::texts(self.deltas@) }
    }
}

impl Log {
    /// `msg` is part of the history and is streamed.
    pub open spec fn said(self, msg: Seq<char>) -> Log {
        Log { history: self.history + msg, deltas: self.deltas.push(msg) }
    }

    /// `msg` is part of the history only.
    pub open spec fn noted(self, msg: Seq<char>) -> Log {
        Log { history: self.history + msg, ..self }
    }

    /// `msg` is streamed only.
    pub open spec fn streamed(self, msg: Seq<char>) -> Log {
        Log { deltas: self.deltas.push(msg), ..self }
    }
}

impl BattleLog {
    /// An empty log.
    pub fn new() -> (r: Self)
        ensures
            r@ == (Log { history: seq![], deltas: seq![] }),
    {
        let r = BattleLog { history: String::new(), deltas: Vec::new() };
        assert(r@ =~= Log { history: seq![], deltas: seq![] });
        r
    }

    /// Adds to the history and streams.
    pub fn say(&mut self, msg: String)
        ensures
            final(self)@ == old(self)@.said(msg@),
    {
        self.history.append(msg.as_str());
        self.deltas.push(msg);
        assert(self@ =~= old(self)@.said(msg@));
    }

    /// Adds to the history only.
    pub fn note(&mut self, msg: String)
        ensures
            final(self)@ == old(self)@.noted(msg@),
    {
        self.history.append(msg.as_str());
    }

    /// Streams only.
    pub fn stream(&mut self, msg: String)
        ensures
            final(self)@ == old(self)@.streamed(msg@),
    {
        self.deltas.push(msg);
        assert(self@ =~= old(self)@.streamed(msg@));
    }

    /// Hands out the texts that are yet to be streamed, in the order in which they came.
    pub fn take_deltas(&mut self) -> (r: Vec<String>)
        ensures
            text::texts(r@) == old(self)@.deltas,
            final(self)@ == (Log { deltas: seq![], ..old(self)@ }),
    {
        let mut out: Vec<String> = Vec::new();
        std::mem::swap(&mut out, &mut self.deltas);
        assert(self@ =~= Log { deltas: seq![], ..old(self)@ });
        out
    }
}

} // verus!
