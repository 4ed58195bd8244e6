//! The deterministic random-byte cache: an append-only ledger of previously
//! drawn bytes and a replay cursor. Reading below the frontier replays
//! history byte for byte; reading at the frontier draws one fresh byte from
//! the injected source and appends it, so a position once filled never
//! changes.

use vstd::prelude::*;

verus! {

/// A source of fresh random bytes, injected into the cache at construction.
/// The hosting environment supplies the real, seeded one; a test supplies a
/// scripted one. Nothing is assumed of the bytes it hands out.
pub trait RandomSource {
    fn next_byte(&mut self) -> u8;
}

/// A deterministic source that replays a fixed script of bytes in order and
/// hands out zero once the script is exhausted.
pub struct ScriptedSource {
    script: Vec<u8>,
    next: usize,
}

impl ScriptedSource {
    pub fn new(script: Vec<u8>) -> ScriptedSource {
        ScriptedSource { script, next: 0 }
    }
}

impl RandomSource for ScriptedSource {
    fn next_byte(&mut self) -> u8 {
        if self.next < self.script.len() {
            let b = self.script[self.next];
            self.next = self.next + 1;
            b
        } else {
            0
        }
    }
}

/// A rewind was asked to a ledger position that has never been filled.
#[derive(Clone, Copy, Debug)]
pub struct RandCacheError;

impl RandCacheError {
    /// What went wrong, in words.
    pub fn message(&self) -> (r: &'static str)
        ensures
            r@ == "index is not available"@,
    {
        "index is not available"
    }
}

/// The ledger that one read leaves behind: unchanged on a replay below the
/// frontier, extended by the fresh byte on a read at the frontier.
pub open spec fn step_ledger(l: Seq<u8>, c: int, fresh: u8) -> Seq<u8> {
    if c < l.len() {
        l
    } else {
        l.push(fresh)
    }
}

/// The byte that one read returns: the ledger byte below the frontier, the
/// fresh byte at it.
pub open spec fn step_output(l: Seq<u8>, c: int, fresh: u8) -> u8 {
    if c < l.len() {
        l[c]
    } else {
        fresh
    }
}

/// The replayable random-byte cache. `cache` is the ledger, append-only for
/// the life of the value; `index` is the cursor, always between zero and the
/// ledger's length.
pub struct RandCache<G: RandomSource> {
    index: u32,
    cache: Vec<u8>,
    source: G,
}

impl<G: RandomSource> RandCache<G> {
    /// The ledger of all bytes drawn so far, oldest first.
    pub closed spec fn ledger(&self) -> Seq<u8> {
        self.cache@
    }

    /// The cursor: the position the next read serves.
    pub closed spec fn cursor(&self) -> int {
        self.index as int
    }

    /// The cursor never passes the ledger's frontier, and the ledger never
    /// outgrows the cursor's range.
    pub open spec fn inv(&self) -> bool {
        0 <= self.cursor() <= self.ledger().len() && self.ledger().len() <= u32::MAX as int
    }

    /// An empty cache around the given source of fresh bytes.
    pub fn new(source: G) -> (c: RandCache<G>)
        ensures
            c.inv(),
            c.ledger() == Seq::<u8>::empty(),
            c.cursor() == 0,
    {
        RandCache { index: 0, cache: Vec::new(), source }
    }

    /// Rewinds the cursor to the start of the ledger; the next read replays
    /// the very first byte. Always succeeds, on an empty ledger too.
    pub fn rewind(&mut self)
        requires
            old(self).inv(),
        ensures
            final(self).inv(),
            final(self).ledger() == old(self).ledger(),
            final(self).cursor() == 0,
    {
        let _ = self.rewind_to(0);
    }

    /// Moves the cursor to `index` and returns the cursor value in effect
    /// just before the jump, for nested save and restore. Succeeds exactly
    /// when `index` is an already filled position, or zero (the natural
    /// starting point, valid even on an empty ledger); a position never yet
    /// read has nothing to replay, so the jump fails and the cache is left
    /// as it was.
    pub fn rewind_to(&mut self, index: u32) -> (r: Result<u32, RandCacheError>)
        requires
            old(self).inv(),
        ensures
            final(self).inv(),
            final(self).ledger() == old(self).ledger(),
            r is Ok <==> (index == 0 || (index as int) < old(self).ledger().len()),
            r is Ok ==> final(self).cursor() == index as int,
            r is Ok ==> r->Ok_0 as int == old(self).cursor(),
            r is Err ==> final(self).cursor() == old(self).cursor(),
    {
        if index == 0 || (index as usize) < self.cache.len() {
            let previous = self.index;
            self.index = index;
            Ok(previous)
        } else {
            Err(RandCacheError)
        }
    }

    /// The current cursor, a checkpoint a caller may later rewind to.
    pub fn get_cache_index(&self) -> (r: u32)
        ensures
            r as int == self.cursor(),
    {
        self.index
    }

    /// The sole read primitive. Below the frontier it replays the ledger
    /// byte at the cursor and appends nothing; at the frontier it draws one
    /// fresh byte from the source and appends it. Either way the cursor
    /// advances by one, so the n-th read after a rewind always yields the
    /// n-th ledger byte.
    pub fn get_u8(&mut self) -> (r: u8)
        requires
            old(self).inv(),
            old(self).cursor() < old(self).ledger().len() || old(self).ledger().len()
                < u32::MAX as int,
        ensures
            final(self).inv(),
            final(self).cursor() == old(self).cursor() + 1,
            final(self).ledger() == step_ledger(old(self).ledger(), old(self).cursor(), r),
            r == step_output(old(self).ledger(), old(self).cursor(), r),
    {
        let result: u8;
        if (self.index as usize) < self.cache.len() {
            result = self.cache[self.index as usize];
        } else {
            result = self.source.next_byte();
            self.cache.push(result);
        }
        self.index = self.index + 1;
        result
    }
}

} // verus!
