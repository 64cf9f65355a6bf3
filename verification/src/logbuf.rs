//! The in-memory log: the latest log lines, for display in the session.

use vstd::prelude::*;
use vstd::string::*;
use crate::text::{strings_view, chars_of, string_from_chars, trim_end, is_whitespace, is_ws};

verus! {

/// Log lines kept in memory.
pub const LOG_BUFFER_CAPACITY: usize = 512;

/// The last `n` elements of a sequence (all of them when there are fewer).
pub open spec fn last_n<A>(s: Seq<A>, n: nat) -> Seq<A> {
    if s.len() > n {
        s.subrange(s.len() - n, s.len() as int)
    } else {
        s
    }
}

/// Keeping the newest `n` elements keeps at most `n` of them, and keeps the
/// newest element last.
pub proof fn lemma_last_n_bounded<A>(s: Seq<A>, x: A, n: nat)
    requires
        n > 0,
    ensures
        last_n(s.push(x), n).len() <= n,
        last_n(s.push(x), n).last() == x,
{
}

/// The latest log lines, at most `capacity` of them, oldest first.
#[derive(Debug)]
pub struct LogBuffer {
    entries: Vec<String>,
    capacity: usize,
}

impl View for LogBuffer {
    type V = Seq<Seq<char>>;

    closed spec fn view(&self) -> Seq<Seq<char>> {
        strings_view(self.entries@)
    }
}

impl LogBuffer {
    pub closed spec fn capacity_spec(self) -> usize {
        self.capacity
    }

    pub fn new(capacity: usize) -> (r: Self)
        ensures
            r@ == Seq::<Seq<char>>::empty(),
            r.capacity_spec() == capacity,
    {
        let r = LogBuffer { entries: Vec::new(), capacity };
        assert(r@ =~= Seq::<Seq<char>>::empty());
        r
    }

    /// Adds a line; empty lines are ignored, and the oldest lines beyond the
    /// capacity are dropped.
    pub fn push(&mut self, entry: String)
        ensures
            final(self).capacity_spec() == old(self).capacity_spec(),
            entry@.len() == 0 ==> final(self)@ == old(self)@,
            entry@.len() > 0 ==> final(self)@ == last_n(old(self)@.push(entry@), old(self).capacity_spec() as nat),
    {
        if entry.unicode_len() == 0 {
            return;
        }
        let ghost before = self.entries@;
        self.entries.push(entry);
        proof {
            assert(strings_view(self.entries@) =~= strings_view(before).push(entry@));
        }
        if self.entries.len() > self.capacity {
            let n = self.capacity;
            let start = self.entries.len() - n;
            let mut kept: Vec<String> = Vec::new();
            let mut i: usize = start;
            while i < self.entries.len()
                invariant
                    start <= i <= self.entries@.len(),
                    start == self.entries@.len() - n,
                    strings_view(kept@) == strings_view(self.entries@).subrange(start as int, i as int),
                decreases self.entries@.len() - i,
            {
                let ghost k0 = kept@;
                kept.push(self.entries[i].clone());
                proof {
                    assert(strings_view(kept@) =~= strings_view(k0).push(self.entries@[i as int]@));
                    assert(strings_view(self.entries@).subrange(start as int, i + 1) =~= strings_view(self.entries@).subrange(
                        start as int,
                        i as int,
                    ).push(self.entries@[i as int]@));
                }
                i = i + 1;
            }
            self.entries = kept;
        }
    }

    /// The latest `limit` lines, oldest first (none for a limit of 0).
    pub fn recent(&self, limit: usize) -> (r: Vec<String>)
        ensures
            strings_view(r@) == last_n(self@, limit as nat),
    {
        let len = self.entries.len();
        let start = if len > limit { len - limit } else { 0 };
        let mut out: Vec<String> = Vec::new();
        let mut i: usize = start;
        while i < len
            invariant
                len == self.entries@.len(),
                start <= i <= len,
                strings_view(out@) == strings_view(self.entries@).subrange(start as int, i as int),
            decreases len - i,
        {
            let ghost o0 = out@;
            out.push(self.entries[i].clone());
            proof {
                assert(strings_view(out@) =~= strings_view(o0).push(self.entries@[i as int]@));
                assert(strings_view(self.entries@).subrange(start as int, i + 1) =~= strings_view(self.entries@).subrange(
                    start as int,
                    i as int,
                ).push(self.entries@[i as int]@));
            }
            i = i + 1;
        }
        proof {
            if len <= limit {
                assert(strings_view(self.entries@).subrange(0, len as int) =~= strings_view(self.entries@));
            }
        }
        out
    }
}

/// The latest `limit` lines of a log.
pub fn recent_logs(buffer: &LogBuffer, limit: usize) -> (r: Vec<String>)
    ensures
        strings_view(r@) == last_n(buffer@, limit as nat),
{
    buffer.recent(limit)
}

/// UTF-8 decoding of a byte string (what `std::str::from_utf8` computes).
pub uninterp spec fn utf8_decode(b: Seq<u8>) -> Option<Seq<char>>;

/// `std::str::from_utf8`, owned: the decoded text, `None` for bytes that
/// are not UTF-8. What decodes is named `utf8_decode` of the bytes.
#[verifier::external_body]
fn from_utf8(bytes: &Vec<u8>) -> (r: Option<String>)
    ensures
        match r {
            Some(s) => utf8_decode(bytes@) == Some(s@),
            None => utf8_decode(bytes@) is None,
        },
{
    match std::str::from_utf8(bytes.as_slice()) {
        Ok(s) => Some(s.to_string()),
        Err(_) => None,
    }
}

/// The line a written record becomes: the text without trailing whitespace.
pub open spec fn log_line(text: Seq<char>) -> Seq<char> {
    trim_end(text)
}

fn trimmed_end(s: &str) -> (r: String)
    ensures
        r@ == trim_end(s@),
{
    let mut cs = chars_of(s);
    while cs.len() > 0 && is_whitespace(cs[cs.len() - 1])
        invariant
            trim_end(cs@) == trim_end(s@),
        decreases cs@.len(),
    {
        let ghost before = cs@;
        cs.pop();
        proof {
            assert(before.drop_last() =~= cs@);
        }
    }
    string_from_chars(&cs)
}

/// Collects the bytes of one log record until it is flushed.
#[derive(Debug)]
pub struct BufferWriter {
    pub buffer: Vec<u8>,
}

impl BufferWriter {
    pub fn new() -> (r: Self)
        ensures
            r.buffer@ == Seq::<u8>::empty(),
    {
        BufferWriter { buffer: Vec::new() }
    }

    /// Takes all of `buf`.
    pub fn write(&mut self, buf: &[u8]) -> (r: usize)
        ensures
            final(self).buffer@ == old(self).buffer@ + buf@,
            r == buf@.len(),
    {
        let mut i: usize = 0;
        while i < buf.len()
            invariant
                i <= buf@.len(),
                self.buffer@ == old(self).buffer@ + buf@.subrange(0, i as int),
            decreases buf@.len() - i,
        {
            self.buffer.push(buf[i]);
            proof {
                assert(self.buffer@ =~= old(self).buffer@ + buf@.subrange(0, i + 1));
            }
            i = i + 1;
        }
        proof {
            assert(buf@.subrange(0, buf@.len() as int) =~= buf@);
        }
        buf.len()
    }

    /// Moves the collected record into the log: decoded, trimmed at the
    /// end, and pushed unless empty; bytes that are not UTF-8 are dropped.
    pub fn flush_into_log_buffer(&mut self, log: &mut LogBuffer)
        ensures
            final(self).buffer@ == Seq::<u8>::empty(),
            final(log).capacity_spec() == old(log).capacity_spec(),
            if old(self).buffer@.len() == 0 {
                final(log)@ == old(log)@
            } else {
                match utf8_decode(old(self).buffer@) {
                    Some(t) => if log_line(t).len() > 0 {
                        final(log)@ == last_n(old(log)@.push(log_line(t)), old(log).capacity_spec() as nat)
                    } else {
                        final(log)@ == old(log)@
                    },
                    None => final(log)@ == old(log)@,
                }
            },
    {
        if self.buffer.len() == 0 {
            return;
        }
        match from_utf8(&self.buffer) {
            Some(content) => {
                let formatted = trimmed_end(content.as_str());
                if formatted.unicode_len() > 0 {
                    log.push(formatted);
                }
            },
            None => {},
        }
        self.buffer = Vec::new();
    }
}

} // verus!
