//! Log lines tagged with the process ID, and the retention of rotated log files.
use vstd::prelude::*;

verus! {

/// How many days rotated log files are kept.
pub const DEFAULT_LOG_RETENTION_DAYS: u64 = 30;

/// The name every rotated log file starts with.
pub const ROTATED_LOG_PREFIX: &'static str = "kagi-mcp.log.";

// ---------------------------------------------------------------------------
// Line framing
// ---------------------------------------------------------------------------

/// The ASCII decimal digits of `n`, without leading zeros.
pub open spec fn decimal_bytes(n: nat) -> Seq<u8>
    decreases n,
{
    if n < 10 {
        seq![(48 + n) as u8]
    } else {
        decimal_bytes(n / 10).push((48 + n % 10) as u8)
    }
}

/// The tag put before every line: `[pid=N] `.
pub open spec fn pid_prefix(pid: nat) -> Seq<u8> {
    seq![91u8, 112u8, 105u8, 100u8, 61u8] + decimal_bytes(pid) + seq![93u8, 32u8]
}

fn push_decimal_bytes(out: &mut Vec<u8>, n: u32)
    ensures
        final(out)@ == old(out)@ + decimal_bytes(n as nat),
    decreases n,
{
    if n >= 10 {
        push_decimal_bytes(out, n / 10);
    }
    out.push((48 + n % 10) as u8);
    assert(final(out)@ =~= old(out)@ + decimal_bytes(n as nat));
}

/// The position of the first line break in `s`, if any.
pub open spec fn first_newline(s: Seq<u8>) -> Option<int> {
    if exists|i: int| 0 <= i < s.len() && s[i] == 10u8 {
        Some(choose|i: int| 0 <= i < s.len() && s[i] == 10u8 && forall|j: int| 0 <= j < i ==> s[j] != 10u8)
    } else {
        None
    }
}

/// A writer's state: the tag for its lines and the bytes of the line not yet
/// ended. Whole lines leave it tagged; the last, unfinished line waits for
/// its line break or a flush.
pub struct PidLineWriter {
    prefix: Vec<u8>,
    buf: Vec<u8>,
}

impl PidLineWriter {
    /// The tag written before each line.
    pub closed spec fn prefix_view(&self) -> Seq<u8> {
        self.prefix@
    }

    /// The bytes waiting for the end of their line.
    pub closed spec fn pending(&self) -> Seq<u8> {
        self.buf@
    }

    /// A writer for process `pid`, with nothing pending.
    pub fn new(pid: u32) -> (w: PidLineWriter)
        ensures
            w.prefix_view() == pid_prefix(pid as nat),
            w.pending() == Seq::<u8>::empty(),
    {
        let mut prefix: Vec<u8> = Vec::new();
        prefix.push(91u8);
        prefix.push(112u8);
        prefix.push(105u8);
        prefix.push(100u8);
        prefix.push(61u8);
        push_decimal_bytes(&mut prefix, pid);
        prefix.push(93u8);
        prefix.push(32u8);
        assert(prefix@ =~= pid_prefix(pid as nat));
        PidLineWriter { prefix, buf: Vec::new() }
    }

    /// The tag, for writing before a line.
    pub fn prefix(&self) -> (r: &[u8])
        ensures
            r@ == self.prefix_view(),
    {
        self.prefix.as_slice()
    }

    /// Adds written bytes to the pending line.
    pub fn push_bytes(&mut self, data: &[u8])
        ensures
            final(self).prefix_view() == old(self).prefix_view(),
            final(self).pending() == old(self).pending() + data@,
    {
        let mut i: usize = 0;
        while i < data.len()
            invariant
                0 <= i <= data.len(),
                self.prefix@ == old(self).prefix@,
                self.buf@ == old(self).buf@ + data@.take(i as int),
            decreases data.len() - i,
        {
            self.buf.push(data[i]);
            i += 1;
            assert(self.buf@ =~= old(self).buf@ + data@.take(i as int));
        }
        assert(data@.take(data.len() as int) =~= data@);
    }

    /// Takes the first complete line, its line break included, out of the
    /// pending bytes; `None` when no line is complete.
    pub fn take_line(&mut self) -> (r: Option<Vec<u8>>)
        ensures
            final(self).prefix_view() == old(self).prefix_view(),
            match first_newline(old(self).pending()) {
                None => r is None && final(self).pending() == old(self).pending(),
                Some(p) => r matches Some(line) && line@ == old(self).pending().take(p + 1)
                    && final(self).pending() == old(self).pending().skip(p + 1),
            },
    {
        let mut i: usize = 0;
        while i < self.buf.len()
            invariant
                0 <= i <= self.buf.len(),
                self.prefix@ == old(self).prefix@,
                self.buf@ == old(self).buf@,
                forall|j: int| 0 <= j < i ==> self.buf@[j] != 10u8,
            decreases self.buf.len() - i,
        {
            if self.buf[i] == 10u8 {
                let ghost s = self.buf@;
                proof {
                    assert(exists|k: int| 0 <= k < s.len() && s[k] == 10u8);
                    let c = choose|k: int|
                        0 <= k < s.len() && s[k] == 10u8 && forall|j: int| 0 <= j < k ==> s[j] != 10u8;
                    assert(0 <= i < s.len() && s[i as int] == 10u8 && forall|j: int|
                        0 <= j < i ==> s[j] != 10u8);
                    if c < i {
                    } else if c > i {
                        assert(s[i as int] != 10u8);
                    }
                    assert(c == i);
                }
                let mut line: Vec<u8> = Vec::new();
                let mut rest: Vec<u8> = Vec::new();
                let mut k: usize = 0;
                while k < self.buf.len()
                    invariant
                        0 <= k <= self.buf.len(),
                        i < self.buf.len(),
                        self.buf@ == s,
                        k <= i + 1 ==> line@ == s.take(k as int) && rest@ == Seq::<u8>::empty(),
                        k > i + 1 ==> line@ == s.take(i + 1) && rest@ == s.subrange(
                            i + 1,
                            k as int,
                        ),
                    decreases self.buf.len() - k,
                {
                    if k <= i {
                        line.push(self.buf[k]);
                        assert(line@ =~= s.take(k + 1));
                    } else {
                        rest.push(self.buf[k]);
                        assert(rest@ =~= s.subrange(i + 1, k + 1));
                    }
                    k += 1;
                }
                assert(rest@ =~= s.skip(i + 1));
                self.buf = rest;
                return Some(line);
            }
            i += 1;
        }
        proof {
            let s = self.buf@;
            assert(!(exists|k: int| 0 <= k < s.len() && s[k] == 10u8));
        }
        None
    }

    /// Takes the whole pending line, if there is one, for writing it out
    /// unfinished; nothing is pending afterwards.
    pub fn flush_line(&mut self) -> (r: Option<Vec<u8>>)
        ensures
            final(self).prefix_view() == old(self).prefix_view(),
            final(self).pending() == Seq::<u8>::empty(),
            old(self).pending().len() == 0 ==> r is None,
            old(self).pending().len() > 0 ==> (r matches Some(line) && line@ == old(self).pending()),
    {
        if self.buf.len() == 0 {
            None
        } else {
            let mut line: Vec<u8> = Vec::new();
            std::mem::swap(&mut line, &mut self.buf);
            Some(line)
        }
    }

    /// Puts back a line whose writing failed: it is pending again, and what
    /// was pending is dropped.
    pub fn restore(&mut self, line: Vec<u8>)
        ensures
            final(self).prefix_view() == old(self).prefix_view(),
            final(self).pending() == line@,
    {
        self.buf = line;
    }
}

// ---------------------------------------------------------------------------
// Retention
// ---------------------------------------------------------------------------

/// `name` is that of a rotated log file.
pub open spec fn is_rotated_log(name: Seq<char>) -> bool {
    name.len() >= ROTATED_LOG_PREFIX@.len() && name.take(ROTATED_LOG_PREFIX@.len() as int)
        == ROTATED_LOG_PREFIX@
}

/// The oldest modification time, in nanoseconds since the Unix epoch, that a
/// log file may have and stay: `max_age_days` before `now`.
pub open spec fn retention_cutoff(now_nanos: int, max_age_days: nat) -> int {
    now_nanos - max_age_days * 86_400_000_000_000
}

/// The cut-off time for log retention.
pub fn log_cutoff(now_nanos: i128, max_age_days: u64) -> (r: i128)
    requires
        max_age_days * 86_400 <= u64::MAX,
        i128::MIN + 0x1_0000_0000_0000_0000_0000_0000 <= now_nanos,
    ensures
        r == retention_cutoff(now_nanos as int, max_age_days as nat),
{
    let secs: u64 = max_age_days * 86_400;
    let nanos: i128 = (secs as i128) * 1_000_000_000;
    now_nanos - nanos
}

/// A file in the log directory is removed when its name is that of a rotated
/// log and it was last modified before the cut-off.
pub fn should_remove_log(name: &str, modified_nanos: i128, cutoff_nanos: i128) -> (r: bool)
    ensures
        r == (is_rotated_log(name@) && modified_nanos < cutoff_nanos),
{
    let name_chars = crate::text::chars_of(name);
    let prefix_chars = crate::text::chars_of(ROTATED_LOG_PREFIX);
    if name_chars.len() < prefix_chars.len() {
        return false;
    }
    let mut i: usize = 0;
    while i < prefix_chars.len()
        invariant
            0 <= i <= prefix_chars.len() <= name_chars.len(),
            name_chars@ == name@,
            prefix_chars@ == ROTATED_LOG_PREFIX@,
            forall|j: int| 0 <= j < i ==> name_chars@[j] == prefix_chars@[j],
        decreases prefix_chars.len() - i,
    {
        if name_chars[i] != prefix_chars[i] {
            assert(name@.take(prefix_chars.len() as int)[i as int] != ROTATED_LOG_PREFIX@[i as int]);
            return false;
        }
        i += 1;
    }
    assert(name@.take(prefix_chars.len() as int) =~= ROTATED_LOG_PREFIX@);
    modified_nanos < cutoff_nanos
}

} // verus!
