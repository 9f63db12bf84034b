//! The reverse history scanner: recover the most recent usable command
//! from the bytes of an append-only, line-oriented shell history log.
//!
//! A record is a line that begins with `- cmd: `; its command text is
//! the rest of the line with whitespace runs collapsed to single spaces.
//! Scanning walks the lines backward from the end of the log and stops
//! at the first record whose command does not end in `nav add` (the
//! invocation that triggers capture, which must not record itself). An
//! empty command, or no qualifying record at all, counts as nothing
//! found. The surrounding binary reads the log file and hands the bytes
//! in; absence of the file is its concern.

use vstd::prelude::*;

verus! {

/// The newline byte that separates records in the log.
pub open spec fn nl() -> u8 {
    10u8
}

/// ASCII whitespace, as the command normalisation treats it.
pub open spec fn is_ws(b: u8) -> bool {
    b == 32 || b == 9 || b == 10 || b == 11 || b == 12 || b == 13
}

/// The marker that opens a command record: the bytes of `- cmd: `.
pub open spec fn cmd_prefix() -> Seq<u8> {
    seq![45u8, 32u8, 99u8, 109u8, 100u8, 58u8, 32u8]
}

/// The self-invocation tail that is never returned: the bytes of
/// `nav add`.
pub open spec fn self_suffix() -> Seq<u8> {
    seq![110u8, 97u8, 118u8, 32u8, 97u8, 100u8, 100u8]
}

pub open spec fn starts_with(s: Seq<u8>, p: Seq<u8>) -> bool {
    p.len() <= s.len() && s.subrange(0, p.len() as int) == p
}

pub open spec fn ends_with(s: Seq<u8>, p: Seq<u8>) -> bool {
    p.len() <= s.len() && s.subrange(s.len() - p.len(), s.len() as int) == p
}

/// Whitespace normalisation from position `i` on: characters are kept
/// in order, leading and trailing whitespace is dropped, and each inner
/// whitespace run becomes one space. `emitted` says whether a word
/// character stands to the left already, `ws_since` whether whitespace
/// was seen since the last one.
pub open spec fn collapse_from(s: Seq<u8>, i: int, emitted: bool, ws_since: bool) -> Seq<u8>
    decreases s.len() - i,
    when 0 <= i <= s.len()
{
    if i >= s.len() {
        Seq::empty()
    } else if is_ws(s[i]) {
        collapse_from(s, i + 1, emitted, true)
    } else {
        (if emitted && ws_since {
            seq![32u8]
        } else {
            Seq::empty()
        }) + seq![s[i]] + collapse_from(s, i + 1, true, false)
    }
}

/// The command text of a whole sequence of bytes: its whitespace
/// collapsed.
pub open spec fn collapsed(s: Seq<u8>) -> Seq<u8> {
    collapse_from(s, 0, false, false)
}

/// The command text carried by a record line: what follows the marker,
/// collapsed.
pub open spec fn command_of(line: Seq<u8>) -> Seq<u8>
    recommends
        starts_with(line, cmd_prefix()),
{
    collapsed(line.subrange(cmd_prefix().len() as int, line.len() as int))
}

/// A line qualifies when it is a command record and its command does
/// not end with the self-invocation tail.
pub open spec fn line_qualifies(line: Seq<u8>) -> bool {
    starts_with(line, cmd_prefix()) && !ends_with(command_of(line), self_suffix())
}

/// The start of the line that ends just before position `end`: the
/// position after the previous newline, or the start of the log.
pub open spec fn line_start(s: Seq<u8>, end: int) -> int
    decreases end,
    when 0 <= end <= s.len()
{
    if end <= 0 {
        0
    } else if s[end - 1] == nl() {
        end
    } else {
        line_start(s, end - 1)
    }
}

pub proof fn lemma_line_start_bounds(s: Seq<u8>, end: int)
    requires
        0 <= end <= s.len(),
    ensures
        0 <= line_start(s, end) <= end,
        line_start(s, end) > 0 ==> s[line_start(s, end) - 1] == nl(),
        forall|k: int| line_start(s, end) <= k < end ==> s[k] != nl(),
    decreases end,
{
    if end > 0 && s[end - 1] != nl() {
        lemma_line_start_bounds(s, end - 1);
    }
}

/// The backward scan over the region `s[0 .. end]`: the latest line of
/// the region that qualifies yields its command; a region without a
/// qualifying line yields nothing.
pub open spec fn scan_region(s: Seq<u8>, end: int) -> Option<Seq<u8>>
    decreases end,
    when 0 <= end <= s.len()
    via scan_region_decreases
{
    let start = line_start(s, end);
    if line_qualifies(s.subrange(start, end)) {
        Some(command_of(s.subrange(start, end)))
    } else if start == 0 {
        None
    } else {
        scan_region(s, start - 1)
    }
}

#[via_fn]
proof fn scan_region_decreases(s: Seq<u8>, end: int) {
    lemma_line_start_bounds(s, end);
}

/// What the scan of a whole log yields: the command of the latest
/// qualifying record, unless that command is empty.
pub open spec fn scan_history_spec(s: Seq<u8>) -> Option<Seq<u8>> {
    match scan_region(s, s.len() as int) {
        Some(c) => if c.len() == 0 {
            None
        } else {
            Some(c)
        },
        None => None,
    }
}

/// Law: when the line nearest the tail qualifies, its command is the
/// scan's answer — no older record can win.
pub proof fn lemma_latest_qualifying_line_wins(s: Seq<u8>)
    requires
        line_qualifies(s.subrange(line_start(s, s.len() as int), s.len() as int)),
    ensures
        scan_region(s, s.len() as int) == Some(
            command_of(s.subrange(line_start(s, s.len() as int), s.len() as int)),
        ),
{
}

/// Law: a tail line that does not qualify (a non-record line, or a
/// record of the self-invocation) is skipped, and the scan of the log
/// is the scan of everything before that line.
pub proof fn lemma_non_qualifying_tail_skipped(s: Seq<u8>, end: int)
    requires
        0 <= end <= s.len(),
        !line_qualifies(s.subrange(line_start(s, end), end)),
        line_start(s, end) > 0,
    ensures
        scan_region(s, end) == scan_region(s, line_start(s, end) - 1),
{
    lemma_line_start_bounds(s, end);
}

/// Law: an empty log yields no command.
pub proof fn lemma_empty_log_finds_nothing()
    ensures
        scan_history_spec(Seq::<u8>::empty()) is None,
{
    let s = Seq::<u8>::empty();
    assert(!starts_with(s.subrange(line_start(s, 0), 0), cmd_prefix()));
}

fn is_ws_byte(b: u8) -> (r: bool)
    ensures
        r == is_ws(b),
{
    b == 32 || b == 9 || b == 10 || b == 11 || b == 12 || b == 13
}

/// The marker bytes as a vector, for the running comparisons.
fn cmd_prefix_vec() -> (r: Vec<u8>)
    ensures
        r@ == cmd_prefix(),
{
    let mut v: Vec<u8> = Vec::new();
    v.push(45);
    v.push(32);
    v.push(99);
    v.push(109);
    v.push(100);
    v.push(58);
    v.push(32);
    proof {
        assert(v@ =~= cmd_prefix());
    }
    v
}

/// The self-invocation tail as a vector.
fn self_suffix_vec() -> (r: Vec<u8>)
    ensures
        r@ == self_suffix(),
{
    let mut v: Vec<u8> = Vec::new();
    v.push(110);
    v.push(97);
    v.push(118);
    v.push(32);
    v.push(97);
    v.push(100);
    v.push(100);
    proof {
        assert(v@ =~= self_suffix());
    }
    v
}

/// Whether `bytes[off .. off + p.len()]` equals `p`.
fn range_eq(bytes: &Vec<u8>, off: usize, p: &Vec<u8>) -> (r: bool)
    requires
        off + p@.len() <= bytes@.len(),
    ensures
        r == (bytes@.subrange(off as int, off + p@.len()) == p@),
{
    let n = bytes.len();
    let mut i: usize = 0;
    while i < p.len()
        invariant
            i <= p@.len(),
            off + p@.len() <= n == bytes@.len(),
            forall|k: int| 0 <= k < i ==> bytes@[off + k] == p@[k],
        decreases p@.len() - i,
    {
        if bytes[off + i] != p[i] {
            proof {
                assert(bytes@.subrange(off as int, off + p@.len())[i as int] != p@[i as int]);
            }
            return false;
        }
        i += 1;
    }
    proof {
        assert(bytes@.subrange(off as int, off + p@.len()) =~= p@);
    }
    true
}

/// Collapse the whitespace of `bytes[from .. to]` into a fresh vector.
fn collapse_range(bytes: &Vec<u8>, from: usize, to: usize) -> (out: Vec<u8>)
    requires
        from <= to <= bytes@.len(),
    ensures
        out@ == collapsed(bytes@.subrange(from as int, to as int)),
{
    let ghost s = bytes@.subrange(from as int, to as int);
    let mut out: Vec<u8> = Vec::new();
    let mut ws_since = false;
    let mut i: usize = from;
    while i < to
        invariant
            from <= i <= to <= bytes@.len(),
            s == bytes@.subrange(from as int, to as int),
            collapsed(s) == out@ + collapse_from(s, i - from, out@.len() > 0, ws_since),
        decreases to - i,
    {
        let ghost j = i - from;
        proof {
            assert(s[j] == bytes@[i as int]);
        }
        let b = bytes[i];
        if is_ws_byte(b) {
            ws_since = true;
        } else {
            let ghost out0 = out@;
            if out.len() > 0 && ws_since {
                out.push(32);
            }
            out.push(b);
            ws_since = false;
            proof {
                assert(collapse_from(s, j, out0.len() > 0, ws_since) == (if out0.len() > 0
                    && ws_since {
                    seq![32u8]
                } else {
                    Seq::<u8>::empty()
                }) + seq![s[j]] + collapse_from(s, j + 1, true, false));
            }
        }
        i += 1;
        proof {
            assert(collapsed(s) == out@ + collapse_from(s, i - from, out@.len() > 0, ws_since));
        }
    }
    proof {
        assert(collapse_from(s, s.len() as int, out@.len() > 0, ws_since) == Seq::<u8>::empty());
        assert(out@ + Seq::<u8>::empty() =~= out@);
    }
    out
}

/// Scan the bytes of a history log backward and return the command of
/// the latest qualifying record, if any.
pub fn scan_history(bytes: &Vec<u8>) -> (r: Option<Vec<u8>>)
    ensures
        match r {
            Some(c) => scan_history_spec(bytes@) == Some(c@),
            None => scan_history_spec(bytes@) is None,
        },
{
    let ghost s = bytes@;
    let prefix = cmd_prefix_vec();
    let suffix = self_suffix_vec();
    let mut end: usize = bytes.len();
    loop
        invariant
            end <= s.len(),
            s == bytes@,
            prefix@ == cmd_prefix(),
            suffix@ == self_suffix(),
            scan_region(s, s.len() as int) == scan_region(s, end as int),
        decreases end,
    {
        proof {
            lemma_line_start_bounds(s, end as int);
        }
        let mut start: usize = end;
        while start > 0 && bytes[start - 1] != 10
            invariant
                0 <= start <= end <= s.len(),
                s == bytes@,
                line_start(s, end as int) == line_start(s, start as int),
            decreases start,
        {
            start = start - 1;
        }
        proof {
            assert(line_start(s, end as int) == start as int);
        }
        let ghost line = s.subrange(start as int, end as int);
        let mut qualifies = false;
        let mut cmd: Vec<u8> = Vec::new();
        if end - start >= prefix.len() && range_eq(bytes, start, &prefix) {
            proof {
                assert(line.subrange(0, cmd_prefix().len() as int) =~= s.subrange(
                    start as int,
                    start + cmd_prefix().len(),
                ));
                assert(starts_with(line, cmd_prefix()));
            }
            cmd = collapse_range(bytes, start + prefix.len(), end);
            proof {
                assert(line.subrange(cmd_prefix().len() as int, line.len() as int) =~= s.subrange(
                    start + cmd_prefix().len(),
                    end as int,
                ));
                assert(cmd@ == command_of(line));
            }
            let suffix_absent: bool = if cmd.len() >= suffix.len() {
                !range_eq(&cmd, cmd.len() - suffix.len(), &suffix)
            } else {
                true
            };
            if suffix_absent {
                qualifies = true;
            }
            proof {
                assert(qualifies == line_qualifies(line));
            }
        } else {
            proof {
                if starts_with(line, cmd_prefix()) {
                    assert(s.subrange(start as int, start + cmd_prefix().len()) =~= line.subrange(
                        0,
                        cmd_prefix().len() as int,
                    ));
                }
                assert(!line_qualifies(line));
            }
        }
        if qualifies {
            proof {
                assert(scan_region(s, end as int) == Some(command_of(line)));
            }
            if cmd.len() == 0 {
                return None;
            } else {
                return Some(cmd);
            }
        }
        proof {
            assert(scan_region(s, end as int) == if start == 0 {
                None
            } else {
                scan_region(s, start - 1)
            });
        }
        if start == 0 {
            return None;
        }
        end = start - 1;
    }
}

} // verus!
