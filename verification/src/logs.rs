use vstd::prelude::*;

use crate::api::lit;
use crate::state::LogType;
use crate::text::{
    chars_of, find_first, find_from, lemma_find_first_matches, push_all, string_of_range, string_views, trim, trim_start,
    trimmed, trimmed_start,
};

verus! {

// ---------------------------------------------------------------------------
// Writing log lines
// ---------------------------------------------------------------------------

/// How a kind of log line is named in the log.
pub open spec fn log_type_name(kind: LogType) -> Seq<char> {
    match kind {
        LogType::Error => "ERROR"@,
        LogType::Warning => "WARN"@,
        LogType::Info => "INFO"@,
        LogType::Debug => "DEBUG"@,
    }
}

/// A line of the log: `[timestamp] KIND: message` and a line break.
pub open spec fn log_line_spec(timestamp: Seq<char>, kind: LogType, msg: Seq<char>) -> Seq<char> {
    "["@ + timestamp + "] "@ + log_type_name(kind) + ": "@ + msg + "\n"@
}

pub fn log_type_text(kind: LogType) -> (r: String)
    ensures
        r@ == log_type_name(kind),
{
    match kind {
        LogType::Error => lit("ERROR"),
        LogType::Warning => lit("WARN"),
        LogType::Info => lit("INFO"),
        LogType::Debug => lit("DEBUG"),
    }
}

/// The line written to the log for `msg` of the given kind at the given time.
pub fn log_line(timestamp: &str, kind: LogType, msg: &str) -> (r: String)
    ensures
        r@ == log_line_spec(timestamp@, kind, msg@),
{
    let mut r = lit("[");
    push_all(&mut r, timestamp);
    push_all(&mut r, "] ");
    let name = log_type_text(kind);
    push_all(&mut r, name.as_str());
    push_all(&mut r, ": ");
    push_all(&mut r, msg);
    push_all(&mut r, "\n");
    r
}

// ---------------------------------------------------------------------------
// Reading log lines
// ---------------------------------------------------------------------------

/// The text that `String::from_utf8_lossy` makes of bytes.
pub uninterp spec fn lossy(bytes: Seq<u8>) -> Seq<char>;

/// std's `String::from_utf8_lossy`: the contract names its text `lossy` of the bytes.
#[verifier::external_body]
fn from_utf8_lossy(bytes: &[u8]) -> (r: String)
    ensures
        r@ == lossy(bytes@),
{
    String::from_utf8_lossy(bytes).to_string()
}

/// The position of the first line break in `buf`.
pub open spec fn first_newline(buf: Seq<u8>) -> Option<int>
    decreases buf.len(),
{
    if buf.len() == 0 {
        None
    } else if buf[0] == 10u8 {
        Some(0)
    } else {
        match first_newline(buf.drop_first()) {
            Some(i) => Some(i + 1),
            None => None,
        }
    }
}

/// The position of the last line break in `buf`.
pub open spec fn last_newline(buf: Seq<u8>) -> Option<int>
    decreases buf.len(),
{
    if buf.len() == 0 {
        None
    } else if buf.last() == 10u8 {
        Some(buf.len() - 1)
    } else {
        last_newline(buf.drop_last())
    }
}

pub proof fn lemma_first_newline(buf: Seq<u8>)
    ensures
        first_newline(buf) matches Some(i) ==> 0 <= i < buf.len() && buf[i] == 10u8,
        first_newline(buf) is None ==> forall|j: int| 0 <= j < buf.len() ==> buf[j] != 10u8,
    decreases buf.len(),
{
    if buf.len() > 0 && buf[0] != 10u8 {
        lemma_first_newline(buf.drop_first());
        assert forall|j: int| 0 < j < buf.len() implies buf[j] == buf.drop_first()[j - 1] by {}
    }
}

pub proof fn lemma_last_newline(buf: Seq<u8>)
    ensures
        last_newline(buf) matches Some(i) ==> 0 <= i < buf.len() && buf[i] == 10u8,
    decreases buf.len(),
{
    if buf.len() > 0 && buf.last() != 10u8 {
        lemma_last_newline(buf.drop_last());
    }
}

/// The complete lines at the front of `buf`, read as text and trimmed, the empty ones left
/// out; and the bytes after the last line break.
pub open spec fn front_lines(buf: Seq<u8>) -> (Seq<Seq<char>>, Seq<u8>)
    decreases buf.len(),
{
    match first_newline(buf) {
        None => (Seq::empty(), buf),
        Some(p) => {
            proof {
                lemma_first_newline(buf);
            }
            let s = trimmed(lossy(buf.take(p + 1)));
            let rest = front_lines(buf.skip(p + 1));
            (if s.len() > 0 {
                seq![s] + rest.0
            } else {
                rest.0
            }, rest.1)
        },
    }
}

/// Takes the complete lines out of the front of `buffer`, for bytes that were appended to
/// the log.
pub fn drain_lines(buffer: &mut Vec<u8>) -> (lines: Vec<String>)
    ensures
        string_views(lines@) == front_lines(old(buffer)@).0,
        final(buffer)@ == front_lines(old(buffer)@).1,
{
    let mut lines: Vec<String> = Vec::new();
    let ghost orig = buffer@;
    loop
        invariant
            orig == old(buffer)@,
            string_views(lines@) + front_lines(buffer@).0 == front_lines(orig).0,
            front_lines(buffer@).1 == front_lines(orig).1,
        decreases buffer@.len(),
    {
        let ghost before = buffer@;
        let mut pos: usize = 0;
        while pos < buffer.len() && buffer[pos] != 10u8
            invariant
                pos <= buffer.len(),
                buffer@ == before,
                forall|j: int| 0 <= j < pos ==> buffer@[j] != 10u8,
            decreases buffer.len() - pos,
        {
            pos += 1;
        }
        proof {
            lemma_first_newline(before);
            lemma_first_newline_at(before, pos as int);
        }
        if pos == buffer.len() {
            assert(string_views(lines@) + Seq::<Seq<char>>::empty() =~= string_views(lines@));
            return lines;
        }
        let rest = buffer.split_off(pos + 1);
        let line = from_utf8_lossy(buffer.as_slice());
        let t = trim(line.as_str());
        let ghost prev = string_views(lines@);
        if !t.as_str().is_empty() {
            lines.push(t);
            assert(string_views(lines@) =~= prev.push(trimmed(lossy(before.take(pos as int + 1)))));
        }
        *buffer = rest;
        assert(buffer@ =~= before.skip(pos as int + 1));
        assert(string_views(lines@) + front_lines(buffer@).0 =~= front_lines(orig).0);
    }
}

/// The first line break of `buf` is at `p` where everything before `p` is not one.
proof fn lemma_first_newline_at(buf: Seq<u8>, p: int)
    requires
        0 <= p <= buf.len(),
        forall|j: int| 0 <= j < p ==> buf[j] != 10u8,
        p < buf.len() ==> buf[p] == 10u8,
    ensures
        p < buf.len() ==> first_newline(buf) == Some(p),
        p == buf.len() ==> first_newline(buf) is None,
    decreases p,
{
    if p > 0 {
        lemma_first_newline_at(buf.drop_first(), p - 1);
    } else if buf.len() == 0 {
    }
}

/// How the length of the log file changed since it was last read.
#[derive(Debug, Clone, Copy, PartialEq, Eq, Structural)]
pub enum LogChange {
    /// It grew: the new bytes are to be read.
    Grew,
    /// It shrank: it was cleared, and is read again from its start.
    Shrank,
    Same,
}

pub fn log_change(last: u64, current: u64) -> (r: LogChange)
    ensures
        r == if current > last {
            LogChange::Grew
        } else if current < last {
            LogChange::Shrank
        } else {
            LogChange::Same
        },
{
    if current > last {
        LogChange::Grew
    } else if current < last {
        LogChange::Shrank
    } else {
        LogChange::Same
    }
}

// ---------------------------------------------------------------------------
// Reading the log backwards
// ---------------------------------------------------------------------------

/// Where reading the log backwards has got to: the bytes before `cursor` are not read yet.
#[derive(Debug)]
pub struct LogReader {
    pub cursor: u64,
}

/// What a backward read has gathered: the bytes read but not yet split into lines, and the
/// lines found so far, newest first.
#[derive(Debug)]
pub struct PreviousLines {
    pub buffer: Vec<u8>,
    pub lines: Vec<String>,
}

/// The size of the chunks read backwards.
pub open spec fn chunk_size() -> u64 {
    1024
}

/// The lines split off the end of `buf`, after `lines`, while fewer than `n` are held:
/// each line break ends the line after it, which is kept when it is not empty as text.
pub open spec fn back_lines(buf: Seq<u8>, lines: Seq<Seq<char>>, n: nat) -> (Seq<u8>, Seq<Seq<char>>)
    decreases buf.len(),
{
    match last_newline(buf) {
        None => (buf, lines),
        Some(pos) => if lines.len() >= n {
            (buf, lines)
        } else {
            proof {
                lemma_last_newline(buf);
            }
            let line = buf.skip(pos);
            let more = if line.len() > 1 && lossy(line.skip(1)).len() > 0 {
                lines.push(lossy(line.skip(1)))
            } else {
                lines
            };
            back_lines(buf.take(pos), more, n)
        },
    }
}

/// What is left to read at the start of the log, when all of it has been read and fewer
/// than `n` lines were found.
pub open spec fn finished_lines(cursor: u64, buf: Seq<u8>, lines: Seq<Seq<char>>, n: nat) -> Seq<Seq<char>> {
    if cursor == 0 && buf.len() > 0 && lines.len() < n {
        lines.push(lossy(buf))
    } else {
        lines
    }
}

impl LogReader {
    /// A reader at the end of a log of `len` bytes.
    pub fn new(len: u64) -> (r: LogReader)
        ensures
            r.cursor == len,
    {
        LogReader { cursor: len }
    }

    /// More is to be read: fewer than `n` lines were found and the start is not reached.
    pub fn wants_more(&self, got: &PreviousLines, n: usize) -> (r: bool)
        ensures
            r == (got.lines.len() < n && self.cursor > 0),
    {
        got.lines.len() < n && self.cursor > 0
    }

    /// The next chunk to read: the up to 1024 bytes before the cursor, which moves back over
    /// them. Gives where the chunk starts and how long it is.
    pub fn next_read(&mut self) -> (r: (u64, u64))
        ensures
            r.1 == if old(self).cursor < chunk_size() {
                old(self).cursor
            } else {
                chunk_size()
            },
            final(self).cursor == old(self).cursor - r.1,
            r.0 == final(self).cursor,
    {
        let to_read = if self.cursor < 1024 {
            self.cursor
        } else {
            1024
        };
        self.cursor = self.cursor - to_read;
        (self.cursor, to_read)
    }

    /// The lines found, with what is left at the start of the log once all of it is read.
    pub fn finish(&self, got: PreviousLines, n: usize) -> (r: Vec<String>)
        ensures
            string_views(r@) == finished_lines(self.cursor, got.buffer@, string_views(got.lines@), n as nat),
    {
        let mut lines = got.lines;
        if self.cursor == 0 && got.buffer.len() > 0 && lines.len() < n {
            let ghost prev = string_views(lines@);
            lines.push(from_utf8_lossy(got.buffer.as_slice()));
            assert(string_views(lines@) =~= prev.push(lossy(got.buffer@)));
        }
        lines
    }
}

impl PreviousLines {
    pub fn new() -> (r: PreviousLines)
        ensures
            r.buffer@.len() == 0,
            r.lines@.len() == 0,
    {
        PreviousLines { buffer: Vec::new(), lines: Vec::new() }
    }

    /// Puts a chunk read just before the bytes held in front of them, and splits lines off
    /// the end while fewer than `n` are held.
    pub fn feed(&mut self, chunk: Vec<u8>, n: usize)
        ensures
            final(self).buffer@ == back_lines(chunk@ + old(self).buffer@, string_views(old(self).lines@), n as nat).0,
            string_views(final(self).lines@) == back_lines(chunk@ + old(self).buffer@, string_views(old(self).lines@), n as nat).1,
    {
        let mut buf = chunk;
        let mut held: Vec<u8> = Vec::new();
        std::mem::swap(&mut held, &mut self.buffer);
        let ghost joined = buf@ + held@;
        buf.append(&mut held);
        assert(buf@ =~= joined);
        let ghost goal = back_lines(joined, string_views(self.lines@), n as nat);
        assert(goal == back_lines(chunk@ + old(self).buffer@, string_views(old(self).lines@), n as nat));
        loop
            invariant
                goal == back_lines(chunk@ + old(self).buffer@, string_views(old(self).lines@), n as nat),
                back_lines(buf@, string_views(self.lines@), n as nat) == goal,
            decreases buf@.len(),
        {
            let ghost before = buf@;
            let mut pos: usize = buf.len();
            while pos > 0 && buf[pos - 1] != 10u8
                invariant
                    pos <= buf.len(),
                    buf@ == before,
                    forall|j: int| pos <= j < buf.len() ==> buf@[j] != 10u8,
                decreases pos,
            {
                pos -= 1;
            }
            proof {
                lemma_last_newline_at(before, pos as int);
            }
            if pos == 0 || self.lines.len() >= n {
                self.buffer = buf;
                return;
            }
            let p = pos - 1;
            let line = buf.split_off(p);
            let ghost prev = string_views(self.lines@);
            if line.len() > 1 {
                let s = from_utf8_lossy(slice_from(&line, 1).as_slice());
                if !s.as_str().is_empty() {
                    self.lines.push(s);
                    assert(string_views(self.lines@) =~= prev.push(lossy(before.skip(p as int).skip(1))));
                }
            }
            assert(line@ =~= before.skip(p as int));
            assert(buf@ =~= before.take(p as int));
            proof {
                if line.len() > 1 {
                    assert(line@.skip(1) =~= before.skip(p as int).skip(1));
                }
            }
        }
    }
}

/// The bytes of `v` from index `from` on.
fn slice_from(v: &Vec<u8>, from: usize) -> (r: Vec<u8>)
    requires
        from <= v.len(),
    ensures
        r@ == v@.skip(from as int),
{
    let mut r: Vec<u8> = Vec::new();
    let mut i = from;
    while i < v.len()
        invariant
            from <= i <= v.len(),
            r@ == v@.subrange(from as int, i as int),
        decreases v.len() - i,
    {
        r.push(v[i]);
        assert(v@.subrange(from as int, i as int + 1) =~= v@.subrange(from as int, i as int).push(v@[i as int]));
        i += 1;
    }
    assert(v@.subrange(from as int, v.len() as int) =~= v@.skip(from as int));
    r
}

/// The last line break of `buf` is just before `p` where nothing after it is one.
proof fn lemma_last_newline_at(buf: Seq<u8>, p: int)
    requires
        0 <= p <= buf.len(),
        forall|j: int| p <= j < buf.len() ==> buf[j] != 10u8,
        p > 0 ==> buf[p - 1] == 10u8,
    ensures
        p > 0 ==> last_newline(buf) == Some(p - 1),
        p == 0 ==> last_newline(buf) is None,
    decreases buf.len() - p,
{
    if p < buf.len() {
        lemma_last_newline_at(buf.drop_last(), p);
    } else if p == 0 {
    }
}

// ---------------------------------------------------------------------------
// Showing log lines
// ---------------------------------------------------------------------------

/// The parts of a log line `[date time] KIND: text`: the date, the time, the kind and the
/// text; `None` where the line has no `]`, no space before it, or no `: ` after it.
pub open spec fn parse_log_spec(l: Seq<char>) -> Option<(Seq<char>, Seq<char>, Seq<char>, Seq<char>)> {
    match find_first(l, seq![']']) {
        None => None,
        Some(b) => {
            let dt = l.subrange(1, b);
            match find_first(dt, seq![' ']) {
                None => None,
                Some(sp) => {
                    let rest = trimmed_start(l.skip(b + 1));
                    match find_first(rest, seq![':', ' ']) {
                        None => None,
                        Some(c) => Some((dt.take(sp), dt.skip(sp + 1), rest.take(c), rest.skip(c + 2))),
                    }
                },
            }
        },
    }
}

/// Parsing does not fail: where there is a `]`, it is not the first character, and the
/// first character is one byte long.
pub open spec fn parse_log_ok(l: Seq<char>) -> bool {
    match find_first(l, seq![']']) {
        Some(b) => b >= 1 && crate::textbuf::char_len(l[0]) == 1,
        None => true,
    }
}

/// Splits a log line into its date, time, kind and text.
pub fn parse_log(line: &str) -> (r: Option<(String, String, String, String)>)
    requires
        parse_log_ok(line@),
    ensures
        match r {
            Some((a, b, c, d)) => parse_log_spec(line@) == Some((a@, b@, c@, d@)),
            None => parse_log_spec(line@) is None,
        },
{
    let v = chars_of(line);
    let mut close: Vec<char> = Vec::new();
    close.push(']');
    assert(close@ =~= seq![']']);
    assert(v@.skip(0) =~= v@);
    let b = match find_from(&v, &close, 0) {
        None => return None,
        Some(b) => b,
    };
    proof {
        lemma_find_first_matches(v@, seq![']']);
    }
    let dt = slice_chars(&v, 1, b);
    let mut sp_pat: Vec<char> = Vec::new();
    sp_pat.push(' ');
    assert(sp_pat@ =~= seq![' ']);
    assert(dt@.skip(0) =~= dt@);
    let sp = match find_from(&dt, &sp_pat, 0) {
        None => return None,
        Some(sp) => sp,
    };
    proof {
        lemma_find_first_matches(dt@, seq![' ']);
    }
    let after = string_of_range(&v, b + 1, v.len());
    assert(v@.subrange(b + 1, v.len() as int) =~= v@.skip(b + 1));
    let rest_s = trim_start(after.as_str());
    let rest = chars_of(rest_s.as_str());
    let mut cs: Vec<char> = Vec::new();
    cs.push(':');
    cs.push(' ');
    assert(cs@ =~= seq![':', ' ']);
    assert(rest@.skip(0) =~= rest@);
    let c = match find_from(&rest, &cs, 0) {
        None => return None,
        Some(c) => c,
    };
    proof {
        lemma_find_first_matches(rest@, seq![':', ' ']);
    }
    let date = string_of_range(&dt, 0, sp);
    let time = string_of_range(&dt, sp + 1, dt.len());
    let kind = string_of_range(&rest, 0, c);
    let text = string_of_range(&rest, c + 2, rest.len());
    assert(dt@.subrange(0, sp as int) =~= dt@.take(sp as int));
    assert(dt@.subrange(sp as int + 1, dt.len() as int) =~= dt@.skip(sp as int + 1));
    assert(rest@.subrange(0, c as int) =~= rest@.take(c as int));
    assert(rest@.subrange(c as int + 2, rest.len() as int) =~= rest@.skip(c as int + 2));
    Some((date, time, kind, text))
}

/// The characters `v[from..to]`.
fn slice_chars(v: &Vec<char>, from: usize, to: usize) -> (r: Vec<char>)
    requires
        from <= to <= v.len(),
    ensures
        r@ == v@.subrange(from as int, to as int),
{
    let mut r: Vec<char> = Vec::new();
    let mut k = from;
    while k < to
        invariant
            from <= k <= to <= v.len(),
            r@ == v@.subrange(from as int, k as int),
        decreases to - k,
    {
        r.push(v[k]);
        assert(v@.subrange(from as int, k as int + 1) =~= v@.subrange(from as int, k as int).push(v@[k as int]));
        k += 1;
    }
    r
}

/// Whether splitting the log line does not fail.
pub fn parse_log_ok_exec(line: &str) -> (r: bool)
    ensures
        r == parse_log_ok(line@),
{
    let v = chars_of(line);
    let mut close: Vec<char> = Vec::new();
    close.push(']');
    assert(close@ =~= seq![']']);
    assert(v@.skip(0) =~= v@);
    match find_from(&v, &close, 0) {
        None => true,
        Some(b) => {
            proof {
                lemma_find_first_matches(v@, seq![']']);
            }
            b >= 1 && crate::textbuf::char_len_exec(v[0]) == 1
        },
    }
}

} // verus!
