use vstd::prelude::*;

use crate::json::{push_char, str_chars};
use vstd::string::StringExecFns;

verus! {

/// The total character length of a list of lines.
pub open spec fn lines_len(ls: Seq<String>) -> int
    decreases ls.len(),
{
    if ls.len() == 0 {
        0
    } else {
        lines_len(ls.drop_last()) + ls.last()@.len()
    }
}

pub proof fn lemma_lines_len_nonneg(ls: Seq<String>)
    ensures
        lines_len(ls) >= 0,
    decreases ls.len(),
{
    if ls.len() > 0 {
        lemma_lines_len_nonneg(ls.drop_last());
    }
}

/// No line is longer than all lines together.
pub proof fn lemma_lines_len_elem(ls: Seq<String>, k: int)
    requires
        0 <= k < ls.len(),
    ensures
        ls[k]@.len() <= lines_len(ls),
    decreases ls.len(),
{
    if k == ls.len() - 1 {
        lemma_lines_len_nonneg(ls.drop_last());
    } else {
        lemma_lines_len_elem(ls.drop_last(), k);
        assert(ls.drop_last()[k] == ls[k]);
    }
}

/// A copy of the character range `[from, to)`.
fn chars_to_string(cs: &Vec<char>, from: usize, to: usize) -> (r: String)
    requires
        from <= to <= cs@.len(),
    ensures
        r@ =~= cs@.subrange(from as int, to as int),
{
    let mut r: String = String::new();
    let mut i: usize = from;
    while i < to
        invariant
            from <= i <= to <= cs@.len(),
            r@ =~= cs@.subrange(from as int, i as int),
        decreases to - i,
    {
        proof {
            assert(cs@.subrange(from as int, i as int).push(cs@[i as int]) =~= cs@.subrange(
                from as int,
                i as int + 1,
            ));
        }
        push_char(&mut r, cs[i]);
        i = i + 1;
    }
    r
}

/// Whether a character counts as blank when lines are trimmed.
fn is_blank(c: char) -> (r: bool) {
    c == ' ' || c == '\t' || c == '\n' || c == '\r'
}

/// Whether a character is a decimal digit.
fn is_digit(c: char) -> (r: bool) {
    let u: u32 = c as u32;
    u >= 48 && u <= 57
}

/// The blank-trimmed bounds of the character range `[from, to)`.
fn trim_bounds(cs: &Vec<char>, from: usize, to: usize) -> (r: (usize, usize))
    requires
        from <= to <= cs@.len(),
    ensures
        from <= r.0 <= r.1 <= to,
{
    let mut a: usize = from;
    let mut b: usize = to;
    while a < b && is_blank(cs[a])
        invariant
            from <= a <= b <= to <= cs@.len(),
        decreases b - a,
    {
        a = a + 1;
    }
    while a < b && is_blank(cs[b - 1])
        invariant
            from <= a <= b <= to <= cs@.len(),
        decreases b,
    {
        b = b - 1;
    }
    (a, b)
}

/// The blank-trimmed copy of a string: never longer than its input.
fn trim_str(s: &str) -> (r: String)
    ensures
        r@.len() <= s@.len(),
{
    let cs: Vec<char> = str_chars(s);
    let bounds = trim_bounds(&cs, 0, cs.len());
    chars_to_string(&cs, bounds.0, bounds.1)
}

/// A string of `n` copies of one character.
fn repeat_char(c: char, n: usize) -> (r: String)
    ensures
        r@.len() == n,
{
    let mut r: String = String::new();
    let mut i: usize = 0;
    while i < n
        invariant
            i <= n,
            r@.len() == i,
        decreases n - i,
    {
        push_char(&mut r, c);
        i = i + 1;
    }
    r
}

/// The first position of `": Error("` in the characters, if any.
fn find_error_marker(cs: &Vec<char>) -> (r: Option<usize>)
    ensures
        match r {
            Some(i) => i + 8 <= cs@.len(),
            None => true,
        },
{
    let n: usize = cs.len();
    if n < 8 {
        return None;
    }
    let mut i: usize = 0;
    while i <= n - 8
        invariant
            n == cs@.len(),
            8 <= n,
            i <= n - 8 + 1,
        decreases n - i,
    {
        if cs[i] == ':' && cs[i + 1] == ' ' && cs[i + 2] == 'E' && cs[i + 3] == 'r' && cs[i + 4]
            == 'r' && cs[i + 5] == 'o' && cs[i + 6] == 'r' && cs[i + 7] == '(' {
            return Some(i);
        }
        i = i + 1;
    }
    None
}

/// Formats inbound failure diagnostics into a boxed, human-readable trace.
/// The text it builds is reported to the server and logged; nothing in the
/// session depends on its shape, but its length is bounded in the input's,
/// so a report over a short diagnostic always fits the encrypted path.
pub struct WasmTracebackFormatter {}

impl WasmTracebackFormatter {
    pub fn new() -> (r: WasmTracebackFormatter) {
        WasmTracebackFormatter {  }
    }

    /// Splits an error line of the shape `<file info>: Error(<details>)` into
    /// its primary message and cleaned details; any other line stands trimmed
    /// and whole. Neither part outgrows the line.
    fn parse_error_line(&self, line_content: &str) -> (r: (String, String))
        ensures
            r.0@.len() <= line_content@.len(),
            r.1@.len() <= line_content@.len(),
    {
        let cs: Vec<char> = str_chars(line_content);
        let n: usize = cs.len();
        match find_error_marker(&cs) {
            Some(i) => {
                if n > 0 && cs[n - 1] == ')' && i + 8 <= n - 1 {
                    let file_info: String = chars_to_string(&cs, 0, i);
                    let error_info: String = chars_to_string(&cs, i + 8, n - 1);
                    let primary: String = self.extract_primary_message(file_info.as_str());
                    let details: String = self.clean_error_info(error_info.as_str());
                    (primary, details)
                } else {
                    (trim_str(line_content), String::new())
                }
            },
            None => (trim_str(line_content), String::new()),
        }
    }

    /// The text after the last colon of a file-and-line prefix; a leading
    /// line number is skipped. Never longer than its input.
    fn extract_primary_message(&self, file_info: &str) -> (r: String)
        ensures
            r@.len() <= file_info@.len(),
    {
        let cs: Vec<char> = str_chars(file_info);
        let n: usize = cs.len();
        let mut colon: Option<usize> = None;
        let mut i: usize = n;
        while i > 0
            invariant
                i <= n,
                n == cs@.len(),
                match colon {
                    Some(p) => p < n,
                    None => true,
                },
            decreases i,
        {
            i = i - 1;
            if cs[i] == ':' {
                colon = Some(i);
                i = 0;
            }
        }
        match colon {
            Some(p) => {
                let after = trim_bounds(&cs, p + 1, n);
                let first_is_digit: bool = if after.0 < after.1 {
                    is_digit(cs[after.0])
                } else {
                    false
                };
                if first_is_digit {
                    let mut message_start: usize = p + 1;
                    while message_start < n && is_digit(cs[message_start])
                        invariant
                            p + 1 <= message_start <= n,
                            n == cs@.len(),
                        decreases n - message_start,
                    {
                        message_start = message_start + 1;
                    }
                    let tail = trim_bounds(&cs, message_start, n);
                    chars_to_string(&cs, tail.0, tail.1)
                } else {
                    chars_to_string(&cs, after.0, after.1)
                }
            },
            None => trim_str(file_info),
        }
    }

    /// Trims the captured details, strips one trailing parenthesis and the
    /// surrounding quotes, and replaces backquotes with plain quotes. Never
    /// longer than its input.
    fn clean_error_info(&self, error_info: &str) -> (r: String)
        ensures
            r@.len() <= error_info@.len(),
    {
        let cs: Vec<char> = str_chars(error_info);
        let bounds = trim_bounds(&cs, 0, cs.len());
        let mut a: usize = bounds.0;
        let mut b: usize = bounds.1;
        if a < b && cs[b - 1] == ')' {
            b = b - 1;
        }
        if a < b && cs[a] == '"' {
            a = a + 1;
        }
        if a < b && cs[b - 1] == '"' {
            b = b - 1;
        }
        let mut r: String = String::new();
        let mut i: usize = a;
        while i < b
            invariant
                a <= i <= b <= cs@.len(),
                r@.len() == i - a,
            decreases b - i,
        {
            if cs[i] == '`' {
                push_char(&mut r, '\'');
            } else {
                push_char(&mut r, cs[i]);
            }
            i = i + 1;
        }
        r
    }

    /// One or two output lines per stack line: `function @ location` entries
    /// are split into an item line and a location line. The output's total
    /// length is bounded in the input's.
    fn format_stack_lines(&self, stack_lines: &Vec<String>) -> (r: Vec<String>)
        ensures
            lines_len(r@) <= lines_len(stack_lines@) + 20 * stack_lines@.len(),
            r@.len() <= 2 * stack_lines@.len(),
    {
        let mut out: Vec<String> = Vec::new();
        let n: usize = stack_lines.len();
        let mut i: usize = 0;
        proof {
            assert(stack_lines@.take(0) =~= Seq::<String>::empty());
        }
        while i < n
            invariant
                n == stack_lines@.len(),
                i <= n,
                lines_len(out@) <= lines_len(stack_lines@.take(i as int)) + 20 * i,
                out@.len() <= 2 * i,
            decreases n - i,
        {
            proof {
                assert(stack_lines@.take(i as int + 1).drop_last() =~= stack_lines@.take(i as int));
                assert(stack_lines@.take(i as int + 1).last() == stack_lines@[i as int]);
            }
            let ghost out0: Seq<String> = out@;
            let trimmed: String = trim_str(stack_lines[i].as_str());
            let cs: Vec<char> = str_chars(trimmed.as_str());
            let m: usize = cs.len();
            let mut split: Option<usize> = None;
            if m >= 5 {
                let mut j: usize = 1;
                while j < m - 3 && split.is_none()
                    invariant
                        1 <= j <= m,
                        5 <= m,
                        m == cs@.len(),
                        match split {
                            Some(p) => 1 <= p && p + 3 < m,
                            None => true,
                        },
                    decreases m - j,
                {
                    if cs[j] == ' ' && cs[j + 1] == '@' && cs[j + 2] == ' ' {
                        split = Some(j);
                    }
                    j = j + 1;
                }
            }
            match split {
                Some(p) => {
                    let function_name: String = chars_to_string(&cs, 0, p);
                    let location_info: String = chars_to_string(&cs, p + 3, m);
                    let item: String = String::from_str("\u{2502}    \u{2192} ").concat(
                        function_name.as_str(),
                    );
                    let location: String = String::from_str("\u{2502}         at ").concat(
                        location_info.as_str(),
                    );
                    proof {
                        reveal_strlit("\u{2502}    \u{2192} ");
                        reveal_strlit("\u{2502}         at ");
                        assert(out0.push(item).drop_last() =~= out0);
                    }
                    out.push(item);
                    let ghost out1: Seq<String> = out@;
                    proof {
                        assert(lines_len(out1) == lines_len(out0) + item@.len());
                        assert(out1.push(location).drop_last() =~= out1);
                    }
                    out.push(location);
                    proof {
                        assert(lines_len(out@) == lines_len(out1) + location@.len());
                    }
                },
                None => {
                    let item: String = String::from_str("\u{2502}    \u{2192} ").concat(
                        trimmed.as_str(),
                    );
                    proof {
                        reveal_strlit("\u{2502}    \u{2192} ");
                        assert(out0.push(item).drop_last() =~= out0);
                    }
                    out.push(item);
                    proof {
                        assert(lines_len(out@) == lines_len(out0) + item@.len());
                    }
                },
            }
            i = i + 1;
        }
        proof {
            assert(stack_lines@.take(n as int) =~= stack_lines@);
        }
        out
    }

    /// The trimmed, nonempty lines of a text: together never longer than the
    /// text, and no more of them than it has characters.
    fn split_lines(text: &str) -> (r: Vec<String>)
        ensures
            lines_len(r@) <= text@.len(),
            r@.len() <= text@.len(),
    {
        let cs: Vec<char> = str_chars(text);
        let n: usize = cs.len();
        let mut out: Vec<String> = Vec::new();
        let mut start: usize = 0;
        let mut i: usize = 0;
        while i < n
            invariant
                start <= i <= n,
                n == cs@.len(),
                lines_len(out@) <= start,
                out@.len() <= lines_len(out@),
            decreases n - i,
        {
            if cs[i] == '\n' {
                let bounds = trim_bounds(&cs, start, i);
                if bounds.0 < bounds.1 {
                    let ghost out0: Seq<String> = out@;
                    let line: String = chars_to_string(&cs, bounds.0, bounds.1);
                    proof {
                        assert(out0.push(line).drop_last() =~= out0);
                    }
                    out.push(line);
                }
                start = i + 1;
            }
            i = i + 1;
        }
        let bounds = trim_bounds(&cs, start, n);
        if bounds.0 < bounds.1 {
            let ghost out0: Seq<String> = out@;
            let line: String = chars_to_string(&cs, bounds.0, bounds.1);
            proof {
                assert(out0.push(line).drop_last() =~= out0);
            }
            out.push(line);
        }
        out
    }

    /// Builds the boxed exception trace for an error message and the raw
    /// stack text that came with it. The box never outgrows 32 times the
    /// input plus a fixed frame, so a report over a short diagnostic always
    /// fits the encrypted path.
    pub fn format(&self, error_message: &str, raw_stack: &str) -> (r: String)
        ensures
            r@.len() <= 32 * (error_message@.len() + raw_stack@.len()) + 256,
    {
        let mut combined: String = String::from_str(error_message);
        combined.append("\n");
        combined.append(raw_stack);
        proof {
            reveal_strlit("\n");
        }
        let ghost big: int = error_message@.len() as int + raw_stack@.len() as int + 1;

        let lines: Vec<String> = Self::split_lines(combined.as_str());
        if lines.len() == 0 {
            proof {
                reveal_strlit("Empty traceback provided");
            }
            return String::from_str("Empty traceback provided");
        }
        let parsed: (String, String) = self.parse_error_line(lines[0].as_str());
        proof {
            lemma_lines_len_elem(lines@, 0);
        }

        let mut result_lines: Vec<String> = Vec::new();
        let header: String = String::from_str("\u{250c}\u{2500} Exception Trace ").concat(
            repeat_char('\u{2500}', 57).as_str(),
        );
        proof {
            reveal_strlit("\u{250c}\u{2500} Exception Trace ");
            assert(result_lines@.push(header).drop_last() =~= result_lines@);
        }
        let ghost rl0: Seq<String> = result_lines@;
        result_lines.push(header);
        proof {
            assert(lines_len(result_lines@) == lines_len(rl0) + header@.len());
        }
        let message_line: String = String::from_str("\u{2502}  Message: ").concat(
            parsed.0.as_str(),
        );
        let ghost rl1: Seq<String> = result_lines@;
        proof {
            reveal_strlit("\u{2502}  Message: ");
            assert(rl1.push(message_line).drop_last() =~= rl1);
        }
        result_lines.push(message_line);
        proof {
            assert(lines_len(result_lines@) == lines_len(rl1) + message_line@.len());
        }
        if !parsed.1.as_str().is_empty() {
            let details_line: String = String::from_str("\u{2502}  Details: ").concat(
                parsed.1.as_str(),
            );
            let ghost rl2: Seq<String> = result_lines@;
            proof {
                reveal_strlit("\u{2502}  Details: ");
                assert(rl2.push(details_line).drop_last() =~= rl2);
            }
            result_lines.push(details_line);
            proof {
                assert(lines_len(result_lines@) == lines_len(rl2) + details_line@.len());
            }
        }
        proof {
            assert(lines_len(result_lines@) <= 100 + 2 * big);
            assert(result_lines@.len() <= 3);
        }
        if lines.len() > 1 {
            let bar: String = String::from_str("\u{2502}");
            let ghost rl3: Seq<String> = result_lines@;
            proof {
                reveal_strlit("\u{2502}");
                assert(rl3.push(bar).drop_last() =~= rl3);
            }
            result_lines.push(bar);
            proof {
                assert(lines_len(result_lines@) == lines_len(rl3) + bar@.len());
            }
            let stack_header: String = String::from_str("\u{2502}  Stack:");
            let ghost rl4: Seq<String> = result_lines@;
            proof {
                reveal_strlit("\u{2502}  Stack:");
                assert(rl4.push(stack_header).drop_last() =~= rl4);
            }
            result_lines.push(stack_header);
            proof {
                assert(lines_len(result_lines@) == lines_len(rl4) + stack_header@.len());
            }
            let mut rest: Vec<String> = Vec::new();
            let mut i: usize = 1;
            let nl: usize = lines.len();
            proof {
                assert(lines@.take(1).drop_last() =~= Seq::<String>::empty());
                assert(lines@.take(1).last() == lines@[0]);
                lemma_lines_len_nonneg(lines@.take(1));
            }
            while i < nl
                invariant
                    1 <= i <= nl,
                    nl == lines@.len(),
                    lines_len(rest@) + lines@[0]@.len() <= lines_len(lines@.take(i as int)),
                    rest@.len() + 1 == i,
                decreases nl - i,
            {
                proof {
                    assert(lines@.take(i as int + 1).drop_last() =~= lines@.take(i as int));
                    assert(lines@.take(i as int + 1).last() == lines@[i as int]);
                    assert(rest@.push(lines@[i as int]).drop_last() =~= rest@);
                }
                rest.push(lines[i].clone());
                i = i + 1;
            }
            proof {
                assert(lines@.take(nl as int) =~= lines@);
            }
            let stack_out: Vec<String> = self.format_stack_lines(&rest);
            let mut k: usize = 0;
            let ns: usize = stack_out.len();
            proof {
                assert(stack_out@.take(0) =~= Seq::<String>::empty());
            }
            while k < ns
                invariant
                    k <= ns,
                    ns == stack_out@.len(),
                    lines_len(result_lines@) <= 110 + 2 * big + lines_len(stack_out@.take(k as int)),
                    result_lines@.len() <= 5 + k,
                decreases ns - k,
            {
                let ghost rl5: Seq<String> = result_lines@;
                proof {
                    assert(stack_out@.take(k as int + 1).drop_last() =~= stack_out@.take(k as int));
                    assert(stack_out@.take(k as int + 1).last() == stack_out@[k as int]);
                    assert(rl5.push(stack_out@[k as int]).drop_last() =~= rl5);
                }
                result_lines.push(stack_out[k].clone());
                proof {
                    assert(lines_len(result_lines@) == lines_len(rl5) + stack_out@[k as int]@.len());
                }
                k = k + 1;
            }
            proof {
                assert(stack_out@.take(ns as int) =~= stack_out@);
            }
        }
        let footer: String = String::from_str("\u{2514}").concat(repeat_char('\u{2500}', 79).as_str());
        let ghost rl6: Seq<String> = result_lines@;
        proof {
            reveal_strlit("\u{2514}");
            assert(rl6.push(footer).drop_last() =~= rl6);
        }
        result_lines.push(footer);
        proof {
            assert(lines_len(result_lines@) == lines_len(rl6) + footer@.len());
            assert(lines_len(result_lines@) <= 190 + 25 * big);
            assert(result_lines@.len() <= 6 + 2 * big);
        }

        let mut out: String = String::new();
        let nr: usize = result_lines.len();
        let mut j: usize = 0;
        proof {
            assert(result_lines@.take(0) =~= Seq::<String>::empty());
            reveal_strlit("\n");
        }
        while j < nr
            invariant
                j <= nr,
                nr == result_lines@.len(),
                out@.len() <= lines_len(result_lines@.take(j as int)) + j,
            decreases nr - j,
        {
            proof {
                assert(result_lines@.take(j as int + 1).drop_last() =~= result_lines@.take(
                    j as int,
                ));
                assert(result_lines@.take(j as int + 1).last() == result_lines@[j as int]);
                lemma_lines_len_nonneg(result_lines@.take(j as int));
                reveal_strlit("\n");
            }
            if j > 0 {
                out.append("\n");
            }
            out.append(result_lines[j].as_str());
            j = j + 1;
        }
        proof {
            assert(result_lines@.take(nr as int) =~= result_lines@);
        }
        out
    }

    /// Formats an error message with no stack information available; bounded
    /// like `format`.
    pub fn format_error(error_message: &str) -> (r: String)
        ensures
            r@.len() <= 32 * error_message@.len() + 1024,
    {
        let formatter = WasmTracebackFormatter::new();
        proof {
            reveal_strlit("Cannot get stack");
        }
        formatter.format(error_message, "Cannot get stack")
    }
}

/// The boxed exception trace of an error message; bounded like `format`.
pub fn format_wasm_traceback(error_message: &str) -> (r: String)
    ensures
        r@.len() <= 32 * error_message@.len() + 1024,
{
    WasmTracebackFormatter::format_error(error_message)
}

} // verus!
