//! Shell prompt detection: a tail check of the latest output against a
//! configurable regular expression.

use vstd::prelude::*;

use crate::strutil::chars_to_string;
use crate::strutil::str_to_chars;
use crate::types::TerminalError;

verus! {

/// Whether `regex::Regex::new` accepts the pattern.
pub uninterp spec fn regex_valid(pattern: Seq<char>) -> bool;

/// Whether the regex compiled from `pattern` matches somewhere in `text`.
pub uninterp spec fn regex_accepts(pattern: Seq<char>, text: Seq<char>) -> bool;

/// Relies on regex::Regex::new: whether the pattern compiles.
#[verifier::external_body]
fn regex_compiles(pattern: &str) -> (r: bool)
    ensures
        r == regex_valid(pattern@),
{
    regex::Regex::new(pattern).is_ok()
}

/// Relies on regex::Regex::new and regex::Regex::is_match: compiling a
/// pattern is deterministic, and the compiled regex matches a text
/// depending on the pattern and the text alone. Returns None exactly when
/// the pattern does not compile.
#[verifier::external_body]
fn regex_match(pattern: &str, text: &str) -> (r: Option<bool>)
    ensures
        r is Some <==> regex_valid(pattern@),
        r matches Some(b) ==> b == regex_accepts(pattern@, text@),
{
    regex::Regex::new(pattern).ok().map(|re| re.is_match(text))
}

/// Whether `c` is ASCII whitespace, as trimming sees it.
pub open spec fn is_space_char(c: char) -> bool {
    c == ' ' || c == '\t' || c == '\r' || c == '\n'
}

/// `s` without trailing ASCII whitespace.
pub open spec fn trim_end_spec(s: Seq<char>) -> Seq<char>
    decreases s.len(),
{
    if s.len() > 0 && is_space_char(s.last()) {
        trim_end_spec(s.drop_last())
    } else {
        s
    }
}

/// One trailing carriage return removed, as line splitting does.
pub open spec fn strip_cr(s: Seq<char>) -> Seq<char> {
    if s.len() > 0 && s.last() == '\r' {
        s.drop_last()
    } else {
        s
    }
}

/// The lines of `s`, split on newlines, each without a trailing carriage
/// return; a trailing newline closes the last line without opening a new
/// one.
pub open spec fn split_lines_spec(s: Seq<char>) -> Seq<Seq<char>>
    decreases s.len(),
{
    split_lines_from(s, 0, Seq::empty(), Seq::empty())
}

/// The accumulator form of line splitting.
pub open spec fn split_lines_from(
    s: Seq<char>,
    i: int,
    cur: Seq<char>,
    acc: Seq<Seq<char>>,
) -> Seq<Seq<char>>
    decreases s.len() - i,
{
    if i < 0 || i >= s.len() {
        if cur.len() > 0 {
            acc.push(strip_cr(cur))
        } else {
            acc
        }
    } else if s[i] == '\n' {
        split_lines_from(s, i + 1, Seq::empty(), acc.push(strip_cr(cur)))
    } else {
        split_lines_from(s, i + 1, cur.push(s[i]), acc)
    }
}

/// The last line of `lines` that is non-empty once trailing whitespace is
/// trimmed, if any.
pub open spec fn last_nonblank(lines: Seq<Seq<char>>) -> Option<Seq<char>>
    decreases lines.len(),
{
    if lines.len() == 0 {
        None
    } else if trim_end_spec(lines.last()).len() > 0 {
        Some(trim_end_spec(lines.last()))
    } else {
        last_nonblank(lines.drop_last())
    }
}

/// What `detect` returns for a valid pattern: whether the tail of the
/// content - its last non-blank line, trimmed of trailing whitespace -
/// matches. Never a mid-content check.
pub open spec fn detect_spec(pattern: Seq<char>, content: Seq<char>) -> bool {
    match last_nonblank(split_lines_spec(content)) {
        Some(tail) => regex_accepts(pattern, tail),
        None => false,
    }
}

/// Detects shell prompts at the tail of terminal output.
#[derive(Debug, Clone)]
pub struct PromptDetector {
    /// The source of the pattern.
    source: String,
}

/// The default prompt pattern: a line ending in `$`, `#` or `>`, possibly
/// followed by whitespace.
pub fn default_prompt_pattern() -> (r: String)
    ensures
        r@ == "\\$\\s*$|#\\s*$|>\\s*$"@,
{
    "\\$\\s*$|#\\s*$|>\\s*$".to_owned()
}

impl PromptDetector {
    /// The pattern source; for contracts.
    pub closed spec fn source_spec(&self) -> Seq<char> {
        self.source@
    }

    /// Compile-check the pattern and build a detector from it. Fails with
    /// `InvalidPattern` exactly when the pattern does not compile.
    pub fn new(pattern: &str) -> (r: Result<PromptDetector, TerminalError>)
        ensures
            match r {
                Ok(d) => regex_valid(pattern@) && d.source_spec() == pattern@,
                Err(e) => !regex_valid(pattern@) && e matches TerminalError::InvalidPattern(_),
            },
    {
        if regex_compiles(pattern) {
            Ok(PromptDetector { source: pattern.to_owned() })
        } else {
            Err(TerminalError::InvalidPattern(pattern.to_owned()))
        }
    }

    /// A detector with the default pattern.
    pub fn default_pattern() -> (d: PromptDetector)
        ensures
            d.source_spec() == "\\$\\s*$|#\\s*$|>\\s*$"@,
    {
        PromptDetector { source: default_prompt_pattern() }
    }

    /// The pattern source.
    pub fn pattern(&self) -> (r: &str)
        ensures
            r@ == self.source_spec(),
    {
        self.source.as_str()
    }

    /// Whether the content ends in a shell prompt: its last non-blank
    /// line, trimmed of trailing whitespace, matches the pattern. Only a
    /// tail check, never mid-content. False when the pattern does not
    /// compile.
    pub fn detect(&self, content: &str) -> (r: bool)
        ensures
            regex_valid(self.source_spec()) ==> r == detect_spec(self.source_spec(), content@),
            !regex_valid(self.source_spec()) ==> r == false,
    {
        let cs = str_to_chars(content);
        let mut lines: Vec<Vec<char>> = Vec::new();
        let mut cur: Vec<char> = Vec::new();
        let mut i: usize = 0;
        proof {
            assert(lines@.map_values(|v: Vec<char>| v@) =~= Seq::<Seq<char>>::empty());
        }
        while i < cs.len()
            invariant
                i <= cs.len(),
                cs@ == content@,
                split_lines_from(cs@, i as int, cur@, lines@.map_values(|v: Vec<char>| v@))
                    == split_lines_spec(content@),
            decreases cs.len() - i,
        {
            let c = cs[i];
            if c == '\n' {
                let ghost prev_lines = lines@.map_values(|v: Vec<char>| v@);
                let ghost cur_view = cur@;
                let stripped = strip_cr_exec(cur);
                lines.push(stripped);
                cur = Vec::new();
                proof {
                    assert(lines@.map_values(|v: Vec<char>| v@) =~= prev_lines.push(
                        strip_cr(cur_view),
                    ));
                }
            } else {
                cur.push(c);
            }
            i = i + 1;
        }
        if cur.len() > 0 {
            let ghost prev_lines = lines@.map_values(|v: Vec<char>| v@);
            let stripped = strip_cr_exec(cur);
            lines.push(stripped);
            proof {
                assert(lines@.map_values(|v: Vec<char>| v@) =~= split_lines_spec(content@));
            }
        } else {
            proof {
                assert(lines@.map_values(|v: Vec<char>| v@) =~= split_lines_spec(content@));
            }
        }
        let ghost lv = lines@.map_values(|v: Vec<char>| v@);
        let mut end = lines.len();
        let mut tail: Option<Vec<char>> = None;
        let mut done = false;
        proof {
            assert(lv.take(lv.len() as int) =~= lv);
        }
        while !done
            invariant
                end <= lines@.len(),
                lv == lines@.map_values(|v: Vec<char>| v@),
                !done ==> tail is None && last_nonblank(lv.take(end as int)) == last_nonblank(lv),
                done ==> match tail {
                    Some(t) => Some(t@) == last_nonblank(lv),
                    None => last_nonblank(lv) is None,
                },
            decreases end + (if done { 0int } else { 1int }),
        {
            if end == 0 {
                proof {
                    assert(lv.take(0) =~= Seq::<Seq<char>>::empty());
                }
                done = true;
            } else {
                proof {
                    assert(lv.take(end as int).last() == lines@[end - 1]@);
                    assert(lv.take(end as int).drop_last() =~= lv.take(end - 1));
                }
                let trimmed = trim_end_exec(&lines[end - 1]);
                if trimmed.len() > 0 {
                    tail = Some(trimmed);
                    done = true;
                } else {
                    end = end - 1;
                }
            }
        }
        let hit = match tail {
            Some(t) => {
                let text = chars_to_string(&t);
                match regex_match(self.source.as_str(), text.as_str()) {
                    Some(b) => b,
                    None => false,
                }
            },
            None => false,
        };
        if regex_compiles(self.source.as_str()) {
            hit
        } else {
            false
        }
    }
}

/// Trim trailing ASCII whitespace.
fn trim_end_exec(line: &Vec<char>) -> (r: Vec<char>)
    ensures
        r@ == trim_end_spec(line@),
{
    let mut trimmed = line.clone();
    let ghost lv = line@;
    proof {
        assert(trimmed@ == lv);
    }
    let mut done = false;
    while !done
        invariant
            trim_end_spec(trimmed@) == trim_end_spec(lv),
            done ==> trim_end_spec(trimmed@) == trimmed@,
        decreases trimmed@.len() + (if done { 0int } else { 1int }),
    {
        if trimmed.len() > 0 {
            let last = trimmed[trimmed.len() - 1];
            if last == ' ' || last == '\t' || last == '\r' || last == '\n' {
                let _ = trimmed.pop();
            } else {
                done = true;
            }
        } else {
            done = true;
        }
    }
    trimmed
}

/// Remove one trailing carriage return.
fn strip_cr_exec(mut v: Vec<char>) -> (r: Vec<char>)
    ensures
        r@ == strip_cr(v@),
{
    if v.len() > 0 && v[v.len() - 1] == '\r' {
        let _ = v.pop();
    }
    v
}

} // verus!
