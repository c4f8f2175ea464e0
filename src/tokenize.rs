//! Splitting a command line into arguments.
//!
//! A backslash makes the next character literal; a double quote opens or
//! closes a quoted part, in which spaces are kept; outside quotes each space
//! ends an argument. Neither the backslash nor the quote is kept. The last
//! argument is always emitted, so an empty line gives one empty argument.
use vstd::prelude::*;

use crate::text::push_char;

verus! {

/// The tokenizer's state after reading part of a line.
pub struct Scan {
    /// Arguments already ended.
    pub tokens: Seq<Seq<char>>,
    /// The argument being read.
    pub current: Seq<char>,
    /// Inside a double-quoted part.
    pub in_string: bool,
    /// The previous character was an unconsumed backslash.
    pub escaped: bool,
}

pub open spec fn scan_start() -> Scan {
    Scan { tokens: seq![], current: seq![], in_string: false, escaped: false }
}

/// The state after reading one more character `c`.
pub open spec fn scan_step(st: Scan, c: char) -> Scan {
    if st.escaped {
        Scan { tokens: st.tokens, current: st.current.push(c), in_string: st.in_string, escaped: false }
    } else if c == '\\' {
        Scan { tokens: st.tokens, current: st.current, in_string: st.in_string, escaped: true }
    } else if c == '"' {
        Scan { tokens: st.tokens, current: st.current, in_string: !st.in_string, escaped: false }
    } else if c == ' ' && !st.in_string {
        Scan { tokens: st.tokens.push(st.current), current: seq![], in_string: false, escaped: false }
    } else {
        Scan { tokens: st.tokens, current: st.current.push(c), in_string: st.in_string, escaped: false }
    }
}

/// The state after reading all of `s`.
pub open spec fn scan(s: Seq<char>) -> Scan
    decreases s.len(),
{
    if s.len() == 0 {
        scan_start()
    } else {
        scan_step(scan(s.drop_last()), s.last())
    }
}

/// The arguments of the line `s`.
pub open spec fn tokens_of(s: Seq<char>) -> Seq<Seq<char>> {
    scan(s).tokens.push(scan(s).current)
}

/// The views of a vector of strings.
pub open spec fn views(v: Seq<String>) -> Seq<Seq<char>> {
    v.map_values(|t: String| t@)
}

/// A line always has at least one argument.
pub proof fn lemma_tokens_nonempty(s: Seq<char>)
    ensures
        tokens_of(s).len() >= 1,
{
}

/// Splits `line` into its arguments.
pub fn tokenize(line: &Vec<char>) -> (r: Vec<String>)
    ensures
        views(r@) == tokens_of(line@),
{
    let mut args: Vec<String> = Vec::new();
    let mut arg = String::new();
    let mut is_string = false;
    let mut is_escaped = false;
    let mut i: usize = 0;
    while i < line.len()
        invariant
            i <= line@.len(),
            views(args@) == scan(line@.take(i as int)).tokens,
            arg@ == scan(line@.take(i as int)).current,
            is_string == scan(line@.take(i as int)).in_string,
            is_escaped == scan(line@.take(i as int)).escaped,
        decreases line@.len() - i,
    {
        let c = line[i];
        proof {
            let t = line@.take(i + 1);
            assert(t.drop_last() == line@.take(i as int));
            assert(t.last() == c);
        }
        if is_escaped {
            push_char(&mut arg, c);
            is_escaped = false;
        } else if c == '\\' {
            is_escaped = true;
        } else if c == '"' {
            is_string = !is_string;
        } else if c == ' ' && !is_string {
            let ghost before = args@;
            args.push(arg);
            arg = String::new();
            assert(views(args@) == views(before).push(scan(line@.take(i as int)).current));
        } else {
            push_char(&mut arg, c);
        }
        i += 1;
    }
    assert(line@.take(line@.len() as int) == line@);
    let ghost before = args@;
    args.push(arg);
    assert(views(args@) == views(before).push(scan(line@).current));
    args
}

} // verus!
