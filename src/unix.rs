//! Listening ports read from the output of `lsof -nP`.
//!
//! Each line of that output is split on runs of whitespace; counting the
//! fields from zero, field 1 is the process id, field 7 the protocol name and
//! field 8 the `address:port` text. Only lines that hold `LISTEN` are read,
//! and a line that does not have that shape is skipped.

use vstd::prelude::*;
use vstd::string::*;
use regex::Regex;
use crate::port::{port_map, PortBinding, PortInfo, PortTable};
use crate::text::{chars_of, contains_chars, contains_seq, decimal_at_most, parse_decimal, port_number, port_of};

verus! {

/// The fields of `line` between runs of whitespace, as `regex` splits them.
pub uninterp spec fn whitespace_split(line: Seq<char>) -> Seq<Seq<char>>;

/// The lines of `text`, as `str::lines` gives them.
pub uninterp spec fn lines_of(text: Seq<char>) -> Seq<Seq<char>>;

/// Relies on `regex::Regex::split` with the pattern `\s+`: the pieces of the
/// line between runs of whitespace, in order, which depend on the line alone.
#[verifier::external_body]
fn split_fields(line: &str) -> (r: Vec<String>)
    ensures
        r@.map_values(|s: String| s@) == whitespace_split(line@),
{
    Regex::new(r"\s+").unwrap().split(line).map(|p| p.to_string()).collect()
}

/// Relies on `str::lines`: the lines of the text, in order, which depend on
/// the text alone.
#[verifier::external_body]
fn split_lines(text: &str) -> (r: Vec<String>)
    ensures
        r@.map_values(|s: String| s@) == lines_of(text@),
{
    text.lines().map(|l| l.to_string()).collect()
}

/// The marker that a line of a listening socket holds.
pub open spec fn listen_marker() -> Seq<char> {
    seq!['L', 'I', 'S', 'T', 'E', 'N']
}

/// The process id and binding that the fields of one line describe, or
/// `None` where the fields do not have the expected shape.
pub open spec fn fields_pair(fields: Seq<Seq<char>>) -> Option<(u32, PortBinding)> {
    if fields.len() >= 9 && decimal_at_most(fields[1], u32::MAX as nat) is Some && port_of(
        fields[8],
    ) is Some {
        Some(
            (
                decimal_at_most(fields[1], u32::MAX as nat)->0 as u32,
                (fields[7], port_of(fields[8])->0 as u16),
            ),
        )
    } else {
        None
    }
}

/// The pair that one line describes.
pub open spec fn line_pair(line: Seq<char>) -> Option<(u32, PortBinding)> {
    fields_pair(whitespace_split(line))
}

/// The pairs that a sequence of lines gives: one for each line that holds the
/// marker and has the expected shape, in the order of the lines.
pub open spec fn listening_pairs(lines: Seq<Seq<char>>) -> Seq<(u32, PortBinding)>
    decreases lines.len(),
{
    if lines.len() == 0 {
        Seq::empty()
    } else {
        let rest = listening_pairs(lines.drop_last());
        let line = lines.last();
        if contains_seq(line, listen_marker()) && line_pair(line) is Some {
            rest.push(line_pair(line)->0)
        } else {
            rest
        }
    }
}

/// The process id and binding described by the fields of one line.
pub fn parse_lsof_fields(fields: &Vec<String>) -> (r: Option<(u32, PortInfo)>)
    ensures
        match fields_pair(fields@.map_values(|s: String| s@)) {
            Some(p) => r matches Some((pid, info)) && pid == p.0 && info@ == p.1,
            None => r is None,
        },
{
    let ghost f = fields@.map_values(|s: String| s@);
    if fields.len() < 9 {
        return None;
    }
    assert(f[1] == fields@[1]@ && f[7] == fields@[7]@ && f[8] == fields@[8]@);
    let pid = match parse_decimal(fields[1].as_str(), 4294967295) {
        Some(v) => v as u32,
        None => return None,
    };
    let port = match port_number(fields[8].as_str()) {
        Some(p) => p,
        None => return None,
    };
    Some((pid, PortInfo { protocol: fields[7].clone(), port }))
}

/// The process id and binding that one line of `lsof -nP` output describes,
/// or `None` where the line does not have the expected shape.
pub fn try_parse_lsof_line(line: &str) -> (r: Option<(u32, PortInfo)>)
    ensures
        match line_pair(line@) {
            Some(p) => r matches Some((pid, info)) && pid == p.0 && info@ == p.1,
            None => r is None,
        },
{
    let fields = split_fields(line);
    parse_lsof_fields(&fields)
}

/// The port table that the output of `lsof -nP` describes: one binding for
/// each line that holds `LISTEN` and has the expected shape.
pub fn get_pid_port_table(output: &str) -> (r: PortTable)
    ensures
        r@ == listening_pairs(lines_of(output@)),
{
    let lines = split_lines(output);
    let ghost ls = lines@.map_values(|s: String| s@);
    let marker = chars_of("LISTEN");
    proof {
        reveal_strlit("LISTEN");
        assert(marker@ =~= listen_marker());
    }
    let mut table = PortTable::new();
    let mut i: usize = 0;
    while i < lines.len()
        invariant
            ls == lines@.map_values(|s: String| s@),
            marker@ == listen_marker(),
            i <= lines@.len(),
            table@ == listening_pairs(ls.subrange(0, i as int)),
        decreases lines@.len() - i,
    {
        let line = lines[i].as_str();
        assert(ls.subrange(0, i + 1).drop_last() =~= ls.subrange(0, i as int));
        assert(ls[i as int] == line@);
        let cs = chars_of(line);
        if contains_chars(&cs, &marker) {
            match try_parse_lsof_line(line) {
                Some((pid, info)) => table.add(pid, info),
                None => {},
            }
        }
        i = i + 1;
    }
    assert(ls.subrange(0, i as int) =~= ls);
    table
}

/// A line that holds the marker and whose fields have the expected shape
/// adds exactly one pair: the id in field 1, the protocol in field 7, and the
/// number after the last colon of field 8 as the port.
pub proof fn lemma_well_formed_line_adds_one_pair(lines: Seq<Seq<char>>, line: Seq<char>)
    requires
        contains_seq(line, listen_marker()),
        whitespace_split(line).len() >= 9,
        decimal_at_most(whitespace_split(line)[1], u32::MAX as nat) is Some,
        port_of(whitespace_split(line)[8]) is Some,
    ensures
        listening_pairs(lines.push(line)) == listening_pairs(lines).push(
            (
                decimal_at_most(whitespace_split(line)[1], u32::MAX as nat)->0 as u32,
                (whitespace_split(line)[7], port_of(whitespace_split(line)[8])->0 as u16),
            ),
        ),
{
    assert(lines.push(line).drop_last() =~= lines);
}

/// A line without the marker adds nothing.
pub proof fn lemma_line_without_marker_adds_nothing(lines: Seq<Seq<char>>, line: Seq<char>)
    requires
        !contains_seq(line, listen_marker()),
    ensures
        listening_pairs(lines.push(line)) == listening_pairs(lines),
{
    assert(lines.push(line).drop_last() =~= lines);
}

/// A line with fewer than nine fields, a process id that is not a number, or
/// a port that is not a number adds nothing, and the lines around it are read
/// as before.
pub proof fn lemma_malformed_line_adds_nothing(
    before: Seq<Seq<char>>,
    line: Seq<char>,
)
    requires
        whitespace_split(line).len() < 9 || decimal_at_most(whitespace_split(line)[1], u32::MAX as nat) is None
            || port_of(whitespace_split(line)[8]) is None,
    ensures
        listening_pairs(before.push(line)) == listening_pairs(before),
        line_pair(line) is None,
{
    assert(before.push(line).drop_last() =~= before);
}

/// Resolving twice against the same command output gives the same table,
/// as a map from process id to bindings.
pub proof fn lemma_resolution_repeatable(first: Seq<char>, second: Seq<char>)
    requires
        first == second,
    ensures
        port_map(listening_pairs(lines_of(first))) == port_map(listening_pairs(lines_of(second))),
{
}

} // verus!
