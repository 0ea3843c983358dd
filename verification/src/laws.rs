//! Properties that hold of every parse, stated over the specifications and
//! proved once, rather than checked case by case.

use vstd::prelude::*;
use crate::acquire::{spec_tier_format, spec_tier_privileged, Tier};
use crate::parser::{
    dash_token, no_priv_name, spec_min_fields, spec_owner_name, spec_owner_pid, spec_parse,
    spec_parse_line, spec_parse_lines, spec_record_of, stateless_state, unknown_name,
    SourceFormat,
};
use crate::text::{lemma_first_index_found, spec_fields, spec_is_tcp, spec_parse_u32};
use crate::record::PortRecordV;

verus! {

/// Every record of a parsed line sequence comes from `spec_record_of`, so a
/// property of every well-formed decomposition holds of every parsed record.
proof fn lemma_parse_lines_all(
    f: SourceFormat,
    lines: Seq<Seq<char>>,
    privileged: bool,
    pred: spec_fn(PortRecordV) -> bool,
)
    requires
        forall|fs: Seq<Seq<char>>|
            fs.len() >= spec_min_fields(f) ==> pred(#[trigger] spec_record_of(f, fs, privileged)),
    ensures
        forall|i: int|
            0 <= i < spec_parse_lines(f, lines, privileged).len() ==> #[trigger] pred(
                spec_parse_lines(f, lines, privileged)[i],
            ),
    decreases lines.len(),
{
    if lines.len() > 0 {
        lemma_parse_lines_all(f, lines.drop_first(), privileged, pred);
        let rest = spec_parse_lines(f, lines.drop_first(), privileged);
        match spec_parse_line(f, lines[0], privileged) {
            Some(r) => {
                assert(pred(r));
                assert forall|i: int|
                    0 <= i < spec_parse_lines(f, lines, privileged).len() implies #[trigger] pred(
                    spec_parse_lines(f, lines, privileged)[i],
                ) by {
                    if i > 0 {
                        assert(spec_parse_lines(f, lines, privileged)[i] == rest[i - 1]);
                    }
                }
            },
            None => {},
        }
    }
}

/// As `lemma_parse_lines_all`, for the parse of a whole raw text.
proof fn lemma_parse_all(
    f: SourceFormat,
    text: Seq<char>,
    privileged: bool,
    pred: spec_fn(PortRecordV) -> bool,
)
    requires
        forall|fs: Seq<Seq<char>>|
            fs.len() >= spec_min_fields(f) ==> pred(#[trigger] spec_record_of(f, fs, privileged)),
    ensures
        forall|i: int|
            0 <= i < spec_parse(f, text, privileged).len() ==> #[trigger] pred(
                spec_parse(f, text, privileged)[i],
            ),
{
    let lines = crate::text::spec_lines(text);
    let h = crate::parser::spec_header_lines(f) as int;
    if h <= lines.len() {
        lemma_parse_lines_all(f, lines.skip(h), privileged, pred);
    }
}

/// A well-formed `pid/name` owner token decomposes into exactly that numeric
/// PID and that name: for the first `/` at position `j`, when the characters
/// before it parse as a number, the PID is that number and the name is
/// everything after the `/`.
pub proof fn lemma_owner_token_pid_name(t: Seq<char>, j: int, p: u32)
    requires
        0 <= j < t.len(),
        t[j] == '/',
        forall|k: int| 0 <= k < j ==> t[k] != '/',
        spec_parse_u32(t.take(j)) == Some(p),
    ensures
        spec_owner_pid(t) == Some(p),
        spec_owner_name(t) == t.skip(j + 1),
{
    reveal_strlit("-");
    assert(t != dash_token()) by {
        if t == dash_token() {
            assert(t.len() == 1);
            assert(t[0] == '-');
        }
    }
    lemma_first_index_found(t, '/', j);
}

/// A well-formed privileged line with a `pid/name` owner token parses to a
/// record carrying exactly that numeric PID and that name.
pub proof fn lemma_privileged_line_extracts_owner(line: Seq<char>, j: int, p: u32)
    requires
        spec_fields(line).len() >= spec_min_fields(SourceFormat::PrivilegedPortList),
        spec_fields(line).len() > crate::parser::spec_owner_col(
            spec_is_tcp(crate::text::spec_lower(spec_fields(line)[0])),
        ),
        ({
            let t = spec_fields(line)[crate::parser::spec_owner_col(
                spec_is_tcp(crate::text::spec_lower(spec_fields(line)[0])),
            ) as int];
            &&& 0 <= j < t.len()
            &&& t[j] == '/'
            &&& (forall|k: int| 0 <= k < j ==> t[k] != '/')
            &&& spec_parse_u32(t.take(j)) == Some(p)
        }),
    ensures
        ({
            let t = spec_fields(line)[crate::parser::spec_owner_col(
                spec_is_tcp(crate::text::spec_lower(spec_fields(line)[0])),
            ) as int];
            let f = SourceFormat::PrivilegedPortList;
            &&& spec_parse_line(f, line, true) == Some(
                spec_record_of(f, spec_fields(line), true),
            )
            &&& spec_record_of(f, spec_fields(line), true).pid == Some(p)
            &&& spec_record_of(f, spec_fields(line), true).process_name == t.skip(j + 1)
        }),
{
    let t = spec_fields(line)[crate::parser::spec_owner_col(
        spec_is_tcp(crate::text::spec_lower(spec_fields(line)[0])),
    ) as int];
    lemma_owner_token_pid_name(t, j, p);
}

/// The owner token `-` carries no PID, and its owner name is `Unknown`.
pub proof fn lemma_owner_token_dash()
    ensures
        spec_owner_pid(dash_token()) is None,
        spec_owner_name(dash_token()) == unknown_name(),
{
}

/// Any record parsed from a protocol that is no TCP variant is stateless,
/// whatever its state-like column held.
pub proof fn lemma_non_tcp_stateless(f: SourceFormat, text: Seq<char>, privileged: bool, i: int)
    requires
        0 <= i < spec_parse(f, text, privileged).len(),
        !spec_is_tcp(spec_parse(f, text, privileged)[i].protocol),
    ensures
        spec_parse(f, text, privileged)[i].state == stateless_state(),
{
    let pred = (|r: PortRecordV| !spec_is_tcp(r.protocol) ==> r.state == stateless_state());
    assert forall|fs: Seq<Seq<char>>| fs.len() >= spec_min_fields(f) implies pred(
        #[trigger] spec_record_of(f, fs, privileged),
    ) by {
        let r = spec_record_of(f, fs, privileged);
        assert(r.protocol == crate::text::spec_lower(fs[0]));
    }
    lemma_parse_all(f, text, privileged, pred);
    assert(pred(spec_parse(f, text, privileged)[i]));
}

/// Any record of an unprivileged parse carries no PID and the owner name
/// `Unknown (no privileges)`, whatever owner tokens the text held.
pub proof fn lemma_unprivileged_no_owner(f: SourceFormat, text: Seq<char>, i: int)
    requires
        0 <= i < spec_parse(f, text, false).len(),
    ensures
        spec_parse(f, text, false)[i].pid is None,
        spec_parse(f, text, false)[i].process_name == no_priv_name(),
{
    let pred = (|r: PortRecordV| r.pid is None && r.process_name == no_priv_name());
    assert forall|fs: Seq<Seq<char>>| fs.len() >= spec_min_fields(f) implies pred(
        #[trigger] spec_record_of(f, fs, false),
    ) by {}
    lemma_parse_all(f, text, false, pred);
    assert(pred(spec_parse(f, text, false)[i]));
}

/// Records acquired through an unprivileged tier never leak inferred
/// ownership: each has an absent PID and the unprivileged owner name.
pub proof fn lemma_unprivileged_tier_records(t: Tier, text: Seq<char>, i: int)
    requires
        !spec_tier_privileged(t),
        0 <= i < spec_parse(spec_tier_format(t), text, spec_tier_privileged(t)).len(),
    ensures
        spec_parse(spec_tier_format(t), text, spec_tier_privileged(t))[i].pid is None,
        spec_parse(spec_tier_format(t), text, spec_tier_privileged(t))[i].process_name
            == no_priv_name(),
{
    lemma_unprivileged_no_owner(spec_tier_format(t), text, i);
}

/// Parsing is a pure function of the text, the format and the privilege
/// flag: two parses of the same raw text denote the same record sequence.
pub proof fn lemma_parse_deterministic(
    f: SourceFormat,
    text: Seq<char>,
    privileged: bool,
    r1: Seq<PortRecordV>,
    r2: Seq<PortRecordV>,
)
    requires
        r1 == spec_parse(f, text, privileged),
        r2 == spec_parse(f, text, privileged),
    ensures
        r1 == r2,
{
}

/// A line with fewer than the format's minimum required fields denotes no
/// record at all.
pub proof fn lemma_short_line_dropped(f: SourceFormat, line: Seq<char>, privileged: bool)
    requires
        spec_fields(line).len() < spec_min_fields(f),
    ensures
        spec_parse_line(f, line, privileged) is None,
{
}

} // verus!
