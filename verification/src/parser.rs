//! Output parsers: pure functions from raw tool text to ordered sequences of
//! normalized port records.
//!
//! Each source format is a fixed positional schema: how many header lines to
//! skip, the minimum field count below which a line is silently dropped, and
//! the columns holding the protocol, local address, foreign address, state
//! and owner token. A single generic line-decomposition routine consumes the
//! schema, so a malformed line never fails the whole batch.

use vstd::prelude::*;
use crate::record::{PortRecord, PortRecordV};
use crate::text::{
    chars_of, fields_of, first_index_of, is_tcp, last_index_of, parse_u32, spec_fields, spec_first_index,
    spec_is_tcp, spec_last_index, spec_lines, spec_lower, spec_parse_u32, split_lines,
    string_of_chars, sub_chars, to_lower,
};

verus! {

/// Which tool's output shape a raw text has.
#[derive(Clone, Copy, PartialEq, Eq, Structural, Debug)]
pub enum SourceFormat {
    /// Privileged port listing: owner column present.
    PrivilegedPortList,
    /// Modern socket-statistics tool, unprivileged.
    SocketStats,
    /// Legacy port-listing tool, unprivileged.
    LegacyPortList,
}

/// Owner name when a PID exists but no name could be parsed.
pub open spec fn unknown_name() -> Seq<char> {
    "Unknown"@
}

/// Owner name when the acquisition ran unprivileged.
pub open spec fn no_priv_name() -> Seq<char> {
    "Unknown (no privileges)"@
}

/// State of every non-TCP record.
pub open spec fn stateless_state() -> Seq<char> {
    "stateless"@
}

/// State of a TCP record whose state column is missing.
pub open spec fn unknown_state() -> Seq<char> {
    "unknown"@
}

/// Local address when the source omits it.
pub open spec fn wildcard_ip() -> Seq<char> {
    "Any"@
}

/// Foreign address when the source has none to report.
pub open spec fn na_foreign() -> Seq<char> {
    "*:*"@
}

/// The owner token meaning "no owner".
pub open spec fn dash_token() -> Seq<char> {
    "-"@
}

/// Header lines to skip for a format.
pub open spec fn spec_header_lines(f: SourceFormat) -> nat {
    match f {
        SourceFormat::PrivilegedPortList => 2,
        SourceFormat::SocketStats => 1,
        SourceFormat::LegacyPortList => 2,
    }
}

/// The fewest whitespace-separated fields a line must decompose into; a line
/// with fewer is dropped.
pub open spec fn spec_min_fields(f: SourceFormat) -> nat {
    match f {
        SourceFormat::PrivilegedPortList => 5,
        SourceFormat::SocketStats => 5,
        SourceFormat::LegacyPortList => 4,
    }
}

/// The column holding `local_address:port`.
pub open spec fn spec_local_col(f: SourceFormat) -> nat {
    match f {
        SourceFormat::PrivilegedPortList => 3,
        SourceFormat::SocketStats => 4,
        SourceFormat::LegacyPortList => 3,
    }
}

/// Header lines to skip for a format.
pub fn header_lines(f: SourceFormat) -> (r: usize)
    ensures
        r == spec_header_lines(f),
{
    match f {
        SourceFormat::PrivilegedPortList => 2,
        SourceFormat::SocketStats => 1,
        SourceFormat::LegacyPortList => 2,
    }
}

/// The fewest fields a line of this format must have to be kept.
pub fn min_fields(f: SourceFormat) -> (r: usize)
    ensures
        r == spec_min_fields(f),
{
    match f {
        SourceFormat::PrivilegedPortList => 5,
        SourceFormat::SocketStats => 5,
        SourceFormat::LegacyPortList => 4,
    }
}

/// The column holding `local_address:port`.
fn local_col(f: SourceFormat) -> (r: usize)
    ensures
        r == spec_local_col(f),
{
    match f {
        SourceFormat::PrivilegedPortList => 3,
        SourceFormat::SocketStats => 4,
        SourceFormat::LegacyPortList => 3,
    }
}

/// The port part of a local-address field: what follows the last colon, or
/// empty when there is no colon.
pub open spec fn spec_addr_port(addr: Seq<char>) -> Seq<char> {
    match spec_last_index(addr, ':') {
        Some(j) => addr.skip(j + 1),
        None => Seq::empty(),
    }
}

/// The address part of a local-address field: what precedes the last colon
/// (the whole field when there is no colon), or the wildcard token when that
/// prefix is empty.
pub open spec fn spec_addr_ip(addr: Seq<char>) -> Seq<char> {
    let prefix = match spec_last_index(addr, ':') {
        Some(j) => addr.take(j),
        None => addr,
    };
    if prefix.len() == 0 {
        wildcard_ip()
    } else {
        prefix
    }
}

/// Splits a local-address field into address and port on its last colon.
pub fn split_address(addr: &Vec<char>) -> (r: (String, String))
    ensures
        r.0@ == spec_addr_ip(addr@),
        r.1@ == spec_addr_port(addr@),
{
    let idx = last_index_of(addr, ':');
    let n = addr.len();
    let (prefix, port) = match idx {
        Some(j) => {
            proof {
                assert(j < n);
                assert(addr@.subrange(j + 1, addr@.len() as int) =~= addr@.skip(j + 1));
                assert(addr@.subrange(0, j as int) =~= addr@.take(j as int));
            }
            (sub_chars(addr, 0, j), sub_chars(addr, j + 1, n))
        },
        None => {
            proof {
                assert(addr@.subrange(0, addr@.len() as int) =~= addr@);
            }
            let e: Vec<char> = Vec::new();
            proof {
                assert(e@ =~= Seq::<char>::empty());
            }
            (sub_chars(addr, 0, addr.len()), e)
        },
    };
    let ip = if prefix.len() == 0 {
        String::from_str("Any")
    } else {
        string_of_chars(&prefix)
    };
    (ip, string_of_chars(&port))
}

/// The PID half of an owner token's decomposition.
pub open spec fn spec_owner_pid(t: Seq<char>) -> Option<u32> {
    if t == dash_token() {
        None
    } else {
        match spec_first_index(t, '/') {
            Some(j) => spec_parse_u32(t.take(j)),
            None => spec_parse_u32(t),
        }
    }
}

/// The name half of an owner token's decomposition.
pub open spec fn spec_owner_name(t: Seq<char>) -> Seq<char> {
    if t == dash_token() {
        unknown_name()
    } else {
        match spec_first_index(t, '/') {
            Some(j) => if spec_parse_u32(t.take(j)) is Some {
                t.skip(j + 1)
            } else {
                unknown_name()
            },
            None => unknown_name(),
        }
    }
}

/// Decomposes an owner token (`pid/name`, a bare pid, or `-`) into the PID
/// and the program name.
pub fn owner_token(t: &Vec<char>) -> (r: (Option<u32>, String))
    ensures
        r.0 == spec_owner_pid(t@),
        r.1@ == spec_owner_name(t@),
{
    proof {
        reveal_strlit("-");
    }
    if t.len() == 1 && t[0] == '-' {
        proof {
            assert(t@ =~= dash_token());
        }
        return (None, String::from_str("Unknown"));
    }
    proof {
        assert(t@ != dash_token());
    }
    match first_index_of(t, '/') {
        Some(j) => {
            let left = sub_chars(t, 0, j);
            proof {
                assert(left@ =~= t@.take(j as int));
            }
            match parse_u32(&left) {
                Some(p) => {
                    let name = sub_chars(t, j + 1, t.len());
                    proof {
                        assert(name@ =~= t@.skip(j + 1));
                    }
                    (Some(p), string_of_chars(&name))
                },
                None => (None, String::from_str("Unknown")),
            }
        },
        None => (parse_u32(t), String::from_str("Unknown")),
    }
}

/// The foreign-address field of a decomposed line.
pub open spec fn spec_foreign_of(f: SourceFormat, fields: Seq<Seq<char>>) -> Seq<char> {
    match f {
        SourceFormat::PrivilegedPortList => fields[4],
        SourceFormat::LegacyPortList => na_foreign(),
        SourceFormat::SocketStats => if fields.len() > 5 {
            fields[5]
        } else {
            na_foreign()
        },
    }
}

/// The state field of a decomposed line.
pub open spec fn spec_state_of(f: SourceFormat, fields: Seq<Seq<char>>, tcp: bool) -> Seq<char> {
    if !tcp {
        stateless_state()
    } else {
        match f {
            SourceFormat::SocketStats => fields[1],
            _ => if fields.len() > 5 {
                fields[5]
            } else {
                unknown_state()
            },
        }
    }
}

/// The owner column of the privileged format: after the state column for
/// TCP, in its place for anything else.
pub open spec fn spec_owner_col(tcp: bool) -> nat {
    if tcp {
        6
    } else {
        5
    }
}

/// The PID of a decomposed line.
pub open spec fn spec_pid_of(f: SourceFormat, fields: Seq<Seq<char>>, tcp: bool, privileged: bool) -> Option<u32> {
    if f is PrivilegedPortList && privileged && fields.len() > spec_owner_col(tcp) {
        spec_owner_pid(fields[spec_owner_col(tcp) as int])
    } else {
        None
    }
}

/// The process name of a decomposed line.
pub open spec fn spec_name_of(f: SourceFormat, fields: Seq<Seq<char>>, tcp: bool, privileged: bool) -> Seq<char> {
    if f is PrivilegedPortList && privileged {
        if fields.len() > spec_owner_col(tcp) {
            spec_owner_name(fields[spec_owner_col(tcp) as int])
        } else {
            unknown_name()
        }
    } else {
        no_priv_name()
    }
}

/// The record a decomposed line denotes.
pub open spec fn spec_record_of(f: SourceFormat, fields: Seq<Seq<char>>, privileged: bool) -> PortRecordV
    recommends
        fields.len() >= spec_min_fields(f),
{
    let protocol = spec_lower(fields[0]);
    let tcp = spec_is_tcp(protocol);
    let local = fields[spec_local_col(f) as int];
    PortRecordV {
        port: spec_addr_port(local),
        local_ip: spec_addr_ip(local),
        foreign_address: spec_foreign_of(f, fields),
        protocol,
        state: spec_state_of(f, fields, tcp),
        pid: spec_pid_of(f, fields, tcp, privileged),
        process_name: spec_name_of(f, fields, tcp, privileged),
        recv_q: 0,
        send_q: 0,
    }
}

/// The record a raw line denotes: none when the line has too few fields.
pub open spec fn spec_parse_line(f: SourceFormat, line: Seq<char>, privileged: bool) -> Option<
    PortRecordV,
> {
    let fields = spec_fields(line);
    if fields.len() < spec_min_fields(f) {
        None
    } else {
        Some(spec_record_of(f, fields, privileged))
    }
}

/// The records a sequence of raw lines denotes, in line order.
pub open spec fn spec_parse_lines(
    f: SourceFormat,
    lines: Seq<Seq<char>>,
    privileged: bool,
) -> Seq<PortRecordV>
    decreases lines.len(),
{
    if lines.len() == 0 {
        Seq::empty()
    } else {
        match spec_parse_line(f, lines[0], privileged) {
            Some(r) => seq![r] + spec_parse_lines(f, lines.drop_first(), privileged),
            None => spec_parse_lines(f, lines.drop_first(), privileged),
        }
    }
}

/// The records a whole raw text denotes: its lines after the format's
/// header, each decomposed by the format's schema.
pub open spec fn spec_parse(f: SourceFormat, text: Seq<char>, privileged: bool) -> Seq<
    PortRecordV,
> {
    let lines = spec_lines(text);
    let h = spec_header_lines(f) as int;
    if h <= lines.len() {
        spec_parse_lines(f, lines.skip(h), privileged)
    } else {
        Seq::empty()
    }
}

/// Builds the record of one decomposed line.
fn record_of(f: SourceFormat, fields: &Vec<Vec<char>>, privileged: bool) -> (r: PortRecord)
    requires
        fields.deep_view().len() >= spec_min_fields(f),
    ensures
        r@ == spec_record_of(f, fields.deep_view(), privileged),
{
    proof {
        assert(fields.deep_view().len() == fields@.len());
        assert forall|k: int| 0 <= k < fields@.len() implies #[trigger] fields.deep_view()[k]
            == fields@[k]@ by {
            assert(fields.deep_view()[k] =~= fields@[k]@);
        }
    }
    let protocol_chars = to_lower(&fields[0]);
    let tcp = is_tcp(&protocol_chars);
    let protocol = string_of_chars(&protocol_chars);
    let lc = local_col(f);
    let (local_ip, port) = split_address(&fields[lc]);
    let foreign_address = match f {
        SourceFormat::PrivilegedPortList => string_of_chars(&fields[4]),
        SourceFormat::LegacyPortList => String::from_str("*:*"),
        SourceFormat::SocketStats => if fields.len() > 5 {
            string_of_chars(&fields[5])
        } else {
            String::from_str("*:*")
        },
    };
    let state = if !tcp {
        String::from_str("stateless")
    } else {
        match f {
            SourceFormat::SocketStats => string_of_chars(&fields[1]),
            _ => if fields.len() > 5 {
                string_of_chars(&fields[5])
            } else {
                String::from_str("unknown")
            },
        }
    };
    let is_priv_fmt = match f {
        SourceFormat::PrivilegedPortList => true,
        _ => false,
    };
    let (pid, process_name) = if is_priv_fmt && privileged {
        let oi: usize = if tcp {
            6
        } else {
            5
        };
        if fields.len() > oi {
            owner_token(&fields[oi])
        } else {
            (None, String::from_str("Unknown"))
        }
    } else {
        (None, String::from_str("Unknown (no privileges)"))
    };
    PortRecord {
        port,
        local_ip,
        foreign_address,
        protocol,
        state,
        pid,
        process_name,
        recv_q: 0,
        send_q: 0,
    }
}

/// Parses raw tool output of the given shape into the ordered sequence of
/// its port records. A line with fewer fields than the format requires is
/// skipped; the rest of the batch is unaffected.
#[verifier::loop_isolation(false)]
pub fn parse(format: SourceFormat, text: &str, privileged: bool) -> (r: Vec<PortRecord>)
    ensures
        r.deep_view() == spec_parse(format, text@, privileged),
{
    let chars = chars_of(text);
    let lines = split_lines(&chars);
    let h = header_lines(format);
    let mf = min_fields(format);
    let mut r: Vec<PortRecord> = Vec::new();
    proof {
        assert(r.deep_view() =~= Seq::<PortRecordV>::empty());
        assert forall|k: int| 0 <= k < lines@.len() implies #[trigger] lines.deep_view()[k]
            == lines@[k]@ by {
            assert(lines.deep_view()[k] =~= lines@[k]@);
        }
    }
    if lines.len() < h {
        return r;
    }
    let ghost ls = lines.deep_view();
    let mut i: usize = h;
    proof {
        assert(ls.len() == lines@.len());
        assert(spec_parse_lines(format, ls.skip(spec_header_lines(format) as int), privileged)
            =~= r.deep_view() + spec_parse_lines(format, ls.skip(i as int), privileged));
    }
    while i < lines.len()
        invariant
            h <= i <= lines@.len(),
            ls == lines.deep_view(),
            ls.len() == lines@.len(),
            spec_parse_lines(format, ls.skip(spec_header_lines(format) as int), privileged)
                == r.deep_view() + spec_parse_lines(format, ls.skip(i as int), privileged),
            forall|k: int| 0 <= k < lines@.len() ==> #[trigger] ls[k] == lines@[k]@,
        decreases lines@.len() - i,
    {
        let ghost tail = ls.skip(i as int);
        proof {
            assert(tail.len() > 0);
            assert(tail[0] == ls[i as int]);
            assert(tail.drop_first() =~= ls.skip(i as int + 1));
        }
        let fields = fields_of(&lines[i]);
        proof {
            assert(fields.deep_view() == spec_fields(lines@[i as int]@));
        }
        if fields.len() >= mf {
            proof {
                assert(fields.deep_view().len() == fields@.len());
            }
            let rec = record_of(format, &fields, privileged);
            let ghost old_r = r.deep_view();
            r.push(rec);
            proof {
                assert(spec_parse_line(format, tail[0], privileged) == Some(rec@));
                assert(r.deep_view() =~= old_r.push(rec@));
                assert(old_r.push(rec@) =~= old_r + seq![rec@]);
                assert(old_r + seq![rec@] + spec_parse_lines(
                    format,
                    ls.skip(i as int + 1),
                    privileged,
                ) =~= old_r + (seq![rec@] + spec_parse_lines(
                    format,
                    ls.skip(i as int + 1),
                    privileged,
                )));
            }
        } else {
            proof {
                assert(fields.deep_view().len() == fields@.len());
                assert(spec_parse_line(format, tail[0], privileged) is None);
            }
        }
        i += 1;
    }
    proof {
        assert(ls.skip(ls.len() as int) =~= Seq::<Seq<char>>::empty());
        assert(r.deep_view() + spec_parse_lines(
            format,
            ls.skip(ls.len() as int),
            privileged,
        ) =~= r.deep_view());
        assert(r.deep_view() == spec_parse(format, text@, privileged));
    }
    r
}

} // verus!
