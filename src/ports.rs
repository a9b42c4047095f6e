//! Preparing the list of ports to scan: a numeric range, a delimited list of
//! well-known ports, and the optional shuffle of the probing order.
use vstd::prelude::*;
use vstd::string::*;
use crate::cli::{decimal, is_port, parse_decimal_capped, range_of, Cli, PORT_MAX, PORT_MIN};

verus! {

/// A character that separates the entries of a port list.
pub open spec fn is_delimiter(c: char) -> bool {
    c == ',' || c == '\n' || c == '\r'
}

/// The entries of a delimited list, empty ones included, in order.
pub open spec fn fields(s: Seq<char>) -> Seq<Seq<char>>
    decreases s.len(),
{
    if s.len() == 0 {
        seq![Seq::empty()]
    } else {
        let f = fields(s.drop_last());
        if is_delimiter(s.last()) {
            f.push(Seq::empty())
        } else {
            f.update(f.len() - 1, f.last().push(s.last()))
        }
    }
}

/// The port an entry names, if it is a decimal number in the port range.
pub open spec fn port_of_field(f: Seq<char>) -> Option<u16> {
    match decimal(f) {
        Some(v) => if is_port(v) {
            Some(v as u16)
        } else {
            None
        },
        None => None,
    }
}

/// The ports that a sequence of entries names, skipping the entries that name none.
pub open spec fn ports_of_fields(fs: Seq<Seq<char>>) -> Seq<u16>
    decreases fs.len(),
{
    if fs.len() == 0 {
        Seq::empty()
    } else {
        let p = ports_of_fields(fs.drop_last());
        match port_of_field(fs.last()) {
            Some(v) => p.push(v),
            None => p,
        }
    }
}

/// The ports that a comma- or newline-delimited list names, in order.
pub open spec fn port_list_of(s: Seq<char>) -> Seq<u16> {
    ports_of_fields(fields(s))
}

/// The ports from `start` to `end`, both included, in increasing order.
pub open spec fn port_span(start: u16, end: u16) -> Seq<u16> {
    if start <= end {
        Seq::new((end - start + 1) as nat, |i: int| (start + i) as u16)
    } else {
        Seq::empty()
    }
}

fn field_port(s: &str, from: usize, to: usize) -> (r: Option<u16>)
    requires
        from <= to <= s@.len(),
    ensures
        r == port_of_field(s@.subrange(from as int, to as int)),
{
    match parse_decimal_capped(s, from, to) {
        Some(v) => if PORT_MIN as u32 <= v && v <= PORT_MAX as u32 {
            Some(v as u16)
        } else {
            None
        },
        None => None,
    }
}

/// Reads a list of ports separated by commas or line breaks, such as
/// `22,\n80,\n443`. Entries that are not a port number are skipped.
pub fn parse_port_list(s: &str) -> (r: Vec<u16>)
    ensures
        r@ == port_list_of(s@),
{
    let n = s.unicode_len();
    let mut out: Vec<u16> = Vec::new();
    let mut start: usize = 0;
    let mut i: usize = 0;
    let ghost mut done: Seq<Seq<char>> = Seq::empty();
    assert(s@.subrange(0, 0) =~= Seq::<char>::empty());
    assert(fields(Seq::<char>::empty()) =~= done.push(s@.subrange(0, 0)));
    while i < n
        invariant
            n == s@.len(),
            start <= i <= n,
            fields(s@.subrange(0, i as int)) == done.push(s@.subrange(start as int, i as int)),
            out@ == ports_of_fields(done),
        decreases n - i,
    {
        let c = s.get_char(i);
        let ghost prefix = s@.subrange(0, i as int);
        assert(s@.subrange(0, i + 1).drop_last() =~= prefix);
        assert(s@.subrange(0, i + 1).last() == c);
        if c == ',' || c == '\n' || c == '\r' {
            let p = field_port(s, start, i);
            let ghost f = s@.subrange(start as int, i as int);
            assert(done.push(f).drop_last() =~= done);
            match p {
                Some(v) => out.push(v),
                None => {},
            }
            proof {
                done = done.push(f);
            }
            start = i + 1;
            assert(s@.subrange(start as int, i + 1) =~= Seq::<char>::empty());
        } else {
            let ghost f = fields(prefix);
            assert(s@.subrange(start as int, i + 1) =~= s@.subrange(start as int, i as int).push(c));
            assert(f.update(f.len() - 1, f.last().push(c)) =~= done.push(
                s@.subrange(start as int, i + 1),
            ));
        }
        i = i + 1;
    }
    let p = field_port(s, start, n);
    let ghost f = s@.subrange(start as int, n as int);
    assert(done.push(f).drop_last() =~= done);
    assert(s@.subrange(0, n as int) =~= s@);
    match p {
        Some(v) => out.push(v),
        None => {},
    }
    out
}

/// The ports from `start` to `end`, both included, in increasing order; none
/// where `start` is above `end`.
pub fn port_range_list(start: u16, end: u16) -> (r: Vec<u16>)
    ensures
        r@ == port_span(start, end),
{
    let mut out: Vec<u16> = Vec::new();
    if start > end {
        return out;
    }
    let mut p: u32 = start as u32;
    while p <= end as u32
        invariant
            start <= end,
            start <= p <= end as u32 + 1,
            out@ == Seq::new((p - start) as nat, |i: int| (start + i) as u16),
        decreases end as u32 + 1 - p,
    {
        out.push(p as u16);
        p = p + 1;
        assert(out@ =~= Seq::new((p - start) as nat, |i: int| (start + i) as u16));
    }
    assert(out@ =~= port_span(start, end));
    out
}

/// Relies on rand's `SliceRandom::shuffle`, driven by `rand::thread_rng`: it
/// reorders the elements by swaps alone, so the same ports remain.
#[verifier::external_body]
fn shuffle_ports(ports: &mut Vec<u16>)
    ensures
        final(ports)@.to_multiset() == old(ports)@.to_multiset(),
{
    <[u16] as rand::seq::SliceRandom>::shuffle(ports, &mut rand::thread_rng())
}

/// The order in which ports are probed: the given order where `sequential`
/// holds, else a random permutation of it.
pub fn prepare_ports(ports: Vec<u16>, sequential: bool) -> (r: Vec<u16>)
    ensures
        r@.len() == ports@.len(),
        r@.to_multiset() == ports@.to_multiset(),
        sequential ==> r@ == ports@,
{
    let ghost given = ports@;
    let mut ports = ports;
    if !sequential {
        shuffle_ports(&mut ports);
        proof {
            vstd::seq_lib::to_multiset_len(given);
            vstd::seq_lib::to_multiset_len(ports@);
        }
    }
    ports
}

/// Every entry of a parsed list names a scannable port.
pub proof fn lemma_parsed_ports_valid(fs: Seq<Seq<char>>)
    ensures
        forall|i: int|
            0 <= i < ports_of_fields(fs).len() ==> is_port(#[trigger] ports_of_fields(fs)[i] as nat),
    decreases fs.len(),
{
    if fs.len() > 0 {
        let p = ports_of_fields(fs.drop_last());
        lemma_parsed_ports_valid(fs.drop_last());
        match port_of_field(fs.last()) {
            Some(v) => {
                assert(ports_of_fields(fs) == p.push(v));
                assert forall|i: int| 0 <= i < p.len() + 1 implies is_port(
                    #[trigger] p.push(v)[i] as nat,
                ) by {
                    if i < p.len() {
                        assert(p.push(v)[i] == p[i]);
                    }
                }
            },
            None => {},
        }
    }
}

/// The ports that a configuration asks for, before any reordering: those of
/// the well-known ports list where it asks for them, else its range.
pub open spec fn requested_ports(cli: Cli, common_ports_text: Seq<char>) -> Seq<u16> {
    if cli.common_ports {
        port_list_of(common_ports_text)
    } else {
        port_span(range_of(cli.ports).0, range_of(cli.ports).1)
    }
}

/// The ports to scan, in the order in which to probe them. The well-known
/// ports come from `common_ports_text`, which is read only when the
/// configuration asks for them.
pub fn select_ports(cli: &Cli, common_ports_text: &str) -> (r: Vec<u16>)
    ensures
        r@.to_multiset() == requested_ports(*cli, common_ports_text@).to_multiset(),
        cli.sequential ==> r@ == requested_ports(*cli, common_ports_text@),
        cli.common_ports || is_port(range_of(cli.ports).0 as nat) ==> forall|i: int|
            0 <= i < r@.len() ==> is_port(#[trigger] r@[i] as nat),
{
    let ports = if cli.common_ports {
        parse_port_list(common_ports_text)
    } else {
        let (start, end) = cli.get_ports();
        port_range_list(start, end)
    };
    let ghost req = requested_ports(*cli, common_ports_text@);
    proof {
        lemma_parsed_ports_valid(fields(common_ports_text@));
    }
    let r = prepare_ports(ports, cli.sequential);
    proof {
        broadcast use vstd::seq_lib::group_to_multiset_ensures;
        if cli.common_ports || is_port(range_of(cli.ports).0 as nat) {
            assert forall|i: int| 0 <= i < r@.len() implies is_port(#[trigger] r@[i] as nat) by {
                assert(r@.to_multiset().count(r@[i]) > 0);
                assert(req.contains(r@[i]));
            }
        }
    }
    r
}

} // verus!
