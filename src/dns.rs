//! DNS servers from the network daemon's state text: the value of the first
//! `DNS=` line, split on spaces into addresses.

use crate::addr::{ip_from_text, parse_ip, IpAddr};
use crate::network::NetError;
use vstd::prelude::*;

verus! {

/// The pieces of `s` between occurrences of `sep`, in order, as `str::split`
/// gives them: one more piece than there are separators.
pub open spec fn split_on(s: Seq<char>, sep: char) -> Seq<Seq<char>>
    decreases s.len(),
{
    if s.len() == 0 {
        seq![Seq::empty()]
    } else {
        let p = split_on(s.drop_last(), sep);
        if s.last() == sep {
            p.push(Seq::empty())
        } else {
            p.update(p.len() - 1, p.last().push(s.last()))
        }
    }
}

proof fn lemma_split_nonempty(s: Seq<char>, sep: char)
    ensures
        split_on(s, sep).len() >= 1,
    decreases s.len(),
{
    if s.len() > 0 {
        lemma_split_nonempty(s.drop_last(), sep);
    }
}

/// Splits `s` at each `sep`.
pub fn split_str(s: &str, sep: char) -> (r: Vec<String>)
    ensures
        r@.map_values(|p: String| p@) == split_on(s@, sep),
{
    let n = s.unicode_len();
    let mut pieces: Vec<String> = Vec::new();
    let mut start: usize = 0;
    let mut i: usize = 0;
    assert(s@.subrange(0, 0) =~= Seq::<char>::empty());
    assert(pieces@.map_values(|p: String| p@).push(s@.subrange(0, 0)) =~= seq![Seq::<char>::empty()]);
    while i < n
        invariant
            n == s@.len(),
            start <= i <= n,
            pieces@.map_values(|p: String| p@).push(s@.subrange(start as int, i as int)) == split_on(
                s@.subrange(0, i as int),
                sep,
            ),
        decreases n - i,
    {
        let ghost pre = s@.subrange(0, i as int);
        assert(s@.subrange(0, i + 1).drop_last() =~= pre);
        proof {
            lemma_split_nonempty(pre, sep);
        }
        let c = s.get_char(i);
        if c == sep {
            let ghost old_pieces = pieces@;
            pieces.push(s.substring_char(start, i).to_owned());
            assert(pieces@.map_values(|p: String| p@) =~= old_pieces.map_values(|p: String| p@).push(
                s@.subrange(start as int, i as int),
            ));
            assert(s@.subrange((i + 1) as int, (i + 1) as int) =~= Seq::<char>::empty());
            start = i + 1;
        } else {
            assert(s@.subrange(start as int, i + 1) =~= s@.subrange(start as int, i as int).push(c));
            assert(pieces@.map_values(|p: String| p@).push(s@.subrange(start as int, i + 1)) =~= split_on(
                s@.subrange(0, i + 1),
                sep,
            ));
        }
        i += 1;
    }
    let ghost old_pieces = pieces@;
    pieces.push(s.substring_char(start, n).to_owned());
    assert(s@.subrange(0, n as int) =~= s@);
    assert(pieces@.map_values(|p: String| p@) =~= old_pieces.map_values(|p: String| p@).push(
        s@.subrange(start as int, n as int),
    ));
    pieces
}

/// The value of the first line that starts with `DNS=` and has something
/// after it.
pub open spec fn dns_value_of(lines: Seq<Seq<char>>) -> Option<Seq<char>>
    decreases lines.len(),
{
    if lines.len() == 0 {
        None
    } else {
        match dns_value_of(lines.drop_last()) {
            Some(v) => Some(v),
            None => {
                let l = lines.last();
                if l.len() > 4 && l.subrange(0, 4) == "DNS="@ {
                    Some(l.subrange(4, l.len() as int))
                } else {
                    None
                }
            },
        }
    }
}

/// The addresses that the texts denote, or `None` when one does not parse.
pub open spec fn ips_of_pieces(s: Seq<Seq<char>>) -> Option<Seq<IpAddr>>
    decreases s.len(),
{
    if s.len() == 0 {
        Some(Seq::empty())
    } else {
        match ips_of_pieces(s.drop_last()) {
            None => None,
            Some(p) => match ip_from_text(s.last()) {
                None => None,
                Some(a) => Some(p.push(a)),
            },
        }
    }
}

/// The DNS servers that a state text names.
pub open spec fn dns_servers_of(state: Seq<char>) -> Result<Seq<IpAddr>, NetError> {
    match dns_value_of(split_on(state, '\n')) {
        None => Err(NetError::DnsKeyNotFound),
        Some(v) => match ips_of_pieces(split_on(v, ' ')) {
            None => Err(NetError::InvalidIpAddress),
            Some(ips) => if ips.len() == 0 {
                Err(NetError::NoDnsServers)
            } else {
                Ok(ips)
            },
        },
    }
}

proof fn lemma_ips_none_extends(s: Seq<Seq<char>>, k: int, n: int)
    requires
        0 <= k <= n <= s.len(),
        ips_of_pieces(s.subrange(0, k)) is None,
    ensures
        ips_of_pieces(s.subrange(0, n)) is None,
    decreases n - k,
{
    if n > k {
        lemma_ips_none_extends(s, k, n - 1);
        assert(s.subrange(0, n).drop_last() =~= s.subrange(0, n - 1));
    }
}

proof fn lemma_value_found_extends(s: Seq<Seq<char>>, k: int, n: int, v: Seq<char>)
    requires
        0 <= k <= n <= s.len(),
        dns_value_of(s.subrange(0, k)) == Some(v),
    ensures
        dns_value_of(s.subrange(0, n)) == Some(v),
    decreases n - k,
{
    if n > k {
        lemma_value_found_extends(s, k, n - 1, v);
        assert(s.subrange(0, n).drop_last() =~= s.subrange(0, n - 1));
    }
}

fn dns_value(state: &str) -> (r: Option<String>)
    ensures
        match (r, dns_value_of(split_on(state@, '\n'))) {
            (Some(a), Some(b)) => a@ == b,
            (None, None) => true,
            _ => false,
        },
{
    let lines = split_str(state, '\n');
    let ghost ls = lines@.map_values(|p: String| p@);
    let key = "DNS=".to_owned();
    let mut i: usize = 0;
    while i < lines.len()
        invariant
            ls == lines@.map_values(|p: String| p@),
            ls == split_on(state@, '\n'),
            key@ == "DNS="@,
            i <= lines.len(),
            dns_value_of(ls.subrange(0, i as int)) is None,
        decreases lines.len() - i,
    {
        assert(ls.subrange(0, i + 1).drop_last() =~= ls.subrange(0, i as int));
        let line = lines[i].as_str();
        assert(ls[i as int] == line@);
        let len = line.unicode_len();
        if len > 4 {
            let head = line.substring_char(0, 4).to_owned();
            if head == key {
                let v = line.substring_char(4, len).to_owned();
                proof {
                    assert(dns_value_of(ls.subrange(0, i + 1)) == Some(v@));
                    lemma_value_found_extends(ls, i + 1, ls.len() as int, v@);
                    assert(ls.subrange(0, ls.len() as int) =~= ls);
                }
                return Some(v);
            }
        }
        i += 1;
    }
    assert(ls.subrange(0, ls.len() as int) =~= ls);
    None
}

/// The DNS servers named by the first `DNS=` line of the daemon's state text.
/// Fails with `DnsKeyNotFound` without such a line, with `InvalidIpAddress`
/// when a space-separated piece is not an address, and with `NoDnsServers`
/// when no address is listed.
pub fn dns_servers_from_state(state: &str) -> (r: Result<Vec<IpAddr>, NetError>)
    ensures
        match (r, dns_servers_of(state@)) {
            (Ok(a), Ok(b)) => a@ == b,
            (Err(e), Err(x)) => e == x,
            _ => false,
        },
{
    let value = match dns_value(state) {
        Some(v) => v,
        None => {
            return Err(NetError::DnsKeyNotFound);
        },
    };
    let pieces = split_str(value.as_str(), ' ');
    let ghost ps = pieces@.map_values(|p: String| p@);
    let mut addrs: Vec<IpAddr> = Vec::new();
    let mut i: usize = 0;
    while i < pieces.len()
        invariant
            ps == pieces@.map_values(|p: String| p@),
            ps == split_on(value@, ' '),
            dns_value_of(split_on(state@, '\n')) == Some(value@),
            i <= pieces.len(),
            ips_of_pieces(ps.subrange(0, i as int)) == Some(addrs@),
        decreases pieces.len() - i,
    {
        assert(ps.subrange(0, i + 1).drop_last() =~= ps.subrange(0, i as int));
        match parse_ip(pieces[i].as_str()) {
            Some(a) => addrs.push(a),
            None => {
                proof {
                    lemma_ips_none_extends(ps, i + 1, ps.len() as int);
                    assert(ps.subrange(0, ps.len() as int) =~= ps);
                }
                return Err(NetError::InvalidIpAddress);
            },
        }
        i += 1;
    }
    assert(ps.subrange(0, ps.len() as int) =~= ps);
    if addrs.len() == 0 {
        return Err(NetError::NoDnsServers);
    }
    Ok(addrs)
}

} // verus!
