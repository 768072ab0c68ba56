//! Address fields: a hardware address of six hexadecimal octets between
//! colons, and an IPv4 address of four decimal octets between dots.

use vstd::prelude::*;
use crate::cmdline::arg::arg_int::{
    digit_of, digits_text, from_str_radix, lemma_digits_text, radix_value,
};
use crate::cmdline::arg::{Arg, ArgData, ArgModel};
use crate::cmdline::error::FlowError;

verus! {

/// The pieces of `s` between the separators `sep`, in order. A text with
/// `k` separators has `k + 1` pieces, of which any may be empty.
pub open spec fn split(s: Seq<char>, sep: char) -> Seq<Seq<char>>
    decreases s.len(),
{
    if s.len() == 0 {
        seq![Seq::<char>::empty()]
    } else {
        let before = split(s.drop_last(), sep);
        if s.last() == sep {
            before.push(Seq::<char>::empty())
        } else {
            before.drop_last().push(before.last().push(s.last()))
        }
    }
}

/// Every piece of `parts` reads as an octet in `radix`.
pub open spec fn all_octets(parts: Seq<Seq<char>>, radix: nat) -> bool {
    forall|k: int| 0 <= k < parts.len() ==> (#[trigger] radix_value(parts[k], radix, 0xff)) is Some
}

/// The octet that `part` writes in `radix`.
pub open spec fn octet_of(part: Seq<char>, radix: nat) -> u8 {
    match radix_value(part, radix, 0xff) {
        Some(v) => v as u8,
        None => 0u8,
    }
}

/// The octets that the pieces `parts` write in `radix`, if each of them
/// writes one.
pub open spec fn octets(parts: Seq<Seq<char>>, radix: nat) -> Option<Seq<u8>> {
    if all_octets(parts, radix) {
        Some(Seq::new(parts.len(), |k: int| octet_of(parts[k], radix)))
    } else {
        None
    }
}

/// The buffer of an address of exactly `count` octets, written in `radix`
/// between the separators `sep`.
pub open spec fn address(sample: Seq<char>, sep: char, radix: nat, count: nat) -> Result<
    ArgModel,
    FlowError,
> {
    match octets(split(sample, sep), radix) {
        Some(bytes) => if bytes.len() == count {
            Ok(ArgModel::from_bytes(bytes))
        } else {
            Err(FlowError::InvalidArgument)
        },
        None => Err(FlowError::InvalidArgument),
    }
}

/// Reads the octets that `sample` writes in `radix` between the separators
/// `sep`.
fn parse_octets(sample: &str, sep: char, radix: u32) -> (r: Option<Vec<u8>>)
    requires
        2 <= radix <= 36,
    ensures
        match r {
            Some(v) => octets(split(sample@, sep), radix as nat) == Some(v@),
            None => octets(split(sample@, sep), radix as nat) is None,
        },
{
    let n = sample.unicode_len();
    let mut out: Vec<u8> = Vec::new();
    let mut ok = true;
    let mut start: usize = 0;
    let mut i: usize = 0;
    let ghost mut done: Seq<Seq<char>> = Seq::empty();
    proof {
        assert(sample@.take(0) =~= Seq::<char>::empty());
        assert(sample@.subrange(0, 0) =~= Seq::<char>::empty());
        assert(split(sample@.take(0), sep) =~= done.push(sample@.subrange(0, 0)));
    }
    while i < n
        invariant
            start <= i <= n,
            n == sample@.len(),
            2 <= radix <= 36,
            split(sample@.take(i as int), sep) == done.push(
                sample@.subrange(start as int, i as int),
            ),
            ok == all_octets(done, radix as nat),
            ok ==> out@ == Seq::new(done.len(), |k: int| octet_of(done[k], radix as nat)),
        decreases n - i,
    {
        let c = sample.get_char(i);
        let ghost prefix = sample@.take(i as int);
        let ghost current = sample@.subrange(start as int, i as int);
        proof {
            let next = sample@.take(i + 1);
            assert(next.drop_last() =~= prefix);
            assert(next.last() == c);
            assert(done.push(current).drop_last() =~= done);
            assert(done.push(current).last() == current);
        }
        if c == sep {
            let part = sample.substring_char(start, i);
            let ghost before = done;
            match from_str_radix::<u8>(part, radix) {
                Some(b) => {
                    if ok {
                        out.push(b);
                    }
                },
                None => {
                    ok = false;
                },
            }
            proof {
                done = before.push(current);
                assert(sample@.subrange(i + 1, i + 1) =~= Seq::<char>::empty());
                assert(all_octets(before, radix as nat) && radix_value(
                    current,
                    radix as nat,
                    0xff,
                ) is Some ==> all_octets(done, radix as nat)) by {
                    if all_octets(before, radix as nat) && radix_value(current, radix as nat, 0xff)
                        is Some {
                        assert forall|k: int| 0 <= k < done.len() implies (#[trigger] radix_value(
                            done[k],
                            radix as nat,
                            0xff,
                        )) is Some by {
                            if k < before.len() {
                                assert(done[k] == before[k]);
                            }
                        }
                    }
                }
                assert(all_octets(done, radix as nat) ==> all_octets(before, radix as nat)
                    && radix_value(current, radix as nat, 0xff) is Some) by {
                    if all_octets(done, radix as nat) {
                        assert(done[before.len() as int] == current);
                        assert forall|k: int| 0 <= k < before.len() implies (#[trigger] radix_value(
                            before[k],
                            radix as nat,
                            0xff,
                        )) is Some by {
                            assert(done[k] == before[k]);
                        }
                    }
                }
                if ok {
                    assert(out@ =~= Seq::new(done.len(), |k: int| octet_of(done[k], radix as nat)));
                }
            }
            start = i + 1;
        } else {
            proof {
                assert(sample@.subrange(start as int, i + 1) =~= current.push(c));
            }
        }
        i += 1;
    }
    let part = sample.substring_char(start, n);
    let ghost before = done;
    let ghost current = sample@.subrange(start as int, n as int);
    let last = from_str_radix::<u8>(part, radix);
    proof {
        assert(sample@.take(n as int) =~= sample@);
        let all = before.push(current);
        assert(split(sample@, sep) == all);
        assert(all_octets(before, radix as nat) && radix_value(current, radix as nat, 0xff)
            is Some ==> all_octets(all, radix as nat)) by {
            if all_octets(before, radix as nat) && radix_value(current, radix as nat, 0xff)
                is Some {
                assert forall|k: int| 0 <= k < all.len() implies (#[trigger] radix_value(
                    all[k],
                    radix as nat,
                    0xff,
                )) is Some by {
                    if k < before.len() {
                        assert(all[k] == before[k]);
                    }
                }
            }
        }
        assert(all_octets(all, radix as nat) ==> all_octets(before, radix as nat) && radix_value(
            current,
            radix as nat,
            0xff,
        ) is Some) by {
            if all_octets(all, radix as nat) {
                assert(all[before.len() as int] == current);
                assert forall|k: int| 0 <= k < before.len() implies (#[trigger] radix_value(
                    before[k],
                    radix as nat,
                    0xff,
                )) is Some by {
                    assert(all[k] == before[k]);
                }
            }
        }
    }
    match last {
        Some(b) => {
            if ok {
                out.push(b);
                proof {
                    let all = before.push(current);
                    assert(out@ =~= Seq::new(all.len(), |k: int| octet_of(all[k], radix as nat)));
                }
                Some(out)
            } else {
                None
            }
        },
        None => None,
    }
}

/// Serializes the octets of `sample` if there are exactly `count` of them.
fn serialize_address(sample: &str, sep: char, radix: u32, count: usize) -> (r: Result<
    ArgData,
    FlowError,
>)
    requires
        2 <= radix <= 36,
        count <= crate::cmdline::arg::ARG_DATA_SIZE,
    ensures
        match r {
            Ok(a) => address(sample@, sep, radix as nat, count as nat) == Ok::<ArgModel, FlowError>(
                a@,
            ),
            Err(e) => address(sample@, sep, radix as nat, count as nat) == Err::<
                ArgModel,
                FlowError,
            >(e),
        },
{
    match parse_octets(sample, sep, radix) {
        Some(bytes) => {
            if bytes.len() == count {
                Ok(ArgData::new_from_slice(bytes.as_slice()))
            } else {
                Err(FlowError::InvalidArgument)
            }
        },
        None => Err(FlowError::InvalidArgument),
    }
}

/// The serializer of a hardware address: six octets in hexadecimal, with a
/// colon between each two.
pub struct EthAddrArg;

impl EthAddrArg {
    /// The serializer of a hardware address.
    pub fn new() -> (r: EthAddrArg)
        ensures
            r == EthAddrArg,
    {
        EthAddrArg {  }
    }
}

impl Arg for EthAddrArg {
    open spec fn encode(&self, sample: Seq<char>) -> Result<ArgModel, FlowError> {
        address(sample, ':', 16, 6)
    }

    fn serialize(&self, sample: &str) -> (r: Result<ArgData, FlowError>) {
        serialize_address(sample, ':', 16, 6)
    }
}

/// The serializer of an IPv4 address: four octets in decimal, with a dot
/// between each two.
pub struct Ipv4AddrArg;

impl Ipv4AddrArg {
    /// The serializer of an IPv4 address.
    pub fn new() -> (r: Ipv4AddrArg)
        ensures
            r == Ipv4AddrArg,
    {
        Ipv4AddrArg {  }
    }
}

impl Arg for Ipv4AddrArg {
    open spec fn encode(&self, sample: Seq<char>) -> Result<ArgModel, FlowError> {
        address(sample, '.', 10, 4)
    }

    fn serialize(&self, sample: &str) -> (r: Result<ArgData, FlowError>) {
        serialize_address(sample, '.', 10, 4)
    }
}

/// The text of an address: the octets `bytes`, each written in `radix`,
/// with `sep` between each two.
pub open spec fn address_text(bytes: Seq<u8>, sep: char, radix: nat) -> Seq<char>
    decreases bytes.len(),
{
    if bytes.len() == 0 {
        Seq::<char>::empty()
    } else if bytes.len() == 1 {
        digits_text(bytes[0] as nat, radix)
    } else {
        address_text(bytes.drop_last(), sep, radix).push(sep) + digits_text(
            bytes.last() as nat,
            radix,
        )
    }
}

/// A text always splits into one piece at least.
pub proof fn lemma_split_len(s: Seq<char>, sep: char)
    ensures
        split(s, sep).len() >= 1,
    decreases s.len(),
{
    if s.len() > 0 {
        lemma_split_len(s.drop_last(), sep);
    }
}

/// Text without a separator, put behind `s`, lengthens the last piece of `s`.
pub proof fn lemma_split_append(s: Seq<char>, t: Seq<char>, sep: char)
    requires
        forall|i: int| 0 <= i < t.len() ==> t[i] != sep,
    ensures
        split(s + t, sep) == split(s, sep).drop_last().push(split(s, sep).last() + t),
    decreases t.len(),
{
    let pieces = split(s, sep);
    lemma_split_len(s, sep);
    if t.len() == 0 {
        assert(s + t =~= s);
        assert(pieces.last() + t =~= pieces.last());
        assert(pieces.drop_last().push(pieces.last()) =~= pieces);
    } else {
        let head = t.drop_last();
        lemma_split_append(s, head, sep);
        assert((s + t).drop_last() =~= s + head);
        assert((s + t).last() == t.last());
        let before = split(s + head, sep);
        assert(before.drop_last() =~= pieces.drop_last());
        assert(before.last().push(t.last()) =~= pieces.last() + t);
    }
}

/// The text of an address splits into the texts of its octets.
pub proof fn lemma_split_address_text(bytes: Seq<u8>, sep: char, radix: nat)
    requires
        bytes.len() >= 1,
        2 <= radix <= 16,
        digit_of(sep, radix) is None,
    ensures
        split(address_text(bytes, sep, radix), sep) == Seq::new(
            bytes.len(),
            |i: int| digits_text(bytes[i] as nat, radix),
        ),
    decreases bytes.len(),
{
    let last = digits_text(bytes.last() as nat, radix);
    lemma_digits_text(bytes.last() as nat, radix);
    assert forall|i: int| 0 <= i < last.len() implies last[i] != sep by {
        assert(digit_of(last[i], radix) is Some);
    }
    let want = Seq::new(bytes.len(), |i: int| digits_text(bytes[i] as nat, radix));
    if bytes.len() == 1 {
        let none = Seq::<char>::empty();
        lemma_split_append(none, last, sep);
        assert(none + last =~= last);
        assert(split(none, sep) =~= seq![none]);
        assert(split(none, sep).drop_last().push(split(none, sep).last() + last) =~= want);
    } else {
        let front = bytes.drop_last();
        lemma_split_address_text(front, sep, radix);
        let head = address_text(front, sep, radix);
        let closed = head.push(sep);
        assert(closed.drop_last() =~= head);
        assert(split(closed, sep) == split(head, sep).push(Seq::<char>::empty()));
        lemma_split_append(closed, last, sep);
        assert(split(closed, sep).drop_last() =~= split(head, sep));
        assert(Seq::<char>::empty() + last =~= last);
        assert(split(head, sep).push(last) =~= want);
    }
}

/// An address field serializes the text of `count` octets to those octets.
pub proof fn lemma_address_roundtrip(bytes: Seq<u8>, sep: char, radix: nat, count: nat)
    requires
        bytes.len() == count,
        count >= 1,
        2 <= radix <= 16,
        digit_of(sep, radix) is None,
    ensures
        address(address_text(bytes, sep, radix), sep, radix, count) == Ok::<ArgModel, FlowError>(
            ArgModel::from_bytes(bytes),
        ),
{
    lemma_split_address_text(bytes, sep, radix);
    let parts = split(address_text(bytes, sep, radix), sep);
    assert forall|k: int| 0 <= k < parts.len() implies (#[trigger] radix_value(
        parts[k],
        radix,
        0xff,
    )) == Some(bytes[k] as nat) by {
        lemma_digits_text(bytes[k] as nat, radix);
    }
    assert(Seq::new(parts.len(), |k: int| octet_of(parts[k], radix)) =~= bytes);
}

/// A hardware address and an IPv4 address serialize the text of their
/// octets to those octets.
pub proof fn lemma_net_serialize_roundtrip(eth: EthAddrArg, ipv4: Ipv4AddrArg, mac: Seq<u8>, ip: Seq<u8>)
    requires
        mac.len() == 6,
        ip.len() == 4,
    ensures
        eth.encode(address_text(mac, ':', 16)) == Ok::<ArgModel, FlowError>(
            ArgModel::from_bytes(mac),
        ),
        ipv4.encode(address_text(ip, '.', 10)) == Ok::<ArgModel, FlowError>(
            ArgModel::from_bytes(ip),
        ),
{
    lemma_address_roundtrip(mac, ':', 16, 6);
    lemma_address_roundtrip(ip, '.', 10, 4);
}

} // verus!
