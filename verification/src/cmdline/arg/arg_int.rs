//! Integer fields: a literal in decimal, octal or hexadecimal, laid out in a
//! chosen byte order.

use vstd::prelude::*;
use std::marker::PhantomData;
use crate::cmdline::arg::{Arg, ArgData, ArgModel};
use crate::cmdline::error::FlowError;

verus! {

/// The order in which the bytes of an integer field are laid out.
#[derive(Clone, Copy, Debug, PartialEq, Eq, Structural)]
pub enum ByteOrder {
    /// The order of the machine that runs the program.
    HostOrder,
    /// Least significant byte first.
    LittleEndian,
    /// Most significant byte first, the order of the wire.
    BigEndian,
}

/// The value of the character `c` as a digit in `radix`: `0-9`, then `a-z`
/// or `A-Z` for ten and more.
pub open spec fn digit_of(c: char, radix: nat) -> Option<nat> {
    let code = c as int;
    let d = if 0x30 <= code <= 0x39 {
        code - 0x30
    } else if 0x61 <= code <= 0x7a {
        code - 0x61 + 10
    } else if 0x41 <= code <= 0x5a {
        code - 0x41 + 10
    } else {
        -1
    };
    if 0 <= d < radix {
        Some(d as nat)
    } else {
        None
    }
}

/// Every character of `s` is a digit in `radix`.
pub open spec fn all_digits(s: Seq<char>, radix: nat) -> bool {
    forall|i: int| 0 <= i < s.len() ==> (#[trigger] digit_of(s[i], radix)) is Some
}

/// The number that the digits `s` write in `radix`, most significant first.
pub open spec fn digits_value(s: Seq<char>, radix: nat) -> nat
    decreases s.len(),
{
    if s.len() == 0 {
        0
    } else {
        digits_value(s.drop_last(), radix) * radix + match digit_of(s.last(), radix) {
            Some(d) => d,
            None => 0,
        }
    }
}

/// The number that `s` writes in `radix`, where `s` is an optional `+` and
/// then one digit or more, and the number is at most `max`.
pub open spec fn radix_value(s: Seq<char>, radix: nat, max: nat) -> Option<nat> {
    let digits = if s.len() > 0 && s[0] == '+' {
        s.skip(1)
    } else {
        s
    };
    if digits.len() > 0 && all_digits(digits, radix) && digits_value(digits, radix) <= max {
        Some(digits_value(digits, radix))
    } else {
        None
    }
}

/// The number that `s` writes in `radix`, where `s` is an optional `+` or
/// `-` and then one digit or more, and the number lies between `min` and
/// `max`.
pub open spec fn signed_value(s: Seq<char>, radix: nat, min: int, max: int) -> Option<int> {
    let signed = s.len() > 0 && (s[0] == '+' || s[0] == '-');
    let digits = if signed {
        s.skip(1)
    } else {
        s
    };
    let v = if s.len() > 0 && s[0] == '-' {
        -(digits_value(digits, radix) as int)
    } else {
        digits_value(digits, radix) as int
    };
    if digits.len() > 0 && all_digits(digits, radix) && min <= v <= max {
        Some(v)
    } else {
        None
    }
}

/// The bits of the number `v` in two's complement, read as a number
/// without sign, where `limit` is the number whose bits are all ones.
pub open spec fn twos(v: int, limit: nat) -> nat {
    if v >= 0 {
        v as nat
    } else {
        (v + limit + 1) as nat
    }
}

/// The bits of the signed number that `s` writes in `radix`, if a type
/// holds it whose bits are all ones for `limit`.
pub open spec fn signed_bits(s: Seq<char>, radix: nat, limit: nat) -> Option<nat> {
    match signed_value(s, radix, -((limit + 1) / 2), limit as int / 2) {
        Some(v) => Some(twos(v, limit)),
        None => None,
    }
}

/// The number that the literal `s` writes, if it is at most `max`: in
/// hexadecimal behind `0x` or `0X`, in octal behind a leading `0` that
/// something follows, and in decimal otherwise.
pub open spec fn literal_value(s: Seq<char>, max: nat) -> Option<nat> {
    if s.len() >= 2 && s[0] == '0' && (s[1] == 'x' || s[1] == 'X') {
        radix_value(s.skip(2), 16, max)
    } else if s.len() > 1 && s[0] == '0' {
        radix_value(s.skip(1), 8, max)
    } else {
        radix_value(s, 10, max)
    }
}

/// 256 to the power `k`.
pub open spec fn pow256(k: nat) -> nat
    decreases k,
{
    if k == 0 {
        1
    } else {
        256 * pow256((k - 1) as nat)
    }
}

/// The byte of `v` with the weight `256^k`.
pub open spec fn byte_of(v: nat, k: nat) -> u8 {
    ((v / pow256(k)) % 256) as u8
}

/// The `n` low bytes of `v`, least significant first.
pub open spec fn le_bytes(v: nat, n: nat) -> Seq<u8> {
    Seq::new(n, |i: int| byte_of(v, i as nat))
}

/// The `n` low bytes of `v`, most significant first.
pub open spec fn be_bytes(v: nat, n: nat) -> Seq<u8> {
    Seq::new(n, |i: int| byte_of(v, (n - 1 - i) as nat))
}

/// The `n` low bytes of `v` in the order that `big_endian` selects.
pub open spec fn ordered_bytes(v: nat, n: nat, big_endian: bool) -> Seq<u8> {
    if big_endian {
        be_bytes(v, n)
    } else {
        le_bytes(v, n)
    }
}

/// The buffer of an integer field of `width` bytes for the literal
/// `sample`: the bytes of the number that `sample` writes, in the order
/// that `big_endian` selects. A literal that writes no number, or one
/// beyond `limit`, is an invalid argument.
pub open spec fn int_field(sample: Seq<char>, width: nat, limit: nat, big_endian: bool) -> Result<
    ArgModel,
    FlowError,
> {
    match literal_value(sample, limit) {
        Some(v) => Ok(ArgModel::from_bytes(ordered_bytes(v, width, big_endian))),
        None => Err(FlowError::InvalidArgument),
    }
}

/// Calls `num_traits::Num::from_str_radix` for `u64`, which hands the text
/// to the standard library's parser. Trusted: the text is read as an
/// optional `+` and then digits of `radix`, and any other text, an empty
/// run of digits or a number beyond `u64::MAX` gives no value. The outside
/// function panics for a radix outside `2..=36`.
#[verifier::external_body]
fn u64_from_str_radix(digits: &str, radix: u32) -> (r: Option<u64>)
    requires
        2 <= radix <= 36,
    ensures
        match r {
            Some(v) => radix_value(digits@, radix as nat, u64::MAX as nat) == Some(v as nat),
            None => radix_value(digits@, radix as nat, u64::MAX as nat) is None,
        },
{
    <u64 as num_traits::Num>::from_str_radix(digits, radix).ok()
}

/// Calls `num_traits::Num::from_str_radix` for `i64`, which hands the text
/// to the standard library's parser. Trusted: the text is read as an
/// optional `+` or `-` and then digits of `radix`, and any other text, an
/// empty run of digits or a number that `i64` does not hold gives no value.
/// The outside function panics for a radix outside `2..=36`.
#[verifier::external_body]
fn i64_from_str_radix(digits: &str, radix: u32) -> (r: Option<i64>)
    requires
        2 <= radix <= 36,
    ensures
        match r {
            Some(v) => signed_value(digits@, radix as nat, i64::MIN as int, i64::MAX as int)
                == Some(v as int),
            None => signed_value(digits@, radix as nat, i64::MIN as int, i64::MAX as int)
                is None,
        },
{
    <i64 as num_traits::Num>::from_str_radix(digits, radix).ok()
}

/// Calls `num_traits::ToBytes::to_be_bytes` for `u64`. Trusted: the result
/// is the eight bytes of `v`, most significant first.
#[verifier::external_body]
fn u64_to_be_bytes(v: u64) -> (r: [u8; 8])
    ensures
        r@ == be_bytes(v as nat, 8),
{
    num_traits::ToBytes::to_be_bytes(&v)
}

/// Calls `num_traits::ToBytes::to_le_bytes` for `u64`. Trusted: the result
/// is the eight bytes of `v`, least significant first.
#[verifier::external_body]
fn u64_to_le_bytes(v: u64) -> (r: [u8; 8])
    ensures
        r@ == le_bytes(v as nat, 8),
{
    num_traits::ToBytes::to_le_bytes(&v)
}

/// Calls `num_traits::ToBytes::to_ne_bytes` for `u64`. Trusted: the result
/// is the eight bytes of `v` in one of the two orders; which one depends on
/// the machine.
#[verifier::external_body]
fn u64_to_ne_bytes(v: u64) -> (r: [u8; 8])
    ensures
        r@ == le_bytes(v as nat, 8) || r@ == be_bytes(v as nat, 8),
{
    num_traits::ToBytes::to_ne_bytes(&v)
}

/// An integer type that an integer field can have: one to eight bytes wide,
/// with or without sign.
pub trait ArgNum: Copy + Send + Sync {
    /// The number of bytes of the type.
    spec fn width() -> nat;

    /// The number whose bits are all ones in the width of the type.
    spec fn limit() -> nat;

    /// The bits of a value of the type, read as a number without sign: the
    /// value itself, or its two's complement where it is negative.
    spec fn bits(self) -> nat;

    /// The bits of the number that `digits` write in `radix`, if the type
    /// holds it: a type without sign takes an optional `+` before the
    /// digits, and a type with sign an optional `+` or `-`.
    spec fn radix_bits(digits: Seq<char>, radix: nat) -> Option<nat>;

    /// The number of bytes of the type, between one and eight.
    fn byte_width() -> (n: usize)
        ensures
            n == Self::width(),
            1 <= n <= 8,
    ;

    /// Reads `digits` in `radix` as a number of the type.
    fn parse_radix(digits: &str, radix: u32) -> (r: Option<Self>)
        requires
            2 <= radix <= 36,
        ensures
            match r {
                Some(v) => Self::radix_bits(digits@, radix as nat) == Some(v.bits()),
                None => Self::radix_bits(digits@, radix as nat) is None,
            },
    ;

    /// The bits of `self`.
    fn widen(self) -> (v: u64)
        ensures
            v == self.bits(),
    ;
}

impl ArgNum for u8 {
    open spec fn width() -> nat {
        1
    }

    open spec fn limit() -> nat {
        0xff
    }

    open spec fn bits(self) -> nat {
        self as nat
    }

    open spec fn radix_bits(digits: Seq<char>, radix: nat) -> Option<nat> {
        radix_value(digits, radix, 0xff)
    }

    fn byte_width() -> (n: usize) {
        1
    }

    fn parse_radix(digits: &str, radix: u32) -> (r: Option<Self>) {
        match u64_from_str_radix(digits, radix) {
            Some(wide) => if wide <= 0xff {
                Some(wide as u8)
            } else {
                None
            },
            None => None,
        }
    }

    fn widen(self) -> (v: u64) {
        self as u64
    }
}

impl ArgNum for u16 {
    open spec fn width() -> nat {
        2
    }

    open spec fn limit() -> nat {
        0xffff
    }

    open spec fn bits(self) -> nat {
        self as nat
    }

    open spec fn radix_bits(digits: Seq<char>, radix: nat) -> Option<nat> {
        radix_value(digits, radix, 0xffff)
    }

    fn byte_width() -> (n: usize) {
        2
    }

    fn parse_radix(digits: &str, radix: u32) -> (r: Option<Self>) {
        match u64_from_str_radix(digits, radix) {
            Some(wide) => if wide <= 0xffff {
                Some(wide as u16)
            } else {
                None
            },
            None => None,
        }
    }

    fn widen(self) -> (v: u64) {
        self as u64
    }
}

impl ArgNum for u32 {
    open spec fn width() -> nat {
        4
    }

    open spec fn limit() -> nat {
        0xffff_ffff
    }

    open spec fn bits(self) -> nat {
        self as nat
    }

    open spec fn radix_bits(digits: Seq<char>, radix: nat) -> Option<nat> {
        radix_value(digits, radix, 0xffff_ffff)
    }

    fn byte_width() -> (n: usize) {
        4
    }

    fn parse_radix(digits: &str, radix: u32) -> (r: Option<Self>) {
        match u64_from_str_radix(digits, radix) {
            Some(wide) => if wide <= 0xffff_ffff {
                Some(wide as u32)
            } else {
                None
            },
            None => None,
        }
    }

    fn widen(self) -> (v: u64) {
        self as u64
    }
}

impl ArgNum for u64 {
    open spec fn width() -> nat {
        8
    }

    open spec fn limit() -> nat {
        0xffff_ffff_ffff_ffff
    }

    open spec fn bits(self) -> nat {
        self as nat
    }

    open spec fn radix_bits(digits: Seq<char>, radix: nat) -> Option<nat> {
        radix_value(digits, radix, 0xffff_ffff_ffff_ffff)
    }

    fn byte_width() -> (n: usize) {
        8
    }

    fn parse_radix(digits: &str, radix: u32) -> (r: Option<Self>) {
        match u64_from_str_radix(digits, radix) {
            Some(wide) => Some(wide),
            None => None,
        }
    }

    fn widen(self) -> (v: u64) {
        self as u64
    }
}

impl ArgNum for i8 {
    open spec fn width() -> nat {
        1
    }

    open spec fn limit() -> nat {
        0xff
    }

    open spec fn bits(self) -> nat {
        twos(self as int, 0xff)
    }

    open spec fn radix_bits(digits: Seq<char>, radix: nat) -> Option<nat> {
        signed_bits(digits, radix, 0xff)
    }

    fn byte_width() -> (n: usize) {
        1
    }

    fn parse_radix(digits: &str, radix: u32) -> (r: Option<Self>) {
        match i64_from_str_radix(digits, radix) {
            Some(wide) => if -0x80 <= wide && wide <= 0x7f {
                Some(wide as i8)
            } else {
                None
            },
            None => None,
        }
    }

    fn widen(self) -> (v: u64) {
        if self >= 0 {
            self as u64
        } else {
            (self as i64 + 0xff + 1) as u64
        }
    }
}

impl ArgNum for i16 {
    open spec fn width() -> nat {
        2
    }

    open spec fn limit() -> nat {
        0xffff
    }

    open spec fn bits(self) -> nat {
        twos(self as int, 0xffff)
    }

    open spec fn radix_bits(digits: Seq<char>, radix: nat) -> Option<nat> {
        signed_bits(digits, radix, 0xffff)
    }

    fn byte_width() -> (n: usize) {
        2
    }

    fn parse_radix(digits: &str, radix: u32) -> (r: Option<Self>) {
        match i64_from_str_radix(digits, radix) {
            Some(wide) => if -0x8000 <= wide && wide <= 0x7fff {
                Some(wide as i16)
            } else {
                None
            },
            None => None,
        }
    }

    fn widen(self) -> (v: u64) {
        if self >= 0 {
            self as u64
        } else {
            (self as i64 + 0xffff + 1) as u64
        }
    }
}

impl ArgNum for i32 {
    open spec fn width() -> nat {
        4
    }

    open spec fn limit() -> nat {
        0xffff_ffff
    }

    open spec fn bits(self) -> nat {
        twos(self as int, 0xffff_ffff)
    }

    open spec fn radix_bits(digits: Seq<char>, radix: nat) -> Option<nat> {
        signed_bits(digits, radix, 0xffff_ffff)
    }

    fn byte_width() -> (n: usize) {
        4
    }

    fn parse_radix(digits: &str, radix: u32) -> (r: Option<Self>) {
        match i64_from_str_radix(digits, radix) {
            Some(wide) => if -0x8000_0000 <= wide && wide <= 0x7fff_ffff {
                Some(wide as i32)
            } else {
                None
            },
            None => None,
        }
    }

    fn widen(self) -> (v: u64) {
        if self >= 0 {
            self as u64
        } else {
            (self as i64 + 0xffff_ffff + 1) as u64
        }
    }
}

impl ArgNum for i64 {
    open spec fn width() -> nat {
        8
    }

    open spec fn limit() -> nat {
        0xffff_ffff_ffff_ffff
    }

    open spec fn bits(self) -> nat {
        twos(self as int, 0xffff_ffff_ffff_ffff)
    }

    open spec fn radix_bits(digits: Seq<char>, radix: nat) -> Option<nat> {
        signed_bits(digits, radix, 0xffff_ffff_ffff_ffff)
    }

    fn byte_width() -> (n: usize) {
        8
    }

    fn parse_radix(digits: &str, radix: u32) -> (r: Option<Self>) {
        match i64_from_str_radix(digits, radix) {
            Some(wide) => Some(wide),
            None => None,
        }
    }

    fn widen(self) -> (v: u64) {
        if self >= 0 {
            self as u64
        } else {
            u64::MAX - ((-(self + 1)) as u64)
        }
    }
}

/// Reads `digits` in `radix` as a number of the type `A`.
pub(crate) fn from_str_radix<A: ArgNum>(digits: &str, radix: u32) -> (r: Option<A>)
    requires
        2 <= radix <= 36,
    ensures
        match r {
            Some(v) => A::radix_bits(digits@, radix as nat) == Some(v.bits()),
            None => A::radix_bits(digits@, radix as nat) is None,
        },
{
    A::parse_radix(digits, radix)
}

/// The bits of the number that the literal `s` writes, if the type `A`
/// holds it: in hexadecimal behind `0x` or `0X`, in octal behind a leading
/// `0` that something follows, and in decimal otherwise.
pub open spec fn literal_bits<A: ArgNum>(s: Seq<char>) -> Option<nat> {
    if s.len() >= 2 && s[0] == '0' && (s[1] == 'x' || s[1] == 'X') {
        A::radix_bits(s.skip(2), 16)
    } else if s.len() > 1 && s[0] == '0' {
        A::radix_bits(s.skip(1), 8)
    } else {
        A::radix_bits(s, 10)
    }
}

/// The type `A` reads its literals as numbers without sign.
pub open spec fn reads_unsigned<A: ArgNum>() -> bool {
    forall|digits: Seq<char>, radix: nat| #[trigger]
        A::radix_bits(digits, radix) == radix_value(digits, radix, A::limit())
}

/// The type `A` reads its literals as numbers with sign.
pub open spec fn reads_signed<A: ArgNum>() -> bool {
    forall|digits: Seq<char>, radix: nat| #[trigger]
        A::radix_bits(digits, radix) == signed_bits(digits, radix, A::limit())
}

/// Whether the machine lays integers out most significant byte first.
fn host_is_big_endian() -> bool {
    let probe = u64_to_ne_bytes(1);
    probe_is_big_endian(&probe)
}

/// Whether `probe` starts with a zero byte. Of the eight bytes of the
/// number one this tells the order: most significant first they start with
/// zero, and least significant first with one.
pub fn probe_is_big_endian(probe: &[u8; 8]) -> (r: bool)
    ensures
        r == (probe@[0] == 0u8),
        probe@ == be_bytes(1, 8) ==> r,
        probe@ == le_bytes(1, 8) ==> !r,
{
    proof {
        lemma_bytes_of_one();
    }
    probe[0] == 0
}

/// The number one has the byte one at the weight one, and the byte zero at
/// the greatest weight of eight bytes.
pub proof fn lemma_bytes_of_one()
    ensures
        le_bytes(1, 8)[0] == 1u8,
        be_bytes(1, 8)[0] == 0u8,
{
    reveal_with_fuel(pow256, 8);
    assert(pow256(0) == 1);
    assert(pow256(7) == 0x100_0000_0000_0000);
    assert(byte_of(1, 0) == 1u8);
    assert(byte_of(1, 7) == 0u8);
}

/// The serializer of an integer field of the type `A`.
pub struct ArgInt<A: ArgNum> {
    bytes_order: ByteOrder,
    big_endian: bool,
    __x: PhantomData<A>,
}

impl<A: ArgNum> ArgInt<A> {
    #[verifier::type_invariant]
    spec fn order_is_resolved(self) -> bool {
        self.wf()
    }

    /// An explicit byte order is the one in which the field is laid out.
    pub closed spec fn wf(&self) -> bool {
        &&& self.bytes_order == ByteOrder::LittleEndian ==> !self.big_endian
        &&& self.bytes_order == ByteOrder::BigEndian ==> self.big_endian
    }

    /// The bytes of `v` as the field lays them out.
    pub open spec fn layout(&self, v: nat) -> Seq<u8> {
        ordered_bytes(v, A::width(), self.big_endian())
    }

    /// The byte order that the field was declared with.
    pub closed spec fn order(&self) -> ByteOrder {
        self.bytes_order
    }

    /// Whether the field is laid out most significant byte first. For a
    /// field in host order this was found out when the serializer was made.
    pub closed spec fn big_endian(&self) -> bool {
        self.big_endian
    }

    /// A field in host order.
    pub fn new() -> (r: Self)
        ensures
            r.wf(),
            r.order() == ByteOrder::HostOrder,
    {
        ArgInt { bytes_order: ByteOrder::HostOrder, big_endian: host_is_big_endian(), __x: PhantomData }
    }

    /// A field in the order `order`.
    pub fn new_with_order(order: ByteOrder) -> (r: Self)
        ensures
            r.wf(),
            r.order() == order,
            order == ByteOrder::LittleEndian ==> !r.big_endian(),
            order == ByteOrder::BigEndian ==> r.big_endian(),
    {
        let big_endian = match order {
            ByteOrder::HostOrder => host_is_big_endian(),
            ByteOrder::LittleEndian => false,
            ByteOrder::BigEndian => true,
        };
        ArgInt { bytes_order: order, big_endian, __x: PhantomData }
    }

    /// The declared byte order.
    pub fn bytes_order(&self) -> (o: ByteOrder)
        ensures
            self.wf(),
            o == self.order(),
    {
        proof {
            use_type_invariant(self);
        }
        self.bytes_order
    }

    /// Reads the literal `src` as a number of the type `A`.
    pub fn strton(&self, src: &str) -> (r: Result<A, FlowError>)
        ensures
            match r {
                Ok(v) => literal_bits::<A>(src@) == Some(v.bits()),
                Err(e) => e == FlowError::InvalidArgument && literal_bits::<A>(src@) is None,
            },
    {
        let n = src.unicode_len();
        let parsed = if n >= 2 && src.get_char(0) == '0' && (src.get_char(1) == 'x' || src.get_char(
            1,
        ) == 'X') {
            from_str_radix::<A>(src.substring_char(2, n), 16)
        } else if n > 1 && src.get_char(0) == '0' {
            from_str_radix::<A>(src.substring_char(1, n), 8)
        } else {
            proof {
                assert(src@.subrange(0, n as int) =~= src@);
            }
            from_str_radix::<A>(src.substring_char(0, n), 10)
        };
        match parsed {
            Some(v) => Ok(v),
            None => Err(FlowError::InvalidArgument),
        }
    }
}

impl<A: ArgNum> Arg for ArgInt<A> {
    open spec fn encode(&self, sample: Seq<char>) -> Result<ArgModel, FlowError> {
        match literal_bits::<A>(sample) {
            Some(bits) => Ok(ArgModel::from_bytes(self.layout(bits))),
            None => Err(FlowError::InvalidArgument),
        }
    }

    fn serialize(&self, sample: &str) -> (r: Result<ArgData, FlowError>) {
        let v = self.strton(sample)?;
        let wide = v.widen();
        let n = A::byte_width();
        if self.big_endian {
            let all = u64_to_be_bytes(wide);
            let low = vstd::slice::slice_subrange(all.as_slice(), 8 - n, 8);
            assert(low@ =~= be_bytes(wide as nat, n as nat));
            Ok(ArgData::new_from_slice(low))
        } else {
            let all = u64_to_le_bytes(wide);
            let low = vstd::slice::slice_subrange(all.as_slice(), 0, n);
            assert(low@ =~= le_bytes(wide as nat, n as nat));
            Ok(ArgData::new_from_slice(low))
        }
    }
}

/// A field of one byte is laid out the same in both orders.
pub proof fn lemma_one_byte_order()
    ensures
        forall|v: nat| #[trigger] ordered_bytes(v, 1, false) == ordered_bytes(v, 1, true),
{
    assert forall|v: nat| #[trigger] ordered_bytes(v, 1, false) == ordered_bytes(v, 1, true) by {
        assert(le_bytes(v, 1) =~= be_bytes(v, 1));
    }
}

/// The character that writes the digit `d`: `0-9`, then `a-z`.
pub open spec fn digit_char(d: nat) -> char {
    if d < 10 {
        (0x30 + d) as char
    } else {
        (0x61 + d - 10) as char
    }
}

/// The digits that write `v` in `radix`, most significant first and without
/// leading zeros.
pub open spec fn digits_text(v: nat, radix: nat) -> Seq<char>
    decreases v,
{
    if radix < 2 || v < radix {
        seq![digit_char(v)]
    } else {
        proof {
            assert(v / radix < v) by (nonlinear_arith)
                requires
                    v >= radix,
                    radix >= 2,
            ;
        }
        digits_text(v / radix, radix).push(digit_char(v % radix))
    }
}

/// The decimal literal of `v`.
pub open spec fn decimal_text(v: nat) -> Seq<char> {
    digits_text(v, 10)
}

/// The hexadecimal literal of `v`.
pub open spec fn hex_text(v: nat) -> Seq<char> {
    seq!['0', 'x'] + digits_text(v, 16)
}

/// The octal literal of `v`.
pub open spec fn octal_text(v: nat) -> Seq<char> {
    seq!['0'] + digits_text(v, 8)
}

/// A digit's character reads as that digit.
pub proof fn lemma_digit_char(d: nat, radix: nat)
    requires
        d < radix <= 16,
    ensures
        digit_of(digit_char(d), radix) == Some(d),
        digit_char(d) != '+',
        digit_char(d) != 'x',
        digit_char(d) != 'X',
        (digit_char(d) == '0') == (d == 0),
{
}

/// The digits written for `v` read as `v`, start with no zero unless `v` is
/// zero, and with no sign.
pub proof fn lemma_digits_text(v: nat, radix: nat)
    requires
        2 <= radix <= 16,
    ensures
        digits_text(v, radix).len() > 0,
        all_digits(digits_text(v, radix), radix),
        digits_value(digits_text(v, radix), radix) == v,
        digit_of(digits_text(v, radix)[0], radix) is Some,
        digits_text(v, radix)[0] != '+',
        digits_text(v, radix)[0] != 'x',
        digits_text(v, radix)[0] != 'X',
        v > 0 ==> digits_text(v, radix)[0] != '0',
        v == 0 ==> digits_text(v, radix) == seq!['0'],
    decreases v,
{
    let text = digits_text(v, radix);
    if v < radix {
        lemma_digit_char(v, radix);
        assert(text.len() == 1 && text.last() == digit_char(v));
        assert(text.drop_last() =~= Seq::<char>::empty());
        assert(digits_value(text.drop_last(), radix) == 0);
        assert(digits_value(text, radix) == 0 * radix + v);
    } else {
        let high = v / radix;
        let low = v % radix;
        assert(high < v && high > 0 && v == radix * high + low) by (nonlinear_arith)
            requires
                v >= radix,
                radix >= 2,
                high == v / radix,
                low == v % radix,
        ;
        lemma_digits_text(high, radix);
        lemma_digit_char(low, radix);
        let head = digits_text(high, radix);
        assert(text == head.push(digit_char(low)));
        assert(text.drop_last() =~= head);
        assert(text.last() == digit_char(low));
        assert(text[0] == head[0]);
        assert(digits_value(text, radix) == digits_value(head, radix) * radix + low);
        assert(high * radix + low == v) by (nonlinear_arith)
            requires
                v == radix * high + low,
        ;
    }
}

/// The three literals of a number read as that number: what is written is
/// what is read.
pub proof fn lemma_literal_roundtrip(v: nat, max: nat)
    requires
        v <= max,
    ensures
        literal_value(decimal_text(v), max) == Some(v),
        literal_value(hex_text(v), max) == Some(v),
        literal_value(octal_text(v), max) == Some(v),
{
    lemma_digits_text(v, 10);
    lemma_digits_text(v, 16);
    lemma_digits_text(v, 8);
    let dec = decimal_text(v);
    assert(!(dec.len() > 1 && dec[0] == '0'));
    let hex = hex_text(v);
    assert(hex.skip(2) =~= digits_text(v, 16));
    assert(hex[0] == '0' && hex[1] == 'x');
    let oct = octal_text(v);
    assert(oct.skip(1) =~= digits_text(v, 8));
    assert(oct[0] == '0' && oct[1] == digits_text(v, 8)[0]);
}

/// The decimal literal of `v` with its sign.
pub open spec fn signed_text(v: int) -> Seq<char> {
    if v < 0 {
        seq!['-'] + digits_text((-v) as nat, 10)
    } else {
        digits_text(v as nat, 10)
    }
}

/// The integer types of one, two, four and eight bytes read their literals
/// without sign where they have none, and with sign where they have one.
pub proof fn lemma_supported_types()
    ensures
        reads_unsigned::<u8>(),
        reads_unsigned::<u16>(),
        reads_unsigned::<u32>(),
        reads_unsigned::<u64>(),
        reads_signed::<i8>(),
        reads_signed::<i16>(),
        reads_signed::<i32>(),
        reads_signed::<i64>(),
{
}

/// A field of a type without sign reads its literals as `int_field` says.
pub proof fn lemma_unsigned_field<A: ArgNum>(arg: ArgInt<A>, sample: Seq<char>)
    requires
        reads_unsigned::<A>(),
    ensures
        literal_bits::<A>(sample) == literal_value(sample, A::limit()),
        arg.encode(sample) == int_field(sample, A::width(), A::limit(), arg.big_endian()),
{
}

/// An integer field without sign serializes each literal of a number that
/// its type holds to the bytes of that number in the field's byte order:
/// least significant first for a little-endian field, most significant
/// first for a big-endian one, and one of the two for a field in host order.
pub proof fn lemma_int_serialize_roundtrip<A: ArgNum>(arg: ArgInt<A>, v: nat)
    requires
        reads_unsigned::<A>(),
        arg.wf(),
        v <= A::limit(),
    ensures
        arg.encode(decimal_text(v)) == Ok::<ArgModel, FlowError>(
            ArgModel::from_bytes(arg.layout(v)),
        ),
        arg.encode(hex_text(v)) == Ok::<ArgModel, FlowError>(ArgModel::from_bytes(arg.layout(v))),
        arg.encode(octal_text(v)) == Ok::<ArgModel, FlowError>(
            ArgModel::from_bytes(arg.layout(v)),
        ),
        arg.order() == ByteOrder::LittleEndian ==> arg.layout(v) == le_bytes(v, A::width()),
        arg.order() == ByteOrder::BigEndian ==> arg.layout(v) == be_bytes(v, A::width()),
        arg.layout(v) == le_bytes(v, A::width()) || arg.layout(v) == be_bytes(v, A::width()),
{
    lemma_literal_roundtrip(v, A::limit());
    lemma_unsigned_field(arg, decimal_text(v));
    lemma_unsigned_field(arg, hex_text(v));
    lemma_unsigned_field(arg, octal_text(v));
}

/// An integer field with sign serializes the decimal literal of a number
/// that its type holds, and the hexadecimal and the octal literal of one
/// that is not negative, to the bytes of that number's two's complement in
/// the field's byte order.
pub proof fn lemma_signed_serialize_roundtrip<A: ArgNum>(arg: ArgInt<A>, v: int)
    requires
        reads_signed::<A>(),
        arg.wf(),
        -((A::limit() + 1) / 2) <= v <= A::limit() as int / 2,
    ensures
        arg.encode(signed_text(v)) == Ok::<ArgModel, FlowError>(
            ArgModel::from_bytes(arg.layout(twos(v, A::limit()))),
        ),
        v >= 0 ==> arg.encode(hex_text(v as nat)) == Ok::<ArgModel, FlowError>(
            ArgModel::from_bytes(arg.layout(v as nat)),
        ),
        v >= 0 ==> arg.encode(octal_text(v as nat)) == Ok::<ArgModel, FlowError>(
            ArgModel::from_bytes(arg.layout(v as nat)),
        ),
        arg.order() == ByteOrder::LittleEndian ==> arg.layout(twos(v, A::limit())) == le_bytes(
            twos(v, A::limit()),
            A::width(),
        ),
        arg.order() == ByteOrder::BigEndian ==> arg.layout(twos(v, A::limit())) == be_bytes(
            twos(v, A::limit()),
            A::width(),
        ),
{
    let min = -((A::limit() + 1) / 2);
    let max = A::limit() as int / 2;
    let text = signed_text(v);
    if v < 0 {
        let digits = digits_text((-v) as nat, 10);
        lemma_digits_text((-v) as nat, 10);
        assert(text.skip(1) =~= digits);
        assert(text[0] == '-');
        assert(signed_value(text, 10, min, max) == Some(v));
    } else {
        lemma_digits_text(v as nat, 10);
        assert(!(text.len() > 1 && text[0] == '0'));
        assert(signed_value(text, 10, min, max) == Some(v));
        let hex = hex_text(v as nat);
        lemma_digits_text(v as nat, 16);
        assert(hex.skip(2) =~= digits_text(v as nat, 16));
        assert(hex[0] == '0' && hex[1] == 'x');
        assert(signed_value(hex.skip(2), 16, min, max) == Some(v));
        let oct = octal_text(v as nat);
        lemma_digits_text(v as nat, 8);
        assert(oct.skip(1) =~= digits_text(v as nat, 8));
        assert(oct[0] == '0' && oct[1] == digits_text(v as nat, 8)[0]);
        assert(signed_value(oct.skip(1), 8, min, max) == Some(v));
    }
}

} // verus!
