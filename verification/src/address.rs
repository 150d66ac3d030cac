//! Internet addresses and their text.

use crate::numeral;
use crate::text;
use vstd::prelude::*;

verus! {

/// An IPv4 address: four octets.
#[derive(Clone, Copy, Debug, PartialEq, Eq, Structural)]
pub struct Ipv4Addr {
    pub a: u8,
    pub b: u8,
    pub c: u8,
    pub d: u8,
}

/// An IPv6 address: eight segments of sixteen bits.
#[derive(Clone, Copy, Debug, PartialEq, Eq)]
pub struct Ipv6Addr {
    pub segments: [u16; 8],
}

/// An address of either family.
#[derive(Clone, Copy, Debug, PartialEq, Eq)]
pub enum IpAddr {
    V4(Ipv4Addr),
    V6(Ipv6Addr),
}

/// An IPv4 address and a port.
#[derive(Clone, Copy, Debug, PartialEq, Eq, Structural)]
pub struct SocketAddrV4 {
    pub ip: Ipv4Addr,
    pub port: u16,
}

/// An IPv6 address, a port, and the flow label and scope that go with it.
#[derive(Clone, Copy, Debug, PartialEq, Eq)]
pub struct SocketAddrV6 {
    pub ip: Ipv6Addr,
    pub port: u16,
    pub flowinfo: u32,
    pub scope_id: u32,
}

/// An address and a port of either family.
#[derive(Clone, Copy, Debug, PartialEq, Eq)]
pub enum SocketAddr {
    V4(SocketAddrV4),
    V6(SocketAddrV6),
}

/// A text that is no address.
#[derive(Clone, Copy, Debug, PartialEq, Eq, Structural)]
pub struct AddrParseError;

impl AddrParseError {
    /// What is wrong, in words.
    pub fn message(&self) -> (message: String)
        ensures
            message@ == "invalid IP address syntax"@,
    {
        "invalid IP address syntax".to_owned()
    }
}

/// The decimal numerals of the octets, with dots between them.
pub open spec fn ipv4_text(ip: Ipv4Addr) -> Seq<char> {
    text::joined(
        seq![
            numeral::decimal(ip.a as int),
            numeral::decimal(ip.b as int),
            numeral::decimal(ip.c as int),
            numeral::decimal(ip.d as int),
        ],
        seq!['.'],
    )
}

/// What a field of an IPv4 address stands for: one to three decimal digits without a
/// leading zero, for a number of at most 255.
pub open spec fn octet_read(field: Seq<char>) -> Option<u8> {
    if 1 <= field.len() <= 3 && numeral::all_digits(field, 10) && (field.len() == 1 || field[0]
        != '0') && numeral::digits_value(field, 10) <= 255 {
        Some(numeral::digits_value(field, 10) as u8)
    } else {
        None
    }
}

/// What a text is as an IPv4 address: four octets with dots between them.
pub open spec fn ipv4_read(s: Seq<char>) -> Option<Ipv4Addr> {
    let fields = text::split(s, '.');
    if fields.len() == 4 && octet_read(fields[0]) is Some && octet_read(fields[1]) is Some
        && octet_read(fields[2]) is Some && octet_read(fields[3]) is Some {
        Some(
            Ipv4Addr {
                a: octet_read(fields[0]).unwrap(),
                b: octet_read(fields[1]).unwrap(),
                c: octet_read(fields[2]).unwrap(),
                d: octet_read(fields[3]).unwrap(),
            },
        )
    } else {
        None
    }
}

impl Ipv4Addr {
    /// The address with these octets.
    pub fn new(a: u8, b: u8, c: u8, d: u8) -> (ip: Ipv4Addr)
        ensures
            ip == (Ipv4Addr { a, b, c, d }),
    {
        Ipv4Addr { a, b, c, d }
    }

    /// The address in dot-decimal notation.
    pub fn to_text(&self) -> (text: String)
        ensures
            text@ == ipv4_text(*self),
    {
        let mut text = numeral::decimal_text(self.a as u64);
        text.push('.');
        text.append(numeral::decimal_text(self.b as u64).as_str());
        text.push('.');
        text.append(numeral::decimal_text(self.c as u64).as_str());
        text.push('.');
        text.append(numeral::decimal_text(self.d as u64).as_str());
        proof {
            let parts = seq![
                numeral::decimal(self.a as int),
                numeral::decimal(self.b as int),
                numeral::decimal(self.c as int),
                numeral::decimal(self.d as int),
            ];
            lemma_joined_four(parts);
        }
        text
    }
}

/// Four parts, joined by dots, written out.
proof fn lemma_joined_four(parts: Seq<Seq<char>>)
    requires
        parts.len() == 4,
    ensures
        text::joined(parts, seq!['.']) == parts[0].push('.') + parts[1].push('.') + parts[2].push(
            '.',
        ) + parts[3],
{
    let three = parts.drop_last();
    let two = three.drop_last();
    let one = two.drop_last();
    assert(text::joined(one, seq!['.']) == parts[0]);
    assert(text::joined(two, seq!['.']) == parts[0] + seq!['.'] + parts[1]);
    assert(text::joined(three, seq!['.']) == parts[0] + seq!['.'] + parts[1] + seq!['.']
        + parts[2]);
    assert(text::joined(parts, seq!['.']) == parts[0] + seq!['.'] + parts[1] + seq!['.']
        + parts[2] + seq!['.'] + parts[3]);
}

/// The text of an IPv4 address, written out.
pub proof fn lemma_ipv4_text_written_out(ip: Ipv4Addr)
    ensures
        ipv4_text(ip) == numeral::decimal(ip.a as int).push('.') + numeral::decimal(
            ip.b as int,
        ).push('.') + numeral::decimal(ip.c as int).push('.') + numeral::decimal(ip.d as int),
{
    lemma_joined_four(
        seq![
            numeral::decimal(ip.a as int),
            numeral::decimal(ip.b as int),
            numeral::decimal(ip.c as int),
            numeral::decimal(ip.d as int),
        ],
    );
}

/// The number that digits stand for, of at most four digits.
fn short_number(field: &[char], radix: u64) -> (value: Option<u64>)
    requires
        2 <= radix <= 16,
        field@.len() <= 4,
    ensures
        value is Some <==> numeral::all_digits(field@, radix as int),
        value is Some ==> value.unwrap() == numeral::digits_value(field@, radix as int),
        value is Some ==> value.unwrap() <= 0xffff,
{
    let mut value: u64 = 0;
    let mut i: usize = 0;
    while i < field.len()
        invariant
            2 <= radix <= 16,
            i <= field@.len() <= 4,
            numeral::all_digits(field@.take(i as int), radix as int),
            value == numeral::digits_value(field@.take(i as int), radix as int),
            i == 0 ==> value == 0,
            i == 1 ==> value < 16,
            i == 2 ==> value < 256,
            i == 3 ==> value < 4096,
            i == 4 ==> value < 65536,
        decreases field@.len() - i,
    {
        proof {
            assert(field@.take(i + 1).drop_last() == field@.take(i as int));
            assert(field@.take(i + 1).last() == field@[i as int]);
        }
        match numeral::digit_number(field[i], radix) {
            None => {
                assert(numeral::digit_value(field@[i as int], radix as int) is None);
                return None;
            },
            Some(d) => {
                proof {
                    assert(value * radix <= value * 16) by (nonlinear_arith)
                        requires
                            radix <= 16,
                            value >= 0,
                    ;
                    assert forall|j: int|
                        0 <= j < i + 1 implies numeral::digit_value(
                        #[trigger] field@.take(i + 1)[j],
                        radix as int,
                    ) is Some by {
                        if j < i {
                            assert(field@.take(i + 1)[j] == field@.take(i as int)[j]);
                        }
                    }
                }
                value = value * radix + d;
            },
        }
        i = i + 1;
    }
    assert(field@.take(field@.len() as int) == field@);
    Some(value)
}

/// The octet that a field stands for.
fn read_octet(field: &[char]) -> (octet: Option<u8>)
    ensures
        octet == octet_read(field@),
{
    if field.len() < 1 || field.len() > 3 {
        return None;
    }
    if field.len() > 1 && field[0] == '0' {
        return None;
    }
    match short_number(field, 10) {
        None => None,
        Some(value) => if value <= 255 {
            Some(value as u8)
        } else {
            None
        },
    }
}

/// The IPv4 address that the characters stand for.
fn read_ipv4(chars: &[char]) -> (ip: Option<Ipv4Addr>)
    ensures
        ip == ipv4_read(chars@),
{
    let fields = text::split_fields(chars, '.');
    assert(text::contents(fields@).len() == fields@.len());
    if fields.len() != 4 {
        return None;
    }
    proof {
        let split = text::split(chars@, '.');
        assert(fields@[0]@ == split[0] && fields@[1]@ == split[1] && fields@[2]@ == split[2]
            && fields@[3]@ == split[3]);
    }
    match (
        read_octet(fields[0].as_slice()),
        read_octet(fields[1].as_slice()),
        read_octet(fields[2].as_slice()),
        read_octet(fields[3].as_slice()),
    ) {
        (Some(a), Some(b), Some(c), Some(d)) => Some(Ipv4Addr { a, b, c, d }),
        _ => None,
    }
}

/// The numeral of an octet is what stands for it.
proof fn lemma_octet(octet: u8)
    ensures
        octet_read(numeral::decimal(octet as int)) == Some(octet),
        text::lacks(numeral::decimal(octet as int), '.'),
        text::lacks(numeral::decimal(octet as int), ':'),
{
    let n = octet as int;
    numeral::lemma_numeral(n, 10);
    let s = numeral::decimal(n);
    assert(s.len() <= 3) by {
        reveal_with_fuel(numeral::numeral, 4);
    }
    assert forall|i: int| 0 <= i < s.len() implies #[trigger] s[i] != '.' && s[i] != ':' by {
        assert(numeral::is_digit_char(s[i]));
    }
}

/// Reading the text of an IPv4 address gives the address back.
pub proof fn ipv4_text_reads_back(ip: Ipv4Addr)
    ensures
        ipv4_read(ipv4_text(ip)) == Some(ip),
{
    let parts = seq![
        numeral::decimal(ip.a as int),
        numeral::decimal(ip.b as int),
        numeral::decimal(ip.c as int),
        numeral::decimal(ip.d as int),
    ];
    lemma_octet(ip.a);
    lemma_octet(ip.b);
    lemma_octet(ip.c);
    lemma_octet(ip.d);
    text::split_undoes_joined(parts, '.');
}

/// The hexadecimal numerals of segments.
pub open spec fn segment_numerals(segments: Seq<u16>) -> Seq<Seq<char>> {
    segments.map_values(|segment: u16| numeral::numeral(segment as int, 16))
}

/// The hexadecimal numerals of segments, with colons between them.
pub open spec fn segments_text(segments: Seq<u16>) -> Seq<char> {
    text::joined(segment_numerals(segments), seq![':'])
}

/// How many segments in a row, from `start` on, are zero.
pub open spec fn zeros_from(segments: Seq<u16>, start: int) -> int
    decreases segments.len() - start,
{
    if start < 0 || start >= segments.len() || segments[start] != 0 {
        0
    } else {
        1 + zeros_from(segments, start + 1)
    }
}

/// Where the longest row of zeros begins, among the rows that begin before `end`; the
/// first of them where several are as long.
pub open spec fn longest_zeros(segments: Seq<u16>, end: int) -> int
    decreases end,
{
    if end <= 1 {
        0
    } else {
        let before = longest_zeros(segments, end - 1);
        if zeros_from(segments, end - 1) > zeros_from(segments, before) {
            end - 1
        } else {
            before
        }
    }
}

/// Whether the segments are an IPv4 address mapped into IPv6.
pub open spec fn is_ipv4_mapped(segments: Seq<u16>) -> bool {
    &&& segments.len() == 8
    &&& segments.take(6) == seq![0u16, 0u16, 0u16, 0u16, 0u16, 0xffffu16]
}

/// The IPv4 address in two segments.
pub open spec fn ipv4_of_segments(high: u16, low: u16) -> Ipv4Addr {
    Ipv4Addr {
        a: (high / 256) as u8,
        b: (high % 256) as u8,
        c: (low / 256) as u8,
        d: (low % 256) as u8,
    }
}

/// The two segments of an IPv4 address.
pub open spec fn segments_of_ipv4(ip: Ipv4Addr) -> Seq<u16> {
    seq![(ip.a * 256 + ip.b) as u16, (ip.c * 256 + ip.d) as u16]
}

/// The text of an IPv6 address: a mapped IPv4 address in dot-decimal notation, any other
/// in hexadecimal with the first of its longest rows of zeros, where that has at least
/// two, written as `::`.
pub open spec fn ipv6_text(segments: Seq<u16>) -> Seq<char> {
    let start = longest_zeros(segments, segments.len() as int);
    let zeros = zeros_from(segments, start);
    if is_ipv4_mapped(segments) {
        seq![':', ':', 'f', 'f', 'f', 'f', ':'] + ipv4_text(
            ipv4_of_segments(segments[6], segments[7]),
        )
    } else if zeros > 1 {
        segments_text(segments.take(start)) + seq![':', ':'] + segments_text(
            segments.skip(start + zeros),
        )
    } else {
        segments_text(segments)
    }
}

/// What a field of an IPv6 address stands for: one to four hexadecimal digits.
pub open spec fn segment_read(field: Seq<char>) -> Option<u16> {
    if 1 <= field.len() <= 4 && numeral::all_digits(field, 16) {
        Some(numeral::digits_value(field, 16) as u16)
    } else {
        None
    }
}

/// The segments that the fields stand for, one each.
pub open spec fn plain_segments_read(fields: Seq<Seq<char>>) -> Option<Seq<u16>>
    decreases fields.len(),
{
    if fields.len() == 0 {
        Some(Seq::empty())
    } else {
        match (plain_segments_read(fields.drop_last()), segment_read(fields.last())) {
            (Some(segments), Some(segment)) => Some(segments.push(segment)),
            _ => None,
        }
    }
}

/// The segments that the fields stand for; the last field may be an IPv4 address, which
/// stands for two.
pub open spec fn final_segments_read(fields: Seq<Seq<char>>) -> Option<Seq<u16>> {
    if plain_segments_read(fields) is Some {
        plain_segments_read(fields)
    } else if fields.len() == 0 {
        None
    } else {
        match (plain_segments_read(fields.drop_last()), ipv4_read(fields.last())) {
            (Some(segments), Some(ip)) => Some(segments + segments_of_ipv4(ip)),
            _ => None,
        }
    }
}

/// The fields between the colons of a text; none in an empty text.
pub open spec fn colon_fields(s: Seq<char>) -> Seq<Seq<char>> {
    if s.len() == 0 {
        Seq::empty()
    } else {
        text::split(s, ':')
    }
}

/// Whether two colons stand at `i`.
pub open spec fn is_gap(s: Seq<char>, i: int) -> bool {
    0 <= i && i + 1 < s.len() && s[i] == ':' && s[i + 1] == ':'
}

/// The first place from `start` on where two colons stand.
pub open spec fn first_gap(s: Seq<char>, start: int) -> Option<int>
    decreases s.len() - start,
{
    if start + 1 >= s.len() {
        None
    } else if is_gap(s, start) {
        Some(start)
    } else {
        first_gap(s, start + 1)
    }
}

/// What a text is as an IPv6 address: eight segments with colons between them, or fewer
/// with `::` once in place of at least one zero segment. The last two segments may be
/// written as an IPv4 address.
pub open spec fn ipv6_read(s: Seq<char>) -> Option<Seq<u16>> {
    match first_gap(s, 0) {
        None => match final_segments_read(colon_fields(s)) {
            Some(segments) => if segments.len() == 8 {
                Some(segments)
            } else {
                None
            },
            None => None,
        },
        Some(gap) => match (
            plain_segments_read(colon_fields(s.take(gap))),
            final_segments_read(colon_fields(s.skip(gap + 2))),
        ) {
            (Some(head), Some(tail)) => if head.len() + tail.len() <= 7 {
                Some(head + Seq::new((8 - head.len() - tail.len()) as nat, |i: int| 0u16) + tail)
            } else {
                None
            },
            _ => None,
        },
    }
}

/// What a text is as an address of either family.
pub open spec fn ip_read(s: Seq<char>) -> Option<IpAddrView> {
    match ipv4_read(s) {
        Some(ip) => Some(IpAddrView::V4(ip)),
        None => match ipv6_read(s) {
            Some(segments) => Some(IpAddrView::V6(segments)),
            None => None,
        },
    }
}

/// An address, the segments of an IPv6 one seen as a sequence.
pub enum IpAddrView {
    V4(Ipv4Addr),
    V6(Seq<u16>),
}

impl View for IpAddr {
    type V = IpAddrView;

    open spec fn view(&self) -> IpAddrView {
        match *self {
            IpAddr::V4(ip) => IpAddrView::V4(ip),
            IpAddr::V6(ip) => IpAddrView::V6(ip.segments@),
        }
    }
}

/// The text of an address of either family.
pub open spec fn ip_text(ip: IpAddrView) -> Seq<char> {
    match ip {
        IpAddrView::V4(ip) => ipv4_text(ip),
        IpAddrView::V6(segments) => ipv6_text(segments),
    }
}

/// The segment that a field stands for.
fn read_segment(field: &[char]) -> (segment: Option<u16>)
    ensures
        segment == segment_read(field@),
{
    if field.len() < 1 || field.len() > 4 {
        return None;
    }
    match short_number(field, 16) {
        None => None,
        Some(value) => Some(value as u16),
    }
}

/// A sequence of segments as a result sees it.
pub open spec fn segments_view(segments: Option<Vec<u16>>) -> Option<Seq<u16>> {
    match segments {
        Some(segments) => Some(segments@),
        None => None,
    }
}

/// The fields between the colons.
fn split_colons(chars: &[char]) -> (fields: Vec<Vec<char>>)
    ensures
        text::contents(fields@) == colon_fields(chars@),
{
    if chars.len() == 0 {
        let fields: Vec<Vec<char>> = Vec::new();
        assert(text::contents(fields@) == Seq::<Seq<char>>::empty());
        fields
    } else {
        text::split_fields(chars, ':')
    }
}

/// The segments that the first `end` fields stand for.
fn read_plain_segments(fields: &[Vec<char>], end: usize) -> (segments: Option<Vec<u16>>)
    requires
        end <= fields@.len(),
    ensures
        segments_view(segments) == plain_segments_read(text::contents(fields@).take(end as int)),
{
    let ghost all = text::contents(fields@);
    let mut segments: Vec<u16> = Vec::new();
    let mut i: usize = 0;
    assert(all.take(0) == Seq::<Seq<char>>::empty());
    while i < end
        invariant
            i <= end <= fields@.len(),
            all == text::contents(fields@),
            plain_segments_read(all.take(i as int)) == Some(segments@),
        decreases end - i,
    {
        proof {
            assert(all.take(i + 1).drop_last() == all.take(i as int));
            assert(all.take(i + 1).last() == fields@[i as int]@);
        }
        match read_segment(fields[i].as_slice()) {
            None => {
                proof {
                    lemma_plain_prefix(all.take(end as int), i + 1);
                    assert(all.take(end as int).take(i + 1) == all.take(i + 1));
                }
                return None;
            },
            Some(segment) => {
                segments.push(segment);
            },
        }
        i = i + 1;
    }
    Some(segments)
}

/// Where the first fields are no segments, all fields together are none.
proof fn lemma_plain_prefix(fields: Seq<Seq<char>>, n: int)
    requires
        0 <= n <= fields.len(),
        plain_segments_read(fields.take(n)) is None,
    ensures
        plain_segments_read(fields) is None,
    decreases fields.len(),
{
    if n == fields.len() {
        assert(fields.take(n) == fields);
    } else {
        assert(fields.drop_last().take(n) == fields.take(n));
        lemma_plain_prefix(fields.drop_last(), n);
    }
}

/// The segments that the fields stand for; the last field may be an IPv4 address.
fn read_final_segments(fields: &[Vec<char>]) -> (segments: Option<Vec<u16>>)
    ensures
        segments_view(segments) == final_segments_read(text::contents(fields@)),
{
    let ghost all = text::contents(fields@);
    assert(all.take(fields@.len() as int) == all);
    let plain = read_plain_segments(fields, fields.len());
    if plain.is_some() || fields.len() == 0 {
        return plain;
    }
    assert(all.take(fields@.len() - 1) == all.drop_last());
    assert(all.last() == fields@[fields@.len() - 1]@);
    match (
        read_plain_segments(fields, fields.len() - 1),
        read_ipv4(fields[fields.len() - 1].as_slice()),
    ) {
        (Some(mut segments), Some(ip)) => {
            let ghost before = segments@;
            segments.push(ip.a as u16 * 256 + ip.b as u16);
            segments.push(ip.c as u16 * 256 + ip.d as u16);
            assert(segments@ == before + segments_of_ipv4(ip));
            Some(segments)
        },
        _ => None,
    }
}

/// The first place where two colons stand.
fn find_gap(chars: &[char]) -> (gap: Option<usize>)
    ensures
        gap is None <==> first_gap(chars@, 0) is None,
        gap is Some ==> first_gap(chars@, 0) == Some(gap.unwrap() as int) && is_gap(
            chars@,
            gap.unwrap() as int,
        ),
{
    let mut i: usize = 0;
    while i < chars.len() && chars.len() - i > 1
        invariant
            i <= chars@.len(),
            first_gap(chars@, 0) == first_gap(chars@, i as int),
        decreases chars@.len() - i,
    {
        if chars[i] == ':' && chars[i + 1] == ':' {
            return Some(i);
        }
        i = i + 1;
    }
    None
}

/// The part of the characters from `from` up to `to`.
fn part(chars: &[char], from: usize, to: usize) -> (part: Vec<char>)
    requires
        from <= to <= chars@.len(),
    ensures
        part@ == chars@.subrange(from as int, to as int),
{
    let mut part: Vec<char> = Vec::new();
    let mut i: usize = from;
    while i < to
        invariant
            from <= i <= to <= chars@.len(),
            part@ == chars@.subrange(from as int, i as int),
        decreases to - i,
    {
        part.push(chars[i]);
        assert(part@ == chars@.subrange(from as int, i + 1));
        i = i + 1;
    }
    part
}

/// The segments as an address.
fn address_of(segments: &[u16]) -> (ip: Ipv6Addr)
    requires
        segments@.len() == 8,
    ensures
        ip.segments@ == segments@,
{
    let ip = Ipv6Addr {
        segments: [
            segments[0],
            segments[1],
            segments[2],
            segments[3],
            segments[4],
            segments[5],
            segments[6],
            segments[7],
        ],
    };
    assert(ip.segments@ =~= segments@);
    ip
}

/// The IPv6 address that the characters stand for.
fn read_ipv6(chars: &[char]) -> (ip: Option<Ipv6Addr>)
    ensures
        ip is Some <==> ipv6_read(chars@) is Some,
        ip is Some ==> ipv6_read(chars@) == Some(ip.unwrap().segments@),
{
    match find_gap(chars) {
        None => {
            let fields = split_colons(chars);
            match read_final_segments(fields.as_slice()) {
                None => None,
                Some(segments) => if segments.len() == 8 {
                    Some(address_of(segments.as_slice()))
                } else {
                    None
                },
            }
        },
        Some(gap) => {
            let before = part(chars, 0, gap);
            let length: usize = chars.len();
            let behind = part(chars, gap + 2, length);
            assert(before@ == chars@.take(gap as int));
            assert(behind@ == chars@.skip(gap + 2));
            let head_fields = split_colons(before.as_slice());
            let tail_fields = split_colons(behind.as_slice());
            proof {
                let all = text::contents(head_fields@);
                assert(all.take(head_fields@.len() as int) == all);
            }
            match (
                read_plain_segments(head_fields.as_slice(), head_fields.len()),
                read_final_segments(tail_fields.as_slice()),
            ) {
                (Some(head), Some(tail)) => {
                    if head.len() > 7 || tail.len() > 7 - head.len() {
                        return None;
                    }
                    let mut segments = head;
                    let ghost head_segments = segments@;
                    while segments.len() < 8 - tail.len()
                        invariant
                            head_segments.len() + tail@.len() <= 7,
                            head_segments.len() <= segments@.len() <= 8 - tail@.len(),
                            segments@ == head_segments + Seq::new(
                                (segments@.len() - head_segments.len()) as nat,
                                |i: int| 0u16,
                            ),
                        decreases 8 - segments@.len(),
                    {
                        segments.push(0);
                        assert(segments@ == head_segments + Seq::new(
                            (segments@.len() - head_segments.len()) as nat,
                            |i: int| 0u16,
                        ));
                    }
                    let mut i: usize = 0;
                    let ghost padded = segments@;
                    while i < tail.len()
                        invariant
                            i <= tail@.len(),
                            segments@ == padded + tail@.take(i as int),
                        decreases tail@.len() - i,
                    {
                        segments.push(tail[i]);
                        assert(tail@.take(i + 1) == tail@.take(i as int).push(tail@[i as int]));
                        i = i + 1;
                    }
                    assert(tail@.take(tail@.len() as int) == tail@);
                    Some(address_of(segments.as_slice()))
                },
                _ => None,
            }
        },
    }
}

/// The result of a parse, its address seen as above.
pub open spec fn parse_view(result: Result<IpAddr, AddrParseError>) -> Option<IpAddrView> {
    match result {
        Ok(ip) => Some(ip@),
        Err(_) => None,
    }
}

/// The address that a text stands for.
pub fn parse_ip(text: &str) -> (result: Result<IpAddr, AddrParseError>)
    ensures
        parse_view(result) == ip_read(text@),
{
    let chars = text::characters(text);
    match read_ipv4(chars.as_slice()) {
        Some(ip) => Ok(IpAddr::V4(ip)),
        None => match read_ipv6(chars.as_slice()) {
            Some(ip) => Ok(IpAddr::V6(ip)),
            None => Err(AddrParseError),
        },
    }
}

/// How many segments in a row, from `start` on, are zero.
fn count_zeros(segments: &[u16; 8], start: usize) -> (zeros: usize)
    requires
        start <= 8,
    ensures
        zeros == zeros_from(segments@, start as int),
        start + zeros <= 8,
    decreases 8 - start,
{
    if start >= 8 || segments[start] != 0 {
        0
    } else {
        1 + count_zeros(segments, start + 1)
    }
}

/// Where the first of the longest rows of zeros begins.
fn find_longest_zeros(segments: &[u16; 8]) -> (start: usize)
    ensures
        start == longest_zeros(segments@, 8),
        start < 8,
{
    let mut start: usize = 0;
    let mut end: usize = 1;
    while end < 8
        invariant
            1 <= end <= 8,
            start < 8,
            start == longest_zeros(segments@, end as int),
        decreases 8 - end,
    {
        if count_zeros(segments, end) > count_zeros(segments, start) {
            start = end;
        }
        end = end + 1;
    }
    start
}

/// Writes the segments from `from` up to `to` behind `out`, with colons between them.
fn push_segments(out: &mut String, segments: &[u16; 8], from: usize, to: usize)
    requires
        from <= to <= 8,
    ensures
        final(out)@ == old(out)@ + segments_text(segments@.subrange(from as int, to as int)),
{
    let ghost before = out@;
    let ghost parts = segment_numerals(segments@.subrange(from as int, to as int));
    let mut i: usize = from;
    assert(parts.take(0) == Seq::<Seq<char>>::empty());
    assert(before + text::joined(parts.take(0), seq![':']) == before);
    while i < to
        invariant
            from <= i <= to <= 8,
            parts == segment_numerals(segments@.subrange(from as int, to as int)),
            out@ == before + text::joined(parts.take(i - from), seq![':']),
        decreases to - i,
    {
        let ghost done = parts.take(i - from);
        let ghost more = parts.take(i - from + 1);
        proof {
            assert(more.drop_last() == done);
            assert(more.last() == numeral::numeral(segments@[i as int] as int, 16));
        }
        if i > from {
            out.push(':');
        }
        numeral::push_numeral(out, segments[i] as u64, 16);
        proof {
            if i > from {
                assert(out@ == before + (text::joined(done, seq![':']) + seq![':'] + more.last()));
            } else {
                assert(done == Seq::<Seq<char>>::empty());
                assert(out@ == before + more.last());
            }
        }
        i = i + 1;
    }
    assert(parts.take(to - from) == parts);
}

impl Ipv6Addr {
    /// The address as text.
    pub fn to_text(&self) -> (text: String)
        ensures
            text@ == ipv6_text(self.segments@),
    {
        let segments = &self.segments;
        let mut text = String::new();
        if segments[0] == 0 && segments[1] == 0 && segments[2] == 0 && segments[3] == 0
            && segments[4] == 0 && segments[5] == 0xffff {
            assert(segments@.take(6) == seq![0u16, 0u16, 0u16, 0u16, 0u16, 0xffffu16]);
            text.push(':');
            text.push(':');
            text.push('f');
            text.push('f');
            text.push('f');
            text.push('f');
            text.push(':');
            assert(text@ == seq![':', ':', 'f', 'f', 'f', 'f', ':']);
            let ip = Ipv4Addr {
                a: (segments[6] / 256) as u8,
                b: (segments[6] % 256) as u8,
                c: (segments[7] / 256) as u8,
                d: (segments[7] % 256) as u8,
            };
            text.append(ip.to_text().as_str());
            return text;
        }
        proof {
            let six = segments@.take(6);
            assert(!is_ipv4_mapped(segments@)) by {
                if is_ipv4_mapped(segments@) {
                    assert(six[0] == 0 && six[1] == 0 && six[2] == 0 && six[3] == 0 && six[4] == 0
                        && six[5] == 0xffff);
                }
            }
        }
        let start: usize = find_longest_zeros(segments);
        let zeros: usize = count_zeros(segments, start);
        if zeros > 1 {
            push_segments(&mut text, segments, 0, start);
            text.push(':');
            text.push(':');
            push_segments(&mut text, segments, start + zeros, 8);
            proof {
                let head = segments_text(segments@.take(start as int));
                let tail = segments_text(segments@.skip(start + zeros));
                assert(segments@.subrange(0, start as int) == segments@.take(start as int));
                assert(segments@.subrange(start + zeros, 8) == segments@.skip(start + zeros));
                assert(text@ == head + seq![':', ':'] + tail);
            }
        } else {
            push_segments(&mut text, segments, 0, 8);
            assert(segments@.subrange(0, 8) == segments@);
            assert(text@ == segments_text(segments@));
        }
        text
    }
}

/// An address and a port, the segments of an IPv6 address seen as a sequence.
pub enum SocketAddrView {
    V4 { ip: Ipv4Addr, port: u16 },
    V6 { segments: Seq<u16>, port: u16, flowinfo: u32, scope_id: u32 },
}

impl View for SocketAddr {
    type V = SocketAddrView;

    open spec fn view(&self) -> SocketAddrView {
        match *self {
            SocketAddr::V4(v4) => SocketAddrView::V4 { ip: v4.ip, port: v4.port },
            SocketAddr::V6(v6) => SocketAddrView::V6 {
                segments: v6.ip.segments@,
                port: v6.port,
                flowinfo: v6.flowinfo,
                scope_id: v6.scope_id,
            },
        }
    }
}

/// The address with the port; an IPv6 one without flow label and scope.
pub open spec fn socket_of(ip: IpAddrView, port: u16) -> SocketAddrView {
    match ip {
        IpAddrView::V4(ip) => SocketAddrView::V4 { ip, port },
        IpAddrView::V6(segments) => SocketAddrView::V6 { segments, port, flowinfo: 0, scope_id: 0 },
    }
}

/// The text of an address and a port: an IPv6 address stands in brackets, with its scope
/// behind a percent sign where it has one.
pub open spec fn socket_text(address: SocketAddrView) -> Seq<char> {
    match address {
        SocketAddrView::V4 { ip, port } => ipv4_text(ip) + seq![':'] + numeral::decimal(
            port as int,
        ),
        SocketAddrView::V6 { segments, port, flowinfo: _, scope_id } => if scope_id == 0 {
            seq!['['] + ipv6_text(segments) + seq![']', ':'] + numeral::decimal(port as int)
        } else {
            seq!['['] + ipv6_text(segments) + seq!['%'] + numeral::decimal(scope_id as int)
                + seq![']', ':'] + numeral::decimal(port as int)
        },
    }
}

impl SocketAddr {
    /// The address with the port; an IPv6 one without flow label and scope.
    pub fn new(ip: IpAddr, port: u16) -> (address: SocketAddr)
        ensures
            address@ == socket_of(ip@, port),
    {
        match ip {
            IpAddr::V4(ip) => SocketAddr::V4(SocketAddrV4 { ip, port }),
            IpAddr::V6(ip) => SocketAddr::V6(
                SocketAddrV6 { ip, port, flowinfo: 0, scope_id: 0 },
            ),
        }
    }

    /// The address and port as text.
    pub fn to_text(&self) -> (text: String)
        ensures
            text@ == socket_text(self@),
    {
        match self {
            SocketAddr::V4(v4) => {
                let mut text = v4.ip.to_text();
                text.push(':');
                text.append(numeral::decimal_text(v4.port as u64).as_str());
                assert(text@ == socket_text(self@));
                text
            },
            SocketAddr::V6(v6) => {
                let mut text = String::new();
                text.push('[');
                text.append(v6.ip.to_text().as_str());
                if v6.scope_id != 0 {
                    text.push('%');
                    text.append(numeral::decimal_text(v6.scope_id as u64).as_str());
                }
                text.push(']');
                text.push(':');
                text.append(numeral::decimal_text(v6.port as u64).as_str());
                assert(text@ == socket_text(self@));
                text
            },
        }
    }
}

/// Two colons at `gap` and nowhere before are the first two in a row.
proof fn lemma_first_gap(s: Seq<char>, start: int, gap: int)
    requires
        0 <= start <= gap,
        is_gap(s, gap),
        forall|i: int| start <= i < gap ==> !#[trigger] is_gap(s, i),
    ensures
        first_gap(s, start) == Some(gap),
    decreases gap - start,
{
    if start < gap {
        assert(!is_gap(s, start));
        lemma_first_gap(s, start + 1, gap);
    }
}

/// A text without two colons in a row has no first place of the kind.
proof fn lemma_no_gap(s: Seq<char>, start: int)
    requires
        0 <= start,
        forall|i: int| !#[trigger] is_gap(s, i),
    ensures
        first_gap(s, start) is None,
    decreases s.len() - start,
{
    if start + 1 < s.len() {
        assert(!is_gap(s, start));
        lemma_no_gap(s, start + 1);
    }
}

/// Parts without colons, none of them empty, joined by single colons hold no two colons
/// in a row, and none at either end.
proof fn lemma_joined_no_gap(parts: Seq<Seq<char>>)
    requires
        parts.len() > 0,
        forall|i: int|
            0 <= i < parts.len() ==> (#[trigger] parts[i]).len() > 0 && text::lacks(parts[i], ':'),
    ensures
        ({
            let s = text::joined(parts, seq![':']);
            &&& s.len() > 0
            &&& s[0] != ':'
            &&& s.last() != ':'
            &&& forall|i: int| !#[trigger] is_gap(s, i)
        }),
    decreases parts.len(),
{
    let s = text::joined(parts, seq![':']);
    let last = parts[parts.len() - 1];
    assert(last.len() > 0 && text::lacks(last, ':'));
    assert(last[0] != ':' && last[last.len() - 1] != ':');
    if parts.len() > 1 {
        let init = parts.drop_last();
        assert forall|i: int| 0 <= i < init.len() implies (#[trigger] init[i]).len() > 0
            && text::lacks(init[i], ':') by {
            assert(init[i] == parts[i]);
        }
        lemma_joined_no_gap(init);
        let before = text::joined(init, seq![':']);
        assert(s == before + seq![':'] + last);
        assert forall|i: int| !#[trigger] is_gap(s, i) by {
            if is_gap(s, i) {
                if i + 1 < before.len() {
                    assert(is_gap(before, i));
                } else if i + 1 == before.len() {
                    assert(s[i] == before.last());
                } else if i == before.len() {
                    assert(s[i + 1] == last[0]);
                } else {
                    assert(s[i] == last[i - before.len() - 1]);
                }
            }
        }
    } else {
        assert forall|i: int| !#[trigger] is_gap(s, i) by {
            if is_gap(s, i) {
                assert(s[i] == last[i]);
            }
        }
    }
}

/// The numeral of a segment is what stands for it.
proof fn lemma_segment(segment: u16)
    ensures
        segment_read(numeral::numeral(segment as int, 16)) == Some(segment),
        numeral::numeral(segment as int, 16).len() > 0,
        text::lacks(numeral::numeral(segment as int, 16), ':'),
{
    let n = segment as int;
    numeral::lemma_numeral(n, 16);
    let s = numeral::numeral(n, 16);
    assert(s.len() <= 4) by {
        reveal_with_fuel(numeral::numeral, 5);
    }
    assert forall|i: int| 0 <= i < s.len() implies #[trigger] s[i] != ':' by {
        assert(numeral::is_digit_char(s[i]));
    }
}

/// The text of segments holds no two colons in a row, and its fields are their numerals,
/// which stand for them.
proof fn lemma_segments_text(segments: Seq<u16>)
    ensures
        colon_fields(segments_text(segments)) == segment_numerals(segments),
        plain_segments_read(segment_numerals(segments)) == Some(segments),
        forall|i: int| !#[trigger] is_gap(segments_text(segments), i),
        segments.len() == 0 ==> segments_text(segments).len() == 0,
        segments.len() > 0 ==> segments_text(segments).len() > 0 && segments_text(segments)[0]
            != ':' && segments_text(segments).last() != ':',
    decreases segments.len(),
{
    let parts = segment_numerals(segments);
    if segments.len() == 0 {
        assert(parts == Seq::<Seq<char>>::empty());
        assert(Some(Seq::<u16>::empty()) == Some(segments));
    } else {
        assert forall|i: int| 0 <= i < parts.len() implies (#[trigger] parts[i]).len() > 0
            && text::lacks(parts[i], ':') by {
            lemma_segment(segments[i]);
        }
        lemma_joined_no_gap(parts);
        text::split_undoes_joined(parts, ':');
        lemma_segments_text(segments.drop_last());
        assert(parts.drop_last() == segment_numerals(segments.drop_last()));
        lemma_segment(segments.last());
        assert(segments.drop_last().push(segments.last()) == segments);
    }
}

/// The segments in a row of zeros are zero.
proof fn lemma_zeros(segments: Seq<u16>, start: int)
    requires
        0 <= start <= segments.len(),
    ensures
        0 <= zeros_from(segments, start) <= segments.len() - start,
        forall|i: int|
            start <= i < start + zeros_from(segments, start) ==> #[trigger] segments[i] == 0,
    decreases segments.len() - start,
{
    if start < segments.len() && segments[start] == 0 {
        lemma_zeros(segments, start + 1);
    }
}

/// The place of the longest row of zeros is a place in the address.
proof fn lemma_longest_zeros(segments: Seq<u16>, end: int)
    requires
        1 <= end,
    ensures
        0 <= longest_zeros(segments, end) < end,
    decreases end,
{
    if end > 1 {
        lemma_longest_zeros(segments, end - 1);
    }
}

/// Reading the text of an IPv6 address that maps an IPv4 address gives it back.
#[verifier::rlimit(40)]
proof fn lemma_mapped_reads_back(segments: Seq<u16>)
    requires
        is_ipv4_mapped(segments),
    ensures
        ipv6_read(ipv6_text(segments)) == Some(segments),
{
    let ip = ipv4_of_segments(segments[6], segments[7]);
    let s = ipv6_text(segments);
    let v4 = ipv4_text(ip);
    let ffff = seq!['f', 'f', 'f', 'f'];
    let six = segments.take(6);
    assert(six[0] == 0 && six[1] == 0 && six[2] == 0 && six[3] == 0 && six[4] == 0 && six[5]
        == 0xffff);
    assert(is_gap(s, 0));
    lemma_first_gap(s, 0, 0);
    assert(s.take(0) == Seq::<char>::empty());
    // The fields behind the colons.
    let fields = seq![ffff, v4];
    let octets = seq![
        numeral::decimal(ip.a as int),
        numeral::decimal(ip.b as int),
        numeral::decimal(ip.c as int),
        numeral::decimal(ip.d as int),
    ];
    lemma_octet(ip.a);
    lemma_octet(ip.b);
    lemma_octet(ip.c);
    lemma_octet(ip.d);
    text::lemma_joined_lacks(octets, '.', ':');
    text::split_undoes_joined(fields, ':');
    assert(text::joined(fields, seq![':']) == ffff + seq![':'] + v4) by {
        assert(text::joined(fields.drop_last(), seq![':']) == ffff);
    }
    assert(s.skip(2) == ffff + seq![':'] + v4);
    assert(colon_fields(s.skip(2)) == fields);
    // What they stand for.
    assert(segment_read(ffff) == Some(0xffffu16)) by {
        reveal_with_fuel(numeral::digits_value, 5);
        assert(ffff.drop_last() == seq!['f', 'f', 'f']);
        assert(ffff.drop_last().drop_last() == seq!['f', 'f']);
        assert(ffff.drop_last().drop_last().drop_last() == seq!['f']);
        assert(ffff.drop_last().drop_last().drop_last().drop_last() == Seq::<char>::empty());
        assert(numeral::all_digits(ffff, 16));
    }
    assert(plain_segments_read(fields.drop_last()) == Some(seq![0xffffu16])) by {
        assert(fields.drop_last().drop_last() == Seq::<Seq<char>>::empty());
        assert(Seq::<u16>::empty().push(0xffffu16) == seq![0xffffu16]);
    }
    assert(segment_read(v4) is None) by {
        lemma_joined_four(octets);
        let dot = octets[0].len() as int;
        assert(v4[dot] == '.');
        assert(numeral::digit_value(v4[dot], 16) is None);
    }
    ipv4_text_reads_back(ip);
    let tail = seq![0xffffu16] + segments_of_ipv4(ip);
    assert(final_segments_read(fields) == Some(tail));
    assert(tail == seq![0xffffu16, segments[6], segments[7]]);
    assert(Seq::<u16>::empty() + Seq::new(5, |i: int| 0u16) + tail =~= segments) by {
        assert forall|i: int| 0 <= i < 5 implies segments[i] == 0 by {
            assert(segments[i] == six[i]);
        }
        assert(segments[5] == six[5]);
    }
}

/// Reading the text of an IPv6 address gives the address back.
pub proof fn ipv6_text_reads_back(segments: Seq<u16>)
    requires
        segments.len() == 8,
    ensures
        ipv6_read(ipv6_text(segments)) == Some(segments),
{
    let s = ipv6_text(segments);
    let start = longest_zeros(segments, 8);
    let zeros = zeros_from(segments, start);
    lemma_longest_zeros(segments, 8);
    lemma_zeros(segments, start);
    if is_ipv4_mapped(segments) {
        lemma_mapped_reads_back(segments);
    } else if zeros > 1 {
        let before = segments.take(start);
        let behind = segments.skip(start + zeros);
        let head = segments_text(before);
        let tail = segments_text(behind);
        lemma_segments_text(before);
        lemma_segments_text(behind);
        let gap = head.len() as int;
        assert(s == head + seq![':', ':'] + tail);
        assert(is_gap(s, gap));
        assert forall|i: int| 0 <= i < gap implies !#[trigger] is_gap(s, i) by {
            if is_gap(s, i) {
                if i + 1 < gap {
                    assert(is_gap(head, i));
                } else {
                    assert(s[i] == head.last());
                }
            }
        }
        lemma_first_gap(s, 0, gap);
        assert(s.take(gap) == head);
        assert(s.skip(gap + 2) == tail);
        assert(before + Seq::new((8 - before.len() - behind.len()) as nat, |i: int| 0u16) + behind
            =~= segments);
    } else {
        lemma_segments_text(segments);
        lemma_no_gap(s, 0);
    }
}

/// A text with a colon is no IPv4 address.
proof fn lemma_ipv4_lacks_colon(s: Seq<char>)
    requires
        ipv4_read(s) is Some,
    ensures
        text::lacks(s, ':'),
{
    let fields = text::split(s, '.');
    assert forall|i: int| 0 <= i < fields.len() implies text::lacks(#[trigger] fields[i], ':') by {
        assert(octet_read(fields[i]) is Some);
        assert forall|j: int| 0 <= j < fields[i].len() implies #[trigger] fields[i][j] != ':' by {
            assert(numeral::digit_value(fields[i][j], 10) is Some);
        }
    }
    text::lemma_fields_lack(s, '.', ':');
}

/// The text of an IPv6 address has a colon.
proof fn lemma_ipv6_has_colon(segments: Seq<u16>)
    requires
        segments.len() == 8,
    ensures
        !text::lacks(ipv6_text(segments), ':'),
{
    let s = ipv6_text(segments);
    let start = longest_zeros(segments, 8);
    let zeros = zeros_from(segments, start);
    if is_ipv4_mapped(segments) {
        assert(s[0] == ':');
    } else if zeros > 1 {
        assert(s[segments_text(segments.take(start)).len() as int] == ':');
    } else {
        let parts = segment_numerals(segments);
        let init = text::joined(parts.drop_last(), seq![':']);
        assert(s == init + seq![':'] + parts.last());
        assert(s[init.len() as int] == ':');
    }
}

/// Reading the text of an address gives the address back, whatever its family.
pub proof fn ip_text_reads_back(ip: IpAddrView)
    requires
        ip is V6 ==> ip->V6_0.len() == 8,
    ensures
        ip_read(ip_text(ip)) == Some(ip),
{
    match ip {
        IpAddrView::V4(v4) => {
            ipv4_text_reads_back(v4);
        },
        IpAddrView::V6(segments) => {
            ipv6_text_reads_back(segments);
            lemma_ipv6_has_colon(segments);
            if ipv4_read(ipv6_text(segments)) is Some {
                lemma_ipv4_lacks_colon(ipv6_text(segments));
            }
        },
    }
}

/// The text of an IPv4 address holds digits and dots only.
pub proof fn lemma_ipv4_text_lacks(ip: Ipv4Addr, c: char)
    requires
        !numeral::is_digit_char(c),
        c != '.',
    ensures
        text::lacks(ipv4_text(ip), c),
{
    let parts = seq![
        numeral::decimal(ip.a as int),
        numeral::decimal(ip.b as int),
        numeral::decimal(ip.c as int),
        numeral::decimal(ip.d as int),
    ];
    numeral::lemma_numeral_lacks(ip.a as int, 10, c);
    numeral::lemma_numeral_lacks(ip.b as int, 10, c);
    numeral::lemma_numeral_lacks(ip.c as int, 10, c);
    numeral::lemma_numeral_lacks(ip.d as int, 10, c);
    text::lemma_joined_lacks(parts, '.', c);
}

/// The text of segments holds digits and colons only.
proof fn lemma_segments_text_lacks(segments: Seq<u16>, c: char)
    requires
        !numeral::is_digit_char(c),
        c != ':',
    ensures
        text::lacks(segments_text(segments), c),
{
    let parts = segment_numerals(segments);
    assert forall|i: int| 0 <= i < parts.len() implies text::lacks(#[trigger] parts[i], c) by {
        numeral::lemma_numeral_lacks(segments[i] as int, 16, c);
    }
    text::lemma_joined_lacks(parts, ':', c);
}

/// The text of an IPv6 address holds digits, colons and dots only.
proof fn lemma_ipv6_text_lacks(segments: Seq<u16>, c: char)
    requires
        segments.len() == 8,
        !numeral::is_digit_char(c),
        c != ':',
        c != '.',
    ensures
        text::lacks(ipv6_text(segments), c),
{
    let start = longest_zeros(segments, 8);
    let zeros = zeros_from(segments, start);
    lemma_ipv4_text_lacks(ipv4_of_segments(segments[6], segments[7]), c);
    lemma_segments_text_lacks(segments, c);
    lemma_segments_text_lacks(segments.take(start), c);
    lemma_segments_text_lacks(segments.skip(start + zeros), c);
}

/// Two parts joined by a separator that neither holds are told apart.
proof fn lemma_two_parts(a: Seq<char>, b: Seq<char>, separator: char)
    requires
        text::lacks(a, separator),
        text::lacks(b, separator),
    ensures
        text::split(a + seq![separator] + b, separator) == seq![a, b],
{
    let parts = seq![a, b];
    text::split_undoes_joined(parts, separator);
    assert(text::joined(parts.drop_last(), seq![separator]) == a);
}

/// What stands between the brackets of an IPv6 address with a port.
pub open spec fn bracketed_text(segments: Seq<u16>, scope_id: u32) -> Seq<char> {
    if scope_id == 0 {
        ipv6_text(segments)
    } else {
        ipv6_text(segments) + seq!['%'] + numeral::decimal(scope_id as int)
    }
}

/// The brackets and what stands in them and behind them are told apart.
proof fn lemma_bracketed(segments: Seq<u16>, port: u16, flowinfo: u32, scope_id: u32)
    requires
        segments.len() == 8,
    ensures
        text::split(
            socket_text(SocketAddrView::V6 { segments, port, flowinfo, scope_id }),
            ']',
        ) == seq![
            seq!['['] + bracketed_text(segments, scope_id),
            seq![':'] + numeral::decimal(port as int),
        ],
        text::split(bracketed_text(segments, scope_id), '%') == (if scope_id == 0 {
            seq![ipv6_text(segments)]
        } else {
            seq![ipv6_text(segments), numeral::decimal(scope_id as int)]
        }),
{
    let inner = bracketed_text(segments, scope_id);
    let number = numeral::decimal(port as int);
    let address = SocketAddrView::V6 { segments, port, flowinfo, scope_id };
    lemma_ipv6_text_lacks(segments, ']');
    lemma_ipv6_text_lacks(segments, '%');
    numeral::lemma_numeral_lacks(scope_id as int, 10, ']');
    numeral::lemma_numeral_lacks(scope_id as int, 10, '%');
    numeral::lemma_numeral_lacks(port as int, 10, ']');
    lemma_two_parts(seq!['['] + inner, seq![':'] + number, ']');
    assert(socket_text(address) =~= seq!['['] + inner + seq![']'] + (seq![':'] + number));
    if scope_id == 0 {
        text::split_undoes_joined(seq![inner], '%');
    } else {
        lemma_two_parts(ipv6_text(segments), numeral::decimal(scope_id as int), '%');
    }
}

/// Two addresses with ports that have the same text are the same, but for the flow label,
/// which the text does not hold.
pub proof fn socket_text_determines_address(a: SocketAddrView, b: SocketAddrView)
    requires
        a is V6 ==> a->segments.len() == 8,
        b is V6 ==> b->segments.len() == 8,
        socket_text(a) == socket_text(b),
    ensures
        match (a, b) {
            (SocketAddrView::V4 { .. }, SocketAddrView::V4 { .. }) => a == b,
            (
                SocketAddrView::V6 { segments: s, port: p, scope_id: i, .. },
                SocketAddrView::V6 { segments: t, port: q, scope_id: j, .. },
            ) => s == t && p == q && i == j,
            _ => false,
        },
{
    match a {
        SocketAddrView::V4 { ip, port } => {
            lemma_ipv4_text_lacks(ip, '[');
            lemma_ipv4_text_lacks(ip, ':');
            numeral::lemma_numeral_lacks(port as int, 10, ':');
            lemma_two_parts(ipv4_text(ip), numeral::decimal(port as int), ':');
            ipv4_text_reads_back(ip);
            lemma_first_of_ipv4(ip);
            match b {
                SocketAddrView::V4 { ip: other, port: number } => {
                    lemma_ipv4_text_lacks(other, ':');
                    numeral::lemma_numeral_lacks(number as int, 10, ':');
                    lemma_two_parts(ipv4_text(other), numeral::decimal(number as int), ':');
                    ipv4_text_reads_back(other);
                    let parts = seq![ipv4_text(ip), numeral::decimal(port as int)];
                    let others = seq![ipv4_text(other), numeral::decimal(number as int)];
                    assert(parts[0] == others[0] && parts[1] == others[1]);
                    numeral::decimal_is_injective(port as int, number as int);
                },
                SocketAddrView::V6 { .. } => {
                    assert(socket_text(a)[0] == ipv4_text(ip)[0]);
                    assert(socket_text(b)[0] == '[');
                },
            }
        },
        SocketAddrView::V6 { segments, port, flowinfo, scope_id } => {
            lemma_bracketed(segments, port, flowinfo, scope_id);
            ipv6_text_reads_back(segments);
            match b {
                SocketAddrView::V4 { ip, port: _ } => {
                    lemma_first_of_ipv4(ip);
                    lemma_ipv4_text_lacks(ip, '[');
                    assert(socket_text(b)[0] == ipv4_text(ip)[0]);
                    assert(socket_text(a)[0] == '[');
                },
                SocketAddrView::V6 {
                    segments: others,
                    port: number,
                    flowinfo: label,
                    scope_id: scope,
                } => {
                    lemma_bracketed(others, number, label, scope);
                    ipv6_text_reads_back(others);
                    let inner = bracketed_text(segments, scope_id);
                    let other = bracketed_text(others, scope);
                    let left = seq![seq!['['] + inner, seq![':'] + numeral::decimal(port as int)];
                    let right = seq![seq!['['] + other, seq![':'] + numeral::decimal(number as int)];
                    assert(left == right);
                    assert(left[0] == right[0] && left[1] == right[1]);
                    assert((seq!['['] + inner).drop_first() =~= inner);
                    assert((seq!['['] + other).drop_first() =~= other);
                    assert((seq![':'] + numeral::decimal(port as int)).drop_first()
                        =~= numeral::decimal(port as int));
                    assert((seq![':'] + numeral::decimal(number as int)).drop_first()
                        =~= numeral::decimal(number as int));
                    numeral::decimal_is_injective(port as int, number as int);
                    let parts = text::split(inner, '%');
                    assert(parts == text::split(other, '%'));
                    assert(parts[0] == ipv6_text(segments) && parts[0] == ipv6_text(others));
                    assert(scope_id == 0 <==> parts.len() == 1);
                    assert(scope == 0 <==> parts.len() == 1);
                    if scope_id != 0 {
                        assert(parts[1] == numeral::decimal(scope_id as int) && parts[1]
                            == numeral::decimal(scope as int));
                        numeral::decimal_is_injective(scope_id as int, scope as int);
                    }
                },
            }
        },
    }
}

/// The text of an IPv4 address is not empty.
proof fn lemma_first_of_ipv4(ip: Ipv4Addr)
    ensures
        ipv4_text(ip).len() > 0,
{
    ipv4_text_reads_back(ip);
    lemma_empty_is_no_address();
    if ipv4_text(ip).len() == 0 {
        assert(ipv4_text(ip) == Seq::<char>::empty());
    }
}

/// The empty text is no address.
pub proof fn lemma_empty_is_no_address()
    ensures
        ip_read(Seq::empty()) is None,
{
    assert(text::split(Seq::<char>::empty(), '.').len() == 1);
    assert(plain_segments_read(Seq::<Seq<char>>::empty()) == Some(Seq::<u16>::empty()));
}

/// The text of an IPv4 address shows its octets in their order: the four fields between
/// the dots are their decimal numerals.
pub proof fn ipv4_text_shows_the_octets(ip: Ipv4Addr)
    ensures
        ({
            let fields = text::split(ipv4_text(ip), '.');
            &&& fields.len() == 4
            &&& numeral::is_numeral_of(fields[0], ip.a as int)
            &&& numeral::is_numeral_of(fields[1], ip.b as int)
            &&& numeral::is_numeral_of(fields[2], ip.c as int)
            &&& numeral::is_numeral_of(fields[3], ip.d as int)
        }),
{
    let parts = seq![
        numeral::decimal(ip.a as int),
        numeral::decimal(ip.b as int),
        numeral::decimal(ip.c as int),
        numeral::decimal(ip.d as int),
    ];
    lemma_octet(ip.a);
    lemma_octet(ip.b);
    lemma_octet(ip.c);
    lemma_octet(ip.d);
    text::split_undoes_joined(parts, '.');
    numeral::decimal_is_the_only_numeral(parts[0], ip.a as int);
    numeral::decimal_is_the_only_numeral(parts[1], ip.b as int);
    numeral::decimal_is_the_only_numeral(parts[2], ip.c as int);
    numeral::decimal_is_the_only_numeral(parts[3], ip.d as int);
}

/// A field that stands for an octet is the numeral of that octet.
proof fn lemma_octet_is_numeral(field: Seq<char>)
    requires
        octet_read(field) is Some,
    ensures
        field == numeral::decimal(octet_read(field).unwrap() as int),
{
    let n = numeral::digits_value(field, 10);
    assert(numeral::digit_value(field[0], 10) is Some);
    assert(numeral::unsigned_digits(field) == field);
    numeral::number_read_accepts(field, 255, n);
    numeral::lemma_digits_are_numeral(field);
}

/// An IPv4 address has exactly one text that is read as it.
pub proof fn ipv4_addresses_have_one_text(s: Seq<char>, ip: Ipv4Addr)
    ensures
        ipv4_read(s) == Some(ip) <==> s == ipv4_text(ip),
{
    ipv4_text_reads_back(ip);
    if ipv4_read(s) == Some(ip) {
        let fields = text::split(s, '.');
        lemma_octet_is_numeral(fields[0]);
        lemma_octet_is_numeral(fields[1]);
        lemma_octet_is_numeral(fields[2]);
        lemma_octet_is_numeral(fields[3]);
        assert(fields == seq![
            numeral::decimal(ip.a as int),
            numeral::decimal(ip.b as int),
            numeral::decimal(ip.c as int),
            numeral::decimal(ip.d as int),
        ]);
        text::joined_undoes_split(s, '.');
    }
}

/// Segments are written in their order, each as its hexadecimal numeral, with one colon
/// between neighbours.
pub proof fn segments_text_grows_by_a_segment(segments: Seq<u16>, segment: u16)
    ensures
        segments_text(Seq::empty()) == Seq::<char>::empty(),
        segments_text(seq![segment]) == numeral::numeral(segment as int, 16),
        segments.len() > 0 ==> segments_text(segments.push(segment)) == segments_text(segments)
            + seq![':'] + numeral::numeral(segment as int, 16),
{
    let parts = segment_numerals(segments);
    let part = numeral::numeral(segment as int, 16);
    assert(segment_numerals(Seq::empty()) == Seq::<Seq<char>>::empty());
    assert(segment_numerals(seq![segment]) == seq![part]);
    assert(segment_numerals(segments.push(segment)) == parts.push(part));
    text::joined_grows_by_a_part(parts, part, seq![':']);
}

/// Whether the `n` segments from `start` on are all zero.
pub open spec fn is_zero_row(segments: Seq<u16>, start: int, n: int) -> bool {
    &&& 0 <= start
    &&& 0 <= n
    &&& start + n <= segments.len()
    &&& forall|i: int| start <= i < start + n ==> #[trigger] segments[i] == 0
}

/// A row of zeros is not longer than what is counted from its start.
proof fn lemma_row_is_counted(segments: Seq<u16>, start: int, n: int)
    requires
        is_zero_row(segments, start, n),
    ensures
        zeros_from(segments, start) >= n,
    decreases n,
{
    lemma_zeros(segments, start);
    if n > 0 {
        assert(segments[start] == 0);
        lemma_row_is_counted(segments, start + 1, n - 1);
    }
}

/// The place of the longest row of zeros is the first with as long a row.
proof fn lemma_longest_is_longest(segments: Seq<u16>, end: int)
    requires
        1 <= end,
    ensures
        0 <= longest_zeros(segments, end) < end,
        forall|i: int|
            0 <= i < end ==> #[trigger] zeros_from(segments, i) <= zeros_from(
                segments,
                longest_zeros(segments, end),
            ),
        forall|i: int|
            0 <= i < longest_zeros(segments, end) ==> #[trigger] zeros_from(segments, i)
                < zeros_from(segments, longest_zeros(segments, end)),
    decreases end,
{
    if end > 1 {
        lemma_longest_is_longest(segments, end - 1);
    }
}

/// The text of an IPv6 address. One that maps an IPv4 address shows that address in
/// dot-decimal notation behind `::ffff:`. In any other, of the rows of two or more zero
/// segments, the longest, and of those as long the first, is left out between two colons;
/// where there is no such row, all eight segments are shown.
pub proof fn ipv6_text_leaves_out_the_longest_zeros(
    segments: Seq<u16>,
    start: int,
    zeros: int,
    ip: Ipv4Addr,
)
    requires
        segments.len() == 8,
    ensures
        is_zero_row(segments, 0, 5) && segments[5] == 0xffff && segments[6] == ip.a * 256 + ip.b
            && segments[7] == ip.c * 256 + ip.d ==> ipv6_text(segments) == seq![
            ':',
            ':',
            'f',
            'f',
            'f',
            'f',
            ':',
        ] + ipv4_text(ip),
        !(is_zero_row(segments, 0, 5) && segments[5] == 0xffff) && zeros >= 2 && is_zero_row(
            segments,
            start,
            zeros,
        ) && (forall|i: int, n: int| #[trigger]
            is_zero_row(segments, i, n) ==> n < zeros || (n == zeros && start <= i))
            ==> ipv6_text(segments) == segments_text(segments.take(start)) + seq![':', ':']
            + segments_text(segments.skip(start + zeros)),
        (forall|i: int| !#[trigger] is_zero_row(segments, i, 2)) ==> ipv6_text(segments)
            == segments_text(segments),
{
    let place = longest_zeros(segments, 8);
    let count = zeros_from(segments, place);
    lemma_longest_is_longest(segments, 8);
    lemma_zeros(segments, place);
    assert(is_zero_row(segments, place, count));
    let six = segments.take(6);
    let mapped = seq![0u16, 0u16, 0u16, 0u16, 0u16, 0xffffu16];
    if is_ipv4_mapped(segments) {
        assert(six[0] == 0 && six[1] == 0 && six[2] == 0 && six[3] == 0 && six[4] == 0 && six[5]
            == 0xffff);
        assert(is_zero_row(segments, 0, 5));
        assert(is_zero_row(segments, 0, 2));
    }
    if is_zero_row(segments, 0, 5) && segments[5] == 0xffff {
        assert(six =~= mapped);
        if segments[6] == ip.a * 256 + ip.b && segments[7] == ip.c * 256 + ip.d {
            assert(ipv4_of_segments(segments[6], segments[7]) == ip);
        }
    }
    if zeros >= 2 && is_zero_row(segments, start, zeros) && (forall|i: int, n: int| #[trigger]
        is_zero_row(segments, i, n) ==> n < zeros || (n == zeros && start <= i)) {
        lemma_row_is_counted(segments, start, zeros);
        assert(zeros_from(segments, start) <= count);
        assert(count == zeros && start == place);
    }
    if forall|i: int| !#[trigger] is_zero_row(segments, i, 2) {
        if count > 1 {
            assert(is_zero_row(segments, place, 2));
        }
    }
}

/// The text of an address with a port shows both. Of an IPv4 address, the part in front of
/// the colon is read as the address and the part behind it is the numeral of the port. An
/// IPv6 address stands in brackets, with the numeral of its scope behind a percent sign
/// where it has one, and the numeral of the port stands behind the brackets and a colon.
pub proof fn socket_text_shows_address_and_port(
    ip: Ipv4Addr,
    segments: Seq<u16>,
    port: u16,
    flowinfo: u32,
    scope_id: u32,
)
    requires
        segments.len() == 8,
    ensures
        ({
            let fields = text::split(socket_text(SocketAddrView::V4 { ip, port }), ':');
            &&& fields.len() == 2
            &&& ipv4_read(fields[0]) == Some(ip)
            &&& numeral::is_numeral_of(fields[1], port as int)
        }),
        ({
            let s = socket_text(SocketAddrView::V6 { segments, port, flowinfo, scope_id });
            let fields = text::split(s, ']');
            let inner = text::split(fields[0].drop_first(), '%');
            &&& fields.len() == 2
            &&& fields[0].len() > 0 && fields[0][0] == '['
            &&& inner.len() == (if scope_id == 0 {
                1int
            } else {
                2
            })
            &&& inner[0] == ipv6_text(segments)
            &&& ipv6_read(inner[0]) == Some(segments)
            &&& scope_id != 0 ==> numeral::is_numeral_of(inner[1], scope_id as int)
            &&& fields[1].len() > 0 && fields[1][0] == ':'
            &&& numeral::is_numeral_of(fields[1].drop_first(), port as int)
        }),
{
    let number = numeral::decimal(port as int);
    let scope = numeral::decimal(scope_id as int);
    numeral::decimal_is_the_only_numeral(number, port as int);
    numeral::decimal_is_the_only_numeral(scope, scope_id as int);
    lemma_ipv4_text_lacks(ip, ':');
    numeral::lemma_numeral_lacks(port as int, 10, ':');
    lemma_two_parts(ipv4_text(ip), number, ':');
    ipv4_text_reads_back(ip);
    lemma_bracketed(segments, port, flowinfo, scope_id);
    ipv6_text_reads_back(segments);
    let inner = bracketed_text(segments, scope_id);
    assert((seq!['['] + inner).drop_first() == inner);
    assert((seq![':'] + number).drop_first() == number);
}

/// An address with a port has that address and that port, and of an IPv6 address neither
/// flow label nor scope.
pub proof fn socket_has_its_address_and_port(ip: IpAddrView, port: u16)
    ensures
        ip matches IpAddrView::V4(v4) ==> socket_of(ip, port) == (SocketAddrView::V4 {
            ip: v4,
            port,
        }),
        ip matches IpAddrView::V6(segments) ==> socket_of(ip, port) == (SocketAddrView::V6 {
            segments,
            port,
            flowinfo: 0,
            scope_id: 0,
        }),
{
}

/// Whether the fields are segments in hexadecimal: one to four digits each.
pub open spec fn spells(fields: Seq<Seq<char>>, segments: Seq<u16>) -> bool {
    &&& fields.len() == segments.len()
    &&& forall|i: int|
        0 <= i < fields.len() ==> {
            &&& 1 <= (#[trigger] fields[i]).len() <= 4
            &&& numeral::all_digits(fields[i], 16)
            &&& numeral::digits_value(fields[i], 16) == segments[i]
        }
}

/// Whether the fields are segments in hexadecimal, the last two of which may be one field
/// that is an IPv4 address.
pub open spec fn spells_to_the_end(fields: Seq<Seq<char>>, segments: Seq<u16>) -> bool {
    ||| spells(fields, segments)
    ||| {
        let n = fields.len() - 1;
        &&& n >= 0
        &&& segments.len() == n + 2
        &&& spells(fields.drop_last(), segments.take(n))
        &&& ipv4_read(fields.last()) matches Some(ip) && segments[n] == ip.a * 256 + ip.b
            && segments[n + 1] == ip.c * 256 + ip.d
    }
}

/// Whether the text is made of the two lists of fields, with two colons between them where
/// zeros are left out, and is a text of the eight segments.
pub open spec fn is_ipv6_form(
    s: Seq<char>,
    segments: Seq<u16>,
    head: Seq<Seq<char>>,
    tail: Seq<Seq<char>>,
    zeros: int,
) -> bool {
    let n = head.len() as int;
    &&& segments.len() == 8
    &&& n + zeros <= 8
    &&& is_zero_row(segments, n, zeros)
    &&& spells(head, segments.take(n))
    &&& spells_to_the_end(tail, segments.skip(n + zeros))
    &&& if zeros == 0 {
        n == 0 && s == text::joined(tail, seq![':'])
    } else {
        s == text::joined(head, seq![':']) + seq![':', ':'] + text::joined(tail, seq![':'])
    }
}

/// Fields that are read as segments spell them.
proof fn lemma_plain_spells(fields: Seq<Seq<char>>, segments: Seq<u16>)
    ensures
        plain_segments_read(fields) == Some(segments) <==> spells(fields, segments),
    decreases fields.len(),
{
    if fields.len() == 0 {
        if spells(fields, segments) {
            assert(segments == Seq::<u16>::empty());
        }
    } else {
        let init = fields.drop_last();
        let last = fields[fields.len() - 1];
        if plain_segments_read(fields) == Some(segments) {
            let before = plain_segments_read(init).unwrap();
            lemma_plain_spells(init, before);
            lemma_short_hex(last);
            assert(segments == before.push(segment_read(last).unwrap()));
            assert forall|i: int| 0 <= i < fields.len() implies 1 <= (#[trigger] fields[i]).len()
                <= 4 && numeral::all_digits(fields[i], 16) && numeral::digits_value(fields[i], 16)
                == segments[i] by {
                if i < init.len() {
                    assert(init[i] == fields[i]);
                }
            }
        }
        if spells(fields, segments) {
            let before = segments.drop_last();
            assert forall|i: int| 0 <= i < init.len() implies 1 <= (#[trigger] init[i]).len() <= 4
                && numeral::all_digits(init[i], 16) && numeral::digits_value(init[i], 16)
                == before[i] by {
                assert(init[i] == fields[i]);
            }
            lemma_plain_spells(init, before);
            assert(segment_read(last) == Some(segments.last()));
            assert(before.push(segments.last()) == segments);
        }
    }
}

/// Up to four hexadecimal digits stand for a segment.
proof fn lemma_short_hex(field: Seq<char>)
    requires
        field.len() <= 4,
        numeral::all_digits(field, 16),
    ensures
        0 <= numeral::digits_value(field, 16) <= 0xffff,
{
    reveal_with_fuel(numeral::digits_value, 5);
    if field.len() > 0 {
        assert(numeral::digit_value(field[field.len() - 1], 16) is Some);
    }
    if field.len() > 1 {
        assert(numeral::digit_value(field[field.len() - 2], 16) is Some);
    }
    if field.len() > 2 {
        assert(numeral::digit_value(field[field.len() - 3], 16) is Some);
    }
    if field.len() > 3 {
        assert(numeral::digit_value(field[field.len() - 4], 16) is Some);
    }
}

/// A text with a dot is no segment, and an IPv4 address has one.
proof fn lemma_ipv4_is_no_segment(field: Seq<char>)
    requires
        ipv4_read(field) is Some,
    ensures
        segment_read(field) is None,
        field.len() > 0,
{
    let ip = ipv4_read(field).unwrap();
    ipv4_addresses_have_one_text(field, ip);
    let parts = seq![
        numeral::decimal(ip.a as int),
        numeral::decimal(ip.b as int),
        numeral::decimal(ip.c as int),
        numeral::decimal(ip.d as int),
    ];
    lemma_joined_four(parts);
    assert(field[parts[0].len() as int] == '.');
    assert(numeral::digit_value('.', 16) is None);
}

/// Fields up to the end are read as segments exactly if they spell them.
proof fn lemma_final_spells(fields: Seq<Seq<char>>, segments: Seq<u16>)
    ensures
        final_segments_read(fields) == Some(segments) <==> spells_to_the_end(fields, segments),
{
    lemma_plain_spells(fields, segments);
    if fields.len() > 0 {
        let n = fields.len() - 1;
        let init = fields.drop_last();
        if let Some(ip) = ipv4_read(fields.last()) {
            lemma_ipv4_is_no_segment(fields.last());
            assert(plain_segments_read(fields) is None);
            assert(ip.a * 256 + ip.b <= 0xffff && ip.c * 256 + ip.d <= 0xffff);
            if final_segments_read(fields) == Some(segments) {
                let before = plain_segments_read(init).unwrap();
                lemma_plain_spells(init, before);
                assert(segments == before + segments_of_ipv4(ip));
                assert(segments.take(n) == before);
            }
            if spells_to_the_end(fields, segments) {
                let before = segments.take(n);
                lemma_plain_spells(init, before);
                assert(segments == before + segments_of_ipv4(ip));
            }
        }
    }
    if plain_segments_read(fields) is Some && plain_segments_read(fields) != Some(segments) {
        if spells_to_the_end(fields, segments) {
            lemma_ipv4_is_no_segment(fields.last());
            assert(false);
        }
    }
}

/// Fields that spell segments are not empty and hold no colon.
proof fn lemma_spelling_lacks_colon(fields: Seq<Seq<char>>, segments: Seq<u16>)
    requires
        spells_to_the_end(fields, segments),
    ensures
        forall|i: int|
            0 <= i < fields.len() ==> (#[trigger] fields[i]).len() > 0 && text::lacks(
                fields[i],
                ':',
            ),
{
    assert forall|i: int| 0 <= i < fields.len() implies (#[trigger] fields[i]).len() > 0
        && text::lacks(fields[i], ':') by {
        if ipv4_read(fields[i]) is Some {
            lemma_ipv4_is_no_segment(fields[i]);
            lemma_ipv4_lacks_colon(fields[i]);
        } else {
            if !spells(fields, segments) {
                assert(fields.drop_last()[i] == fields[i]);
            }
            assert(numeral::all_digits(fields[i], 16) && fields[i].len() >= 1);
            assert forall|j: int| 0 <= j < fields[i].len() implies #[trigger] fields[i][j]
                != ':' by {
                assert(numeral::digit_value(fields[i][j], 16) is Some);
            }
        }
    }
}

/// The fields of a text that was joined of fields that spell segments, and its ends.
proof fn lemma_spelling_joined(fields: Seq<Seq<char>>, segments: Seq<u16>)
    requires
        spells_to_the_end(fields, segments),
    ensures
        colon_fields(text::joined(fields, seq![':'])) == fields,
        forall|i: int| !#[trigger] is_gap(text::joined(fields, seq![':']), i),
        text::joined(fields, seq![':']).len() > 0 ==> text::joined(fields, seq![':']).last() != ':',
{
    lemma_spelling_lacks_colon(fields, segments);
    if fields.len() > 0 {
        lemma_joined_no_gap(fields);
        text::split_undoes_joined(fields, ':');
    } else {
        assert(colon_fields(Seq::empty()) == fields);
    }
}

/// The fields of a text, joined, are the text.
proof fn lemma_colon_fields_joined(s: Seq<char>)
    ensures
        text::joined(colon_fields(s), seq![':']) == s,
{
    text::joined_undoes_split(s, ':');
}

/// The fields of a text that is read as an IPv6 address spell it.
proof fn lemma_read_is_spelled(s: Seq<char>, segments: Seq<u16>) -> (form: (
    Seq<Seq<char>>,
    Seq<Seq<char>>,
    int,
))
    requires
        ipv6_read(s) == Some(segments),
    ensures
        is_ipv6_form(s, segments, form.0, form.1, form.2),
{
    match first_gap(s, 0) {
        None => {
            let tail = colon_fields(s);
            let head = Seq::<Seq<char>>::empty();
            lemma_final_spells(tail, segments);
            lemma_colon_fields_joined(s);
            assert(segments.skip(0) == segments);
            assert(spells(head, segments.take(0)));
            (head, tail, 0)
        },
        Some(gap) => {
            lemma_found_gap(s, 0);
            let head = colon_fields(s.take(gap));
            let tail = colon_fields(s.skip(gap + 2));
            let head_segments = plain_segments_read(head).unwrap();
            let tail_segments = final_segments_read(tail).unwrap();
            lemma_plain_spells(head, head_segments);
            lemma_final_spells(tail, tail_segments);
            lemma_colon_fields_joined(s.take(gap));
            lemma_colon_fields_joined(s.skip(gap + 2));
            let zeros = 8 - head_segments.len() - tail_segments.len();
            assert(s == s.take(gap) + seq![':', ':'] + s.skip(gap + 2));
            assert(segments.take(head.len() as int) == head_segments);
            assert(segments.skip(head.len() + zeros) == tail_segments);
            (head, tail, zeros)
        },
    }
}

/// The first two colons of a text whose parts hold no two in a row stand between the parts.
proof fn lemma_gap_between(before: Seq<char>, behind: Seq<char>)
    requires
        forall|i: int| !#[trigger] is_gap(before, i),
        before.len() > 0 ==> before.last() != ':',
    ensures
        ({
            let s = before + seq![':', ':'] + behind;
            &&& first_gap(s, 0) == Some(before.len() as int)
            &&& s.take(before.len() as int) == before
            &&& s.skip(before.len() as int + 2) == behind
        }),
{
    let s = before + seq![':', ':'] + behind;
    let gap = before.len() as int;
    assert(is_gap(s, gap));
    assert forall|i: int| 0 <= i < gap implies !#[trigger] is_gap(s, i) by {
        if is_gap(s, i) {
            if i + 1 < gap {
                assert(is_gap(before, i));
            } else {
                assert(s[i] == before.last());
            }
        }
    }
    lemma_first_gap(s, 0, gap);
    assert(s.take(gap) == before);
    assert(s.skip(gap + 2) == behind);
}

/// A text whose fields spell an IPv6 address is read as it.
proof fn lemma_spelled_is_read(
    s: Seq<char>,
    segments: Seq<u16>,
    head: Seq<Seq<char>>,
    tail: Seq<Seq<char>>,
    zeros: int,
)
    requires
        is_ipv6_form(s, segments, head, tail, zeros),
    ensures
        ipv6_read(s) == Some(segments),
{
    let n = head.len() as int;
    let head_segments = segments.take(n);
    let tail_segments = segments.skip(n + zeros);
    lemma_plain_spells(head, head_segments);
    lemma_final_spells(tail, tail_segments);
    lemma_spelling_joined(head, head_segments);
    lemma_spelling_joined(tail, tail_segments);
    if zeros == 0 {
        assert(tail_segments == segments);
        lemma_no_gap(s, 0);
    } else {
        lemma_gap_between(text::joined(head, seq![':']), text::joined(tail, seq![':']));
        assert(segments == head_segments + Seq::new(
            (8 - head_segments.len() - tail_segments.len()) as nat,
            |i: int| 0u16,
        ) + tail_segments);
    }
}

/// A text is read as an IPv6 address exactly if it spells its eight segments, with a colon
/// between neighbours: each as one to four hexadecimal digits in either case, the last two
/// possibly as an IPv4 address, and with one row of zero segments possibly left out between
/// two colons.
pub proof fn ipv6_is_read_as_it_is_spelled(s: Seq<char>, segments: Seq<u16>)
    ensures
        ipv6_read(s) == Some(segments) <==> exists|
            head: Seq<Seq<char>>,
            tail: Seq<Seq<char>>,
            zeros: int,
        | #[trigger]
            is_ipv6_form(s, segments, head, tail, zeros),
{
    if ipv6_read(s) == Some(segments) {
        let form = lemma_read_is_spelled(s, segments);
        assert(is_ipv6_form(s, segments, form.0, form.1, form.2));
    }
    if exists|head: Seq<Seq<char>>, tail: Seq<Seq<char>>, zeros: int| #[trigger]
        is_ipv6_form(s, segments, head, tail, zeros) {
        let (head, tail, zeros) = choose|
            head: Seq<Seq<char>>,
            tail: Seq<Seq<char>>,
            zeros: int,
        | #[trigger]
            is_ipv6_form(s, segments, head, tail, zeros);
        lemma_spelled_is_read(s, segments, head, tail, zeros);
    }
}

/// Where a first place of two colons is found, two colons stand.
proof fn lemma_found_gap(s: Seq<char>, start: int)
    requires
        0 <= start,
    ensures
        first_gap(s, start) matches Some(gap) ==> is_gap(s, gap),
    decreases s.len() - start,
{
    if start + 1 < s.len() && !is_gap(s, start) {
        lemma_found_gap(s, start + 1);
    }
}

/// A text is read as an IPv4 address where it is one, otherwise as an IPv6 address.
pub proof fn addresses_of_both_families_are_read(s: Seq<char>, v4: Ipv4Addr, segments: Seq<u16>)
    ensures
        ip_read(s) == Some(IpAddrView::V4(v4)) <==> s == ipv4_text(v4),
        ip_read(s) == Some(IpAddrView::V6(segments)) <==> ipv6_read(s) == Some(segments),
{
    ipv4_addresses_have_one_text(s, v4);
    if ipv4_read(s) is Some {
        lemma_ipv4_is_no_ipv6(s);
    }
}

/// The text of an IPv4 address is no IPv6 address.
proof fn lemma_ipv4_is_no_ipv6(s: Seq<char>)
    requires
        ipv4_read(s) is Some,
    ensures
        ipv6_read(s) is None,
{
    lemma_ipv4_lacks_colon(s);
    lemma_ipv4_is_no_segment(s);
    assert forall|i: int| !#[trigger] is_gap(s, i) by {
        if is_gap(s, i) {
            assert(s[i] == ':');
        }
    }
    lemma_no_gap(s, 0);
    text::split_undoes_joined(seq![s], ':');
    assert(colon_fields(s) == seq![s]);
    assert(seq![s].drop_last() == Seq::<Seq<char>>::empty());
    assert(plain_segments_read(Seq::<Seq<char>>::empty()) == Some(Seq::<u16>::empty()));
    assert(final_segments_read(seq![s]).unwrap().len() == 2);
}

/// Addresses are seen with all that they hold, and a parse as the address that it gave,
/// where it gave one.
pub proof fn addresses_are_seen_as_they_are(
    ip: IpAddr,
    v4: SocketAddrV4,
    v6: SocketAddrV6,
    error: AddrParseError,
)
    ensures
        ip matches IpAddr::V4(address) ==> ip@ == IpAddrView::V4(address),
        ip matches IpAddr::V6(address) ==> ip@ == IpAddrView::V6(address.segments@),
        SocketAddr::V4(v4)@ == (SocketAddrView::V4 { ip: v4.ip, port: v4.port }),
        SocketAddr::V6(v6)@ == (SocketAddrView::V6 {
            segments: v6.ip.segments@,
            port: v6.port,
            flowinfo: v6.flowinfo,
            scope_id: v6.scope_id,
        }),
        parse_view(Ok(ip)) == Some(ip@),
        parse_view(Err(error)) is None,
{
}

} // verus!
