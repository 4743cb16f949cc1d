//! MAC address values and their canonical text form `xx:xx:xx:xx:xx:xx`.

use vstd::prelude::*;
use vstd::string::StrSliceExecFns;
use crate::error::{ParseError, WolGatewayError};

verus! {

/// A 6-octet hardware address.
pub type MacAddress = [u8; 6];

/// The lowercase hexadecimal digit for a value below 16.
pub open spec fn hex_char(n: u8) -> char {
    if n < 10 {
        ((n + 48) as u8) as char
    } else {
        ((n + 87) as u8) as char
    }
}

/// Two lowercase hex digits for one octet.
pub open spec fn octet_text(b: u8) -> Seq<char> {
    seq![hex_char(b / 16), hex_char(b % 16)]
}

/// The canonical text of a 6-octet address: lowercase hex octets joined by colons.
pub open spec fn mac_text(m: Seq<u8>) -> Seq<char> {
    octet_text(m[0]) + seq![':'] + octet_text(m[1]) + seq![':'] + octet_text(m[2]) + seq![':']
        + octet_text(m[3]) + seq![':'] + octet_text(m[4]) + seq![':'] + octet_text(m[5])
}

/// The text of the first `n` octets of `m`, joined by colons.
spec fn octets_text_prefix(m: Seq<u8>, n: nat) -> Seq<char>
    decreases n,
{
    if n == 0 {
        Seq::empty()
    } else if n == 1 {
        octet_text(m[0])
    } else {
        octets_text_prefix(m, (n - 1) as nat) + seq![':'] + octet_text(m[n - 1])
    }
}

/// The string holding one lowercase hex digit.
fn hex_digit_str(n: u8) -> (r: &'static str)
    requires
        n < 16,
    ensures
        r@ == seq![hex_char(n)],
{
    match n {
        0 => { proof { reveal_strlit("0"); } "0" },
        1 => { proof { reveal_strlit("1"); } "1" },
        2 => { proof { reveal_strlit("2"); } "2" },
        3 => { proof { reveal_strlit("3"); } "3" },
        4 => { proof { reveal_strlit("4"); } "4" },
        5 => { proof { reveal_strlit("5"); } "5" },
        6 => { proof { reveal_strlit("6"); } "6" },
        7 => { proof { reveal_strlit("7"); } "7" },
        8 => { proof { reveal_strlit("8"); } "8" },
        9 => { proof { reveal_strlit("9"); } "9" },
        10 => { proof { reveal_strlit("a"); } "a" },
        11 => { proof { reveal_strlit("b"); } "b" },
        12 => { proof { reveal_strlit("c"); } "c" },
        13 => { proof { reveal_strlit("d"); } "d" },
        14 => { proof { reveal_strlit("e"); } "e" },
        _ => { proof { reveal_strlit("f"); } "f" },
    }
}

/// Formats a MAC address as `xx:xx:xx:xx:xx:xx` in lowercase hex.
pub fn mac_to_string(mac: &MacAddress) -> (r: String)
    ensures
        r@ == mac_text(mac@),
{
    let mut s = String::new();
    let mut i: usize = 0;
    while i < 6
        invariant
            i <= 6,
            s@ == octets_text_prefix(mac@, i as nat),
        decreases 6 - i,
    {
        if i > 0 {
            proof { reveal_strlit(":"); }
            s.append(":");
        }
        let b = mac[i];
        s.append(hex_digit_str(b / 16));
        s.append(hex_digit_str(b % 16));
        proof {
            assert(octet_text(mac@[i as int]) == seq![hex_char(b / 16)] + seq![hex_char(b % 16)]);
        }
        i = i + 1;
    }
    proof {
        reveal_with_fuel(octets_text_prefix, 7);
    }
    s
}

/// The value of a hexadecimal digit, upper or lower case.
pub open spec fn hex_value(c: char) -> Option<u8> {
    if '0' <= c && c <= '9' {
        Some((c as u32 - '0' as u32) as u8)
    } else if 'a' <= c && c <= 'f' {
        Some((c as u32 - 'a' as u32 + 10) as u8)
    } else if 'A' <= c && c <= 'F' {
        Some((c as u32 - 'A' as u32 + 10) as u8)
    } else {
        None
    }
}

/// The pieces of `s` between occurrences of `sep`, as `str::split` yields them.
pub open spec fn split_on(s: Seq<char>, sep: char) -> Seq<Seq<char>>
    decreases s.len(),
{
    if s.len() == 0 {
        seq![Seq::empty()]
    } else {
        let init = split_on(s.drop_last(), sep);
        if s.last() == sep {
            init.push(Seq::empty())
        } else {
            init.update(init.len() - 1, init.last().push(s.last()))
        }
    }
}

/// The colon-separated parts of an address text.
pub open spec fn mac_parts(s: Seq<char>) -> Seq<Seq<char>> {
    split_on(s, ':')
}

/// A part is exactly two hexadecimal digits.
pub open spec fn part_valid(p: Seq<char>) -> bool {
    p.len() == 2 && hex_value(p[0]) is Some && hex_value(p[1]) is Some
}

/// The octet that a valid part denotes.
pub open spec fn part_octet(p: Seq<char>) -> u8 {
    (hex_value(p[0])->0 * 16 + hex_value(p[1])->0) as u8
}

/// The first part at index `i` or later (below 6) that is not valid.
pub open spec fn first_bad_part_from(parts: Seq<Seq<char>>, i: int) -> Option<int>
    decreases 6 - i,
{
    if i >= 6 {
        None
    } else if !part_valid(parts[i]) {
        Some(i)
    } else {
        first_bad_part_from(parts, i + 1)
    }
}

/// What parsing an address text yields: its six octets, or why it is rejected.
pub open spec fn parse_mac_text(s: Seq<char>) -> Result<Seq<u8>, ParseError> {
    let parts = mac_parts(s);
    if parts.len() != 6 {
        Err(ParseError::WrongPartCount { count: parts.len() as usize })
    } else {
        match first_bad_part_from(parts, 0) {
            Some(i) => if parts[i].len() != 2 {
                Err(ParseError::BadPartLength { part: i as usize })
            } else {
                Err(ParseError::BadHexDigit { part: i as usize })
            },
            None => Ok(Seq::new(6, |i: int| part_octet(parts[i]))),
        }
    }
}

/// ASCII lowercase of one character; other characters are kept.
pub open spec fn ascii_lower(c: char) -> char {
    if 'A' <= c && c <= 'Z' {
        (((c as u32) + 32) as u8) as char
    } else {
        c
    }
}

/// The parts joined with `sep` between consecutive ones.
pub open spec fn join_with(ps: Seq<Seq<char>>, sep: char) -> Seq<char>
    decreases ps.len(),
{
    if ps.len() == 0 {
        Seq::empty()
    } else if ps.len() == 1 {
        ps[0]
    } else {
        join_with(ps.drop_last(), sep) + seq![sep] + ps.last()
    }
}

proof fn lemma_split_nonempty(s: Seq<char>, sep: char)
    ensures
        split_on(s, sep).len() >= 1,
    decreases s.len(),
{
    if s.len() > 0 {
        lemma_split_nonempty(s.drop_last(), sep);
    }
}

/// Joining the pieces of a split gives the text back.
proof fn lemma_join_split(s: Seq<char>, sep: char)
    ensures
        join_with(split_on(s, sep), sep) == s,
    decreases s.len(),
{
    if s.len() > 0 {
        let t = s.drop_last();
        let c = s.last();
        lemma_join_split(t, sep);
        lemma_split_nonempty(t, sep);
        let init = split_on(t, sep);
        if c == sep {
            assert(init.push(Seq::empty()).drop_last() =~= init);
            assert(s =~= t + seq![sep] + Seq::<char>::empty());
        } else {
            let ps = init.update(init.len() - 1, init.last().push(c));
            if init.len() == 1 {
                assert(s =~= t.push(c));
            } else {
                assert(ps.drop_last() =~= init.drop_last());
                assert(t == join_with(init.drop_last(), sep) + seq![sep] + init.last());
                assert(s =~= t.push(c));
                assert(s =~= join_with(init.drop_last(), sep) + seq![sep] + init.last().push(c));
            }
        }
    }
}

/// With no bad part from `i` on, every part from `i` to 5 is valid.
proof fn lemma_parts_valid_from(parts: Seq<Seq<char>>, i: int)
    requires
        0 <= i <= 6,
        first_bad_part_from(parts, i) is None,
    ensures
        forall|j: int| i <= j < 6 ==> part_valid(#[trigger] parts[j]),
    decreases 6 - i,
{
    if i < 6 {
        lemma_parts_valid_from(parts, i + 1);
    }
}

/// The digit written for a hex digit's value is that digit in lowercase.
proof fn lemma_hex_char_of_value(c: char)
    requires
        hex_value(c) is Some,
    ensures
        hex_char(hex_value(c)->0) == ascii_lower(c),
{
}

/// Formatting the octet of a valid part gives the part in lowercase.
proof fn lemma_octet_text_of_part(p: Seq<char>)
    requires
        part_valid(p),
    ensures
        octet_text(part_octet(p)) == p.map_values(|c: char| ascii_lower(c)),
{
    let h = hex_value(p[0])->0;
    let l = hex_value(p[1])->0;
    assert(h < 16 && l < 16);
    let b = part_octet(p);
    assert(b / 16 == h && b % 16 == l) by (nonlinear_arith)
        requires
            h < 16,
            l < 16,
            b == (h * 16 + l) as u8,
    ;
    lemma_hex_char_of_value(p[0]);
    lemma_hex_char_of_value(p[1]);
    assert(octet_text(b) =~= p.map_values(|c: char| ascii_lower(c)));
}

/// Parsing a well-formed address text and formatting the octets gives the
/// text back, in lowercase.
pub proof fn lemma_mac_text_round_trip(s: Seq<char>)
    requires
        parse_mac_text(s) is Ok,
    ensures
        mac_text(parse_mac_text(s)->Ok_0) == s.map_values(|c: char| ascii_lower(c)),
{
    let parts = mac_parts(s);
    let m = parse_mac_text(s)->Ok_0;
    lemma_join_split(s, ':');
    lemma_parts_valid_from(parts, 0);
    assert forall|i: int| 0 <= i < 6 implies octet_text(#[trigger] m[i])
        == parts[i].map_values(|c: char| ascii_lower(c)) by {
        lemma_octet_text_of_part(parts[i]);
    }
    reveal_with_fuel(join_with, 6);
    assert(s == parts[0] + seq![':'] + parts[1] + seq![':'] + parts[2] + seq![':'] + parts[3]
        + seq![':'] + parts[4] + seq![':'] + parts[5]);
    assert(mac_text(m) =~= s.map_values(|c: char| ascii_lower(c)));
}

/// The value of a hexadecimal digit.
fn hex_digit_value(c: char) -> (r: Option<u8>)
    ensures
        r == hex_value(c),
{
    if '0' <= c && c <= '9' {
        Some((c as u32 - '0' as u32) as u8)
    } else if 'a' <= c && c <= 'f' {
        Some((c as u32 - 'a' as u32 + 10) as u8)
    } else if 'A' <= c && c <= 'F' {
        Some((c as u32 - 'A' as u32 + 10) as u8)
    } else {
        None
    }
}

/// Splits `s` at each colon.
fn split_colons(s: &str) -> (parts: Vec<Vec<char>>)
    ensures
        parts@.map_values(|p: Vec<char>| p@) == mac_parts(s@),
{
    let n = s.unicode_len();
    let mut done: Vec<Vec<char>> = Vec::new();
    let mut cur: Vec<char> = Vec::new();
    let mut i: usize = 0;
    assert(s@.take(0) =~= Seq::<char>::empty());
    assert(done@.map_values(|p: Vec<char>| p@).push(cur@) =~= split_on(s@.take(0), ':'));
    while i < n
        invariant
            n == s@.len(),
            i <= n,
            done@.map_values(|p: Vec<char>| p@).push(cur@) == split_on(s@.take(i as int), ':'),
        decreases n - i,
    {
        let c = s.get_char(i);
        let ghost before = done@.map_values(|p: Vec<char>| p@).push(cur@);
        assert(s@.take(i + 1).drop_last() =~= s@.take(i as int));
        assert(s@.take(i + 1).last() == c);
        let ghost done_before = done@.map_values(|p: Vec<char>| p@);
        if c == ':' {
            let ghost cur_before = cur@;
            done.push(cur);
            assert(done@.map_values(|p: Vec<char>| p@) =~= done_before.push(cur_before));
            cur = Vec::new();
            assert(done@.map_values(|p: Vec<char>| p@).push(cur@) =~= before.push(Seq::empty()));
        } else {
            cur.push(c);
            assert(done@.map_values(|p: Vec<char>| p@).push(cur@) =~= before.update(
                before.len() - 1,
                before.last().push(c),
            ));
        }
        i = i + 1;
    }
    assert(s@.take(n as int) =~= s@);
    let ghost done_before = done@.map_values(|p: Vec<char>| p@);
    let ghost cur_before = cur@;
    done.push(cur);
    assert(done@.map_values(|p: Vec<char>| p@) =~= done_before.push(cur_before));
    done
}

/// Parses `xx:xx:xx:xx:xx:xx` (hex digits in either case) into six octets.
///
/// The text must split at colons into exactly six parts, each of exactly two
/// hexadecimal digits; the first part that breaks this is reported.
pub fn parse_mac(mac_str: &str) -> (r: Result<MacAddress, ParseError>)
    ensures
        match parse_mac_text(mac_str@) {
            Ok(m) => r is Ok && r->Ok_0@ == m,
            Err(e) => r == Err::<MacAddress, ParseError>(e),
        },
{
    let parts = split_colons(mac_str);
    let ghost ps = mac_parts(mac_str@);
    if parts.len() != 6 {
        return Err(ParseError::WrongPartCount { count: parts.len() });
    }
    let mut octets: Vec<u8> = Vec::new();
    let mut i: usize = 0;
    while i < 6
        invariant
            i <= 6,
            parts@.map_values(|p: Vec<char>| p@) == ps,
            ps == mac_parts(mac_str@),
            ps.len() == 6,
            octets@.len() == i,
            first_bad_part_from(ps, 0) == first_bad_part_from(ps, i as int),
            forall|j: int| 0 <= j < i ==> octets@[j] == part_octet(#[trigger] ps[j]),
        decreases 6 - i,
    {
        let part = &parts[i];
        assert(part@ == ps[i as int]);
        if part.len() != 2 {
            assert(first_bad_part_from(ps, i as int) == Some(i as int));
            return Err(ParseError::BadPartLength { part: i });
        }
        let hi = hex_digit_value(part[0]);
        let lo = hex_digit_value(part[1]);
        match (hi, lo) {
            (Some(h), Some(l)) => {
                octets.push(h * 16 + l);
            },
            _ => {
                assert(first_bad_part_from(ps, i as int) == Some(i as int));
                return Err(ParseError::BadHexDigit { part: i });
            },
        }
        i = i + 1;
    }
    let mac: MacAddress = [octets[0], octets[1], octets[2], octets[3], octets[4], octets[5]];
    assert(mac@ =~= Seq::new(6, |j: int| part_octet(ps[j])));
    Ok(mac)
}

/// Parses a MAC address text as `parse_mac` does, reporting a rejection as a
/// gateway error.
pub fn parse_mac_address_string(mac_str: &str) -> (r: Result<MacAddress, WolGatewayError>)
    ensures
        match parse_mac_text(mac_str@) {
            Ok(m) => r is Ok && r->Ok_0@ == m,
            Err(e) => r == Err::<MacAddress, WolGatewayError>(WolGatewayError::WakeOnLanParseError(e)),
        },
{
    match parse_mac(mac_str) {
        Ok(m) => Ok(m),
        Err(e) => Err(WolGatewayError::WakeOnLanParseError(e)),
    }
}

} // verus!
