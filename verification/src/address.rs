//! Hardware addresses and their textual form.
//!
//! The text is a run of tokens parted by `-`. An address has six tokens, each
//! of exactly two hexadecimal digits.

use vstd::prelude::*;
use vstd::string::*;
use crate::error::ConfigError;

verus! {

/// Number of octets in a hardware address.
pub const ADDRESS_LEN: usize = 6;

/// The value of one hexadecimal digit, in either case.
pub open spec fn hex_value(c: char) -> Option<u8> {
    let v = c as u32;
    if '0' as u32 <= v <= '9' as u32 {
        Some((v - '0' as u32) as u8)
    } else if 'A' as u32 <= v <= 'F' as u32 {
        Some((v - 'A' as u32 + 10) as u8)
    } else if 'a' as u32 <= v <= 'f' as u32 {
        Some((v - 'a' as u32 + 10) as u8)
    } else {
        None
    }
}

/// The octet that a token denotes: two hexadecimal digits, high digit first.
pub open spec fn octet_of(token: Seq<char>) -> Option<u8> {
    if token.len() == 2 {
        match (hex_value(token[0]), hex_value(token[1])) {
            (Some(high), Some(low)) => Some((16 * high + low) as u8),
            _ => None,
        }
    } else {
        None
    }
}

/// The tokens of `s` that are still to come when a scan stands at `at` and
/// the token it is reading began at `start`.
pub open spec fn tokens_from(s: Seq<char>, start: int, at: int) -> Seq<Seq<char>>
    decreases s.len() - at,
{
    if at >= s.len() {
        seq![s.subrange(start, s.len() as int)]
    } else if s[at] == '-' {
        seq![s.subrange(start, at)] + tokens_from(s, at + 1, at + 1)
    } else {
        tokens_from(s, start, at + 1)
    }
}

/// The text split at every `-`; the empty text is one empty token.
pub open spec fn tokens(s: Seq<char>) -> Seq<Seq<char>> {
    tokens_from(s, 0, 0)
}

/// Index of the first token at or after `from` that denotes no octet, or the
/// number of tokens if there is none.
pub open spec fn first_malformed(ts: Seq<Seq<char>>, from: int) -> int
    decreases ts.len() - from,
{
    if from >= ts.len() {
        ts.len() as int
    } else if octet_of(ts[from]) is None {
        from
    } else {
        first_malformed(ts, from + 1)
    }
}

/// What an address text means: its six octets, or the part at fault. The first
/// malformed token is at fault; where every token is well formed but there are
/// not six of them, the whole text is.
pub open spec fn parse_text(s: Seq<char>) -> Result<Seq<u8>, Seq<char>> {
    let ts = tokens(s);
    let bad = first_malformed(ts, 0);
    if bad < ts.len() {
        Err(ts[bad])
    } else if ts.len() != ADDRESS_LEN {
        Err(s)
    } else {
        Ok(Seq::new(ADDRESS_LEN as nat, |k: int| octet_of(ts[k]).unwrap()))
    }
}

/// A token that denotes no octet, with well-formed tokens only before it, is
/// the first malformed one.
pub proof fn lemma_first_malformed_at(ts: Seq<Seq<char>>, from: int, k: int)
    requires
        0 <= from <= k < ts.len(),
        octet_of(ts[k]) is None,
        forall|j: int| from <= j < k ==> octet_of(#[trigger] ts[j]) is Some,
    ensures
        first_malformed(ts, from) == k,
    decreases k - from,
{
    if from < k {
        lemma_first_malformed_at(ts, from + 1, k);
    }
}

/// Where every token denotes an octet, none is malformed.
pub proof fn lemma_none_malformed(ts: Seq<Seq<char>>, from: int)
    requires
        0 <= from <= ts.len(),
        forall|j: int| from <= j < ts.len() ==> octet_of(#[trigger] ts[j]) is Some,
    ensures
        first_malformed(ts, from) == ts.len(),
    decreases ts.len() - from,
{
    if from < ts.len() {
        lemma_none_malformed(ts, from + 1);
    }
}

/// Where the token that a scan at `at` is reading ends: at the next `-`, or at
/// the end of the text.
pub open spec fn token_end(s: Seq<char>, at: int) -> int
    decreases s.len() - at,
{
    if at >= s.len() {
        s.len() as int
    } else if s[at] == '-' {
        at
    } else {
        token_end(s, at + 1)
    }
}

/// The texts that are addresses: seventeen characters, a `-` after every two
/// hexadecimal digits.
pub open spec fn is_address_text(s: Seq<char>) -> bool {
    &&& s.len() == 17
    &&& forall|i: int|
        0 <= i < 17 ==> if i % 3 == 2 {
            s[i] == '-'
        } else {
            hex_value(#[trigger] s[i]) is Some
        }
}

/// The octet that an address text holds in place `k`.
pub open spec fn octet_at(s: Seq<char>, k: int) -> u8 {
    (16 * hex_value(s[3 * k]).unwrap() + hex_value(s[3 * k + 1]).unwrap()) as u8
}

/// The token that is being read reaches up to the next `-` or the end of the
/// text, and the scan goes on behind that `-`.
pub proof fn lemma_token_reaches_end(s: Seq<char>, start: int, at: int)
    requires
        0 <= start <= at <= s.len(),
    ensures
        at <= token_end(s, at) <= s.len(),
        forall|i: int| at <= i < token_end(s, at) ==> s[i] != '-',
        token_end(s, at) < s.len() ==> s[token_end(s, at)] == '-',
        tokens_from(s, start, at).len() >= 1,
        tokens_from(s, start, at)[0] == s.subrange(start, token_end(s, at)),
        token_end(s, at) == s.len() ==> tokens_from(s, start, at).len() == 1,
        token_end(s, at) < s.len() ==> tokens_from(s, start, at) == seq![
            s.subrange(start, token_end(s, at)),
        ] + tokens_from(s, token_end(s, at) + 1, token_end(s, at) + 1),
    decreases s.len() - at,
{
    if at < s.len() && s[at] != '-' {
        lemma_token_reaches_end(s, start, at + 1);
    }
}

/// Where no token is malformed, each denotes an octet.
pub proof fn lemma_all_well_formed(ts: Seq<Seq<char>>, from: int)
    requires
        0 <= from <= ts.len(),
        first_malformed(ts, from) >= ts.len(),
    ensures
        forall|j: int| from <= j < ts.len() ==> octet_of(#[trigger] ts[j]) is Some,
    decreases ts.len() - from,
{
    if from < ts.len() {
        lemma_all_well_formed(ts, from + 1);
    }
}

/// One well-formed token that is not the last: it spans `start..start + 2`,
/// a `-` follows it, and the remaining tokens are those behind that `-`.
proof fn lemma_inner_token(s: Seq<char>, start: int, ts: Seq<Seq<char>>)
    requires
        0 <= start <= s.len(),
        ts == tokens_from(s, start, start),
        ts.len() >= 2,
        octet_of(ts[0]) is Some,
    ensures
        start + 2 < s.len(),
        hex_value(s[start]) is Some,
        hex_value(s[start + 1]) is Some,
        octet_of(ts[0]) == Some((16 * hex_value(s[start]).unwrap() + hex_value(s[start + 1]).unwrap()) as u8),
        s[start + 2] == '-',
        ts.drop_first() == tokens_from(s, start + 3, start + 3),
{
    lemma_token_reaches_end(s, start, start);
    let e = token_end(s, start);
    let rest = tokens_from(s, e + 1, e + 1);
    assert(ts.drop_first() =~= rest);
    assert(ts[0][0] == s[start]);
    assert(ts[0][1] == s[start + 1]);
}

/// The last token, if well formed, spans the last two characters.
proof fn lemma_last_token(s: Seq<char>, start: int, ts: Seq<Seq<char>>)
    requires
        0 <= start <= s.len(),
        ts == tokens_from(s, start, start),
        ts.len() == 1,
        octet_of(ts[0]) is Some,
    ensures
        start + 2 == s.len(),
        hex_value(s[start]) is Some,
        hex_value(s[start + 1]) is Some,
        octet_of(ts[0]) == Some((16 * hex_value(s[start]).unwrap() + hex_value(s[start + 1]).unwrap()) as u8),
{
    lemma_token_reaches_end(s, start, start);
    let e = token_end(s, start);
    if e < s.len() {
        lemma_token_reaches_end(s, e + 1, e + 1);
    }
    assert(ts[0][0] == s[start]);
    assert(ts[0][1] == s[start + 1]);
}

/// A pair of hexadecimal digits followed by `-` or by the end of the text is
/// one token.
proof fn lemma_pair_is_token(s: Seq<char>, start: int)
    requires
        0 <= start,
        start + 2 <= s.len(),
        hex_value(s[start]) is Some,
        hex_value(s[start + 1]) is Some,
        start + 2 == s.len() || s[start + 2] == '-',
    ensures
        token_end(s, start) == start + 2,
        octet_of(s.subrange(start, start + 2)) == Some(
            (16 * hex_value(s[start]).unwrap() + hex_value(s[start + 1]).unwrap()) as u8,
        ),
{
    reveal_with_fuel(token_end, 3);
    let t = s.subrange(start, start + 2);
    assert(t[0] == s[start]);
    assert(t[1] == s[start + 1]);
}

/// The texts that are read as an address are exactly those of the shape
/// `HH-HH-HH-HH-HH-HH`, and the octets read are the six pairs of digits, in
/// order. Every other text is rejected.
pub proof fn lemma_accepted_texts(s: Seq<char>)
    ensures
        parse_text(s) is Ok <==> is_address_text(s),
        is_address_text(s) ==> parse_text(s) == Ok::<Seq<u8>, Seq<char>>(
            Seq::new(ADDRESS_LEN as nat, |k: int| octet_at(s, k)),
        ),
{
    let ts = tokens(s);
    if is_address_text(s) {
        assert(hex_value(s[0]) is Some && hex_value(s[1]) is Some);
        assert(hex_value(s[3]) is Some && hex_value(s[4]) is Some);
        assert(hex_value(s[6]) is Some && hex_value(s[7]) is Some);
        assert(hex_value(s[9]) is Some && hex_value(s[10]) is Some);
        assert(hex_value(s[12]) is Some && hex_value(s[13]) is Some);
        assert(hex_value(s[15]) is Some && hex_value(s[16]) is Some);
        assert(s[2] == '-' && s[5] == '-' && s[8] == '-' && s[11] == '-' && s[14] == '-');
        lemma_pair_is_token(s, 0);
        lemma_pair_is_token(s, 3);
        lemma_pair_is_token(s, 6);
        lemma_pair_is_token(s, 9);
        lemma_pair_is_token(s, 12);
        lemma_pair_is_token(s, 15);
        lemma_token_reaches_end(s, 0, 0);
        lemma_token_reaches_end(s, 3, 3);
        lemma_token_reaches_end(s, 6, 6);
        lemma_token_reaches_end(s, 9, 9);
        lemma_token_reaches_end(s, 12, 12);
        lemma_token_reaches_end(s, 15, 15);
        let expected = seq![
            s.subrange(0, 2),
            s.subrange(3, 5),
            s.subrange(6, 8),
            s.subrange(9, 11),
            s.subrange(12, 14),
            s.subrange(15, 17),
        ];
        assert(tokens_from(s, 15, 15) =~= seq![s.subrange(15, 17)]);
        assert(tokens_from(s, 12, 12) =~= seq![s.subrange(12, 14), s.subrange(15, 17)]);
        assert(tokens_from(s, 9, 9) =~= seq![
            s.subrange(9, 11),
            s.subrange(12, 14),
            s.subrange(15, 17),
        ]);
        assert(tokens_from(s, 6, 6) =~= seq![
            s.subrange(6, 8),
            s.subrange(9, 11),
            s.subrange(12, 14),
            s.subrange(15, 17),
        ]);
        assert(tokens_from(s, 3, 3) =~= seq![
            s.subrange(3, 5),
            s.subrange(6, 8),
            s.subrange(9, 11),
            s.subrange(12, 14),
            s.subrange(15, 17),
        ]);
        assert(ts =~= expected);
        lemma_none_malformed(ts, 0);
        assert(parse_text(s)->Ok_0 =~= Seq::new(ADDRESS_LEN as nat, |k: int| octet_at(s, k)));
    }
    if parse_text(s) is Ok {
        lemma_all_well_formed(ts, 0);
        let t1 = ts.drop_first();
        let t2 = t1.drop_first();
        let t3 = t2.drop_first();
        let t4 = t3.drop_first();
        let t5 = t4.drop_first();
        assert(t1[0] == ts[1] && t2[0] == ts[2] && t3[0] == ts[3] && t4[0] == ts[4] && t5[0]
            == ts[5]);
        lemma_inner_token(s, 0, ts);
        lemma_inner_token(s, 3, t1);
        lemma_inner_token(s, 6, t2);
        lemma_inner_token(s, 9, t3);
        lemma_inner_token(s, 12, t4);
        lemma_last_token(s, 15, t5);
        assert(is_address_text(s));
    }
}

/// A six-octet hardware address.
#[derive(Debug, Clone, Copy, PartialEq, Eq)]
pub struct MacAddress {
    octets: [u8; 6],
}

impl View for MacAddress {
    type V = Seq<u8>;

    closed spec fn view(&self) -> Seq<u8> {
        self.octets@
    }
}

/// Reads one hexadecimal digit.
pub fn hex_digit(c: char) -> (r: Option<u8>)
    ensures
        r == hex_value(c),
{
    let v: u32 = c as u32;
    if 0x30 <= v && v <= 0x39 {
        Some((v - 0x30) as u8)
    } else if 0x41 <= v && v <= 0x46 {
        Some((v - 0x41 + 10) as u8)
    } else if 0x61 <= v && v <= 0x66 {
        Some((v - 0x61 + 10) as u8)
    } else {
        None
    }
}

/// The character in place `at` of `text`. Where the text is known to be
/// ASCII, it is found in constant time.
fn char_at(text: &str, ascii: bool, at: usize) -> (c: char)
    requires
        at < text@.len(),
        ascii ==> text.is_ascii(),
    ensures
        c == text@[at as int],
{
    if ascii {
        text.get_ascii(at) as char
    } else {
        text.get_char(at)
    }
}

/// Reads the token that spans `start..end` of `text` as an octet.
fn read_octet(text: &str, ascii: bool, start: usize, end: usize) -> (r: Option<u8>)
    requires
        start <= end <= text@.len(),
        ascii ==> text.is_ascii(),
    ensures
        r == octet_of(text@.subrange(start as int, end as int)),
{
    if end - start != 2 {
        return None;
    }
    let high = hex_digit(char_at(text, ascii, start));
    let low = hex_digit(char_at(text, ascii, start + 1));
    match (high, low) {
        (Some(h), Some(l)) => Some(16 * h + l),
        _ => None,
    }
}

impl MacAddress {
    /// The address with the given octets.
    pub fn new(octets: [u8; 6]) -> (mac: MacAddress)
        ensures
            mac@ == octets@,
    {
        MacAddress { octets }
    }

    /// The six octets, in transmission order.
    pub fn octets(&self) -> (o: [u8; 6])
        ensures
            o@ == self@,
    {
        self.octets
    }

    /// An address always has six octets.
    pub proof fn lemma_len(self)
        ensures
            self@.len() == ADDRESS_LEN,
    {
    }

    /// Reads an address from text such as `AA-BB-CC-DD-EE-FF`.
    ///
    /// Succeeds exactly on texts of that shape, with the six pairs of digits
    /// as octets; otherwise fails with the part of the text at fault, as
    /// `parse_text` defines it.
    pub fn parse(text: &str) -> (r: Result<MacAddress, ConfigError>)
        ensures
            r is Ok <==> is_address_text(text@),
            match r {
                Ok(mac) => parse_text(text@) == Ok::<Seq<u8>, Seq<char>>(mac@) && mac@ == Seq::new(
                    ADDRESS_LEN as nat,
                    |k: int| octet_at(text@, k),
                ),
                Err(e) => parse_text(text@) == Err::<Seq<u8>, Seq<char>>(e.offending()),
            },
    {
        let ascii = text.is_ascii();
        let n = text.unicode_len();
        let mut octets: Vec<u8> = Vec::new();
        let mut start: usize = 0;
        let mut at: usize = 0;
        let ghost mut done: Seq<Seq<char>> = Seq::empty();
        while at < n
            invariant
                n == text@.len(),
                ascii ==> text.is_ascii(),
                start <= at <= n,
                tokens(text@) == done + tokens_from(text@, start as int, at as int),
                done.len() == octets.len(),
                forall|k: int| 0 <= k < done.len() ==> octet_of(#[trigger] done[k]) == Some(octets[k]),
            decreases n - at,
        {
            if char_at(text, ascii, at) == '-' {
                let ghost token = text@.subrange(start as int, at as int);
                match read_octet(text, ascii, start, at) {
                    Some(b) => {
                        octets.push(b);
                    },
                    None => {
                        let part = text.substring_char(start, at).to_owned();
                        proof {
                            let ts = tokens(text@);
                            assert(ts[done.len() as int] == token);
                            assert forall|j: int| 0 <= j < done.len() implies octet_of(
                                #[trigger] ts[j],
                            ) is Some by {
                                assert(ts[j] == done[j]);
                            }
                            lemma_first_malformed_at(ts, 0, done.len() as int);
                            lemma_accepted_texts(text@);
                        }
                        return Err(ConfigError::InvalidAddress { token: part });
                    },
                }
                proof {
                    assert(done + (seq![token] + tokens_from(text@, at + 1, at + 1)) =~= done.push(
                        token,
                    ) + tokens_from(text@, at + 1, at + 1));
                    done = done.push(token);
                }
                start = at + 1;
            }
            at = at + 1;
        }
        let ghost token = text@.subrange(start as int, n as int);
        proof {
            lemma_accepted_texts(text@);
        }
        match read_octet(text, ascii, start, n) {
            Some(b) => {
                octets.push(b);
            },
            None => {
                let part = text.substring_char(start, n).to_owned();
                proof {
                    let ts = tokens(text@);
                    assert(ts[done.len() as int] == token);
                    assert forall|j: int| 0 <= j < done.len() implies octet_of(
                        #[trigger] ts[j],
                    ) is Some by {
                        assert(ts[j] == done[j]);
                    }
                    lemma_first_malformed_at(ts, 0, done.len() as int);
                }
                return Err(ConfigError::InvalidAddress { token: part });
            },
        }
        proof {
            let ts = tokens(text@);
            assert(ts =~= done.push(token));
            assert forall|j: int| 0 <= j < ts.len() implies octet_of(#[trigger] ts[j]) == Some(
                octets[j],
            ) by {
                if j < done.len() {
                    assert(ts[j] == done[j]);
                }
            }
            lemma_none_malformed(ts, 0);
        }
        if octets.len() != 6 {
            return Err(ConfigError::InvalidAddress { token: text.to_owned() });
        }
        let mac = MacAddress {
            octets: [octets[0], octets[1], octets[2], octets[3], octets[4], octets[5]],
        };
        proof {
            let ts = tokens(text@);
            assert(mac@ =~= Seq::new(ADDRESS_LEN as nat, |k: int| octet_of(ts[k]).unwrap()));
        }
        Ok(mac)
    }
}

} // verus!
