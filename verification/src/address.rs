//! The listen address of the HTTP trigger, in `host:port` form.

use vstd::prelude::*;
use vstd::string::StrSliceExecFns;
use vstd::string::StringExecFns;

verus! {

/// Name of the environment variable that overrides the HTTP listen address.
pub const SPIN_HTTP_LISTEN_ADDR_ENV: &'static str = "SPIN_HTTP_LISTEN_ADDR";

/// The address the HTTP trigger listens on when the environment names none.
pub const SPIN_ADDR_DEFAULT: &'static str = "0.0.0.0:80";

/// A listen address split into its host text and its port.
#[derive(Clone, Debug, PartialEq, Eq)]
pub struct ListenAddress {
    pub host: String,
    pub port: u16,
}

impl View for ListenAddress {
    type V = (Seq<char>, u16);

    open spec fn view(&self) -> (Seq<char>, u16) {
        (self.host@, self.port)
    }
}

/// Whether `c` is one of the ten decimal digits.
pub open spec fn is_digit(c: char) -> bool {
    '0' <= c <= '9'
}

/// The number that a text of decimal digits denotes.
pub open spec fn digits_value(s: Seq<char>) -> nat
    decreases s.len(),
{
    if s.len() == 0 {
        0
    } else {
        digits_value(s.drop_last()) * 10 + ((s.last() as u32) - ('0' as u32)) as nat
    }
}

/// Whether every character of `s` is a decimal digit.
pub open spec fn all_digits(s: Seq<char>) -> bool {
    forall|i: int| 0 <= i < s.len() ==> is_digit(#[trigger] s[i])
}

/// The port that a text denotes: an optional `+`, then one or more decimal
/// digits whose value is at most 65535. Leading zeros are accepted.
pub open spec fn port_of(s: Seq<char>) -> Option<u16> {
    let digits = if s.len() > 0 && s[0] == '+' {
        s.subrange(1, s.len() as int)
    } else {
        s
    };
    if digits.len() > 0 && all_digits(digits) && digits_value(digits) <= 65535 {
        Some(digits_value(digits) as u16)
    } else {
        None
    }
}

/// Whether `i` is the position of the last colon of `s`.
pub open spec fn is_last_colon(s: Seq<char>, i: int) -> bool {
    &&& 0 <= i < s.len()
    &&& s[i] == ':'
    &&& forall|j: int| i < j < s.len() ==> #[trigger] s[j] != ':'
}

/// Whether `s` holds a colon at all.
pub open spec fn has_colon(s: Seq<char>) -> bool {
    exists|i: int| 0 <= i < s.len() && #[trigger] s[i] == ':'
}

/// The position of the last colon of `s`, where it has one.
pub open spec fn last_colon(s: Seq<char>) -> int {
    choose|i: int| is_last_colon(s, i)
}

/// The address that a text denotes: what stands before the last colon is the
/// host, what stands behind it is the port. A text without a colon, or with a
/// port that `port_of` refuses, denotes no address.
pub open spec fn listen_address_of(s: Seq<char>) -> Option<(Seq<char>, u16)> {
    if !has_colon(s) {
        None
    } else {
        let i = last_colon(s);
        match port_of(s.subrange(i + 1, s.len() as int)) {
            Some(port) => Some((s.subrange(0, i), port)),
            None => None,
        }
    }
}

/// The last colon of a text is unique, so any position that qualifies is it.
pub proof fn lemma_last_colon_unique(s: Seq<char>, i: int)
    requires
        is_last_colon(s, i),
    ensures
        has_colon(s),
        last_colon(s) == i,
{
    let j = last_colon(s);
    assert(is_last_colon(s, j));
    if j < i {
        assert(s[i] != ':');
    } else if i < j {
        assert(s[j] != ':');
    }
}

/// A longer text of digits denotes no smaller a number than its prefixes.
pub proof fn lemma_digits_value_monotonic(s: Seq<char>, n: int)
    requires
        0 <= n <= s.len(),
        all_digits(s),
    ensures
        digits_value(s.subrange(0, n)) <= digits_value(s),
    decreases s.len() - n,
{
    if n == s.len() {
        assert(s.subrange(0, n) == s);
    } else {
        let longer = s.subrange(0, n + 1);
        assert(longer.drop_last() == s.subrange(0, n));
        assert(is_digit(s[n]));
        assert(longer.last() == s[n]);
        lemma_digits_value_monotonic(s, n + 1);
    }
}

/// Finds the position of the last colon of `text`.
fn find_last_colon(text: &str) -> (found: Option<usize>)
    ensures
        match found {
            Some(i) => is_last_colon(text@, i as int),
            None => !has_colon(text@),
        },
{
    let len = text.unicode_len();
    let mut i: usize = len;
    while i > 0
        invariant
            i <= len,
            len == text@.len(),
            forall|j: int| i <= j < len ==> #[trigger] text@[j] != ':',
        decreases i,
    {
        i = i - 1;
        if text.get_char(i) == ':' {
            return Some(i);
        }
    }
    None
}

/// Reads a port from the characters of `text` from position `from` on.
fn parse_port(text: &str, from: usize) -> (port: Option<u16>)
    requires
        from <= text@.len(),
    ensures
        port == port_of(text@.subrange(from as int, text@.len() as int)),
{
    let len = text.unicode_len();
    let ghost whole = text@.subrange(from as int, len as int);
    let mut start: usize = from;
    if start < len && text.get_char(start) == '+' {
        start = start + 1;
    }
    let ghost digits = text@.subrange(start as int, len as int);
    assert(digits == if whole.len() > 0 && whole[0] == '+' {
        whole.subrange(1, whole.len() as int)
    } else {
        whole
    });
    let ghost expected = port_of(whole);
    if start == len {
        return None;
    }
    let mut value: u32 = 0;
    let mut i: usize = start;
    while i < len
        invariant
            start <= i <= len,
            len == text@.len(),
            digits == text@.subrange(start as int, len as int),
            from <= text@.len(),
            expected == port_of(text@.subrange(from as int, text@.len() as int)),
            expected == (if all_digits(digits) && digits_value(digits) <= 65535 {
                Some(digits_value(digits) as u16)
            } else {
                None
            }),
            all_digits(digits.subrange(0, i - start)),
            value == digits_value(digits.subrange(0, i - start)),
            value <= 65535,
        decreases len - i,
    {
        let c = text.get_char(i);
        if !('0' <= c && c <= '9') {
            assert(digits[i - start] == c);
            return None;
        }
        let digit: u32 = (c as u32) - ('0' as u32);
        let next: u32 = value * 10 + digit;
        proof {
            let longer = digits.subrange(0, i + 1 - start);
            assert(longer.drop_last() == digits.subrange(0, i - start));
            assert(longer.last() == c);
            assert forall|j: int| 0 <= j < longer.len() implies is_digit(#[trigger] longer[j]) by {
                if j < i - start {
                    assert(digits.subrange(0, i - start)[j] == longer[j]);
                }
            }
            assert(next == digits_value(longer));
        }
        if next > 65535 {
            proof {
                if all_digits(digits) {
                    lemma_digits_value_monotonic(digits, i + 1 - start);
                }
            }
            return None;
        }
        value = next;
        i = i + 1;
    }
    assert(digits.subrange(0, len - start) == digits);
    assert(expected == port_of(text@.subrange(from as int, text@.len() as int)));
    Some(value as u16)
}

/// Splits `text` into host and port.
///
/// Succeeds exactly on the texts that denote an address: those with a colon
/// whose part behind the last colon is a port.
pub fn parse_listen_address(text: &str) -> (address: Option<ListenAddress>)
    ensures
        match address {
            Some(a) => listen_address_of(text@) == Some(a@),
            None => listen_address_of(text@) is None,
        },
{
    let len = text.unicode_len();
    match find_last_colon(text) {
        None => None,
        Some(i) => {
            assert(i < len);
            proof {
                lemma_last_colon_unique(text@, i as int);
            }
            match parse_port(text, i + 1) {
                None => None,
                Some(port) => {
                    let host = String::from_str(text.substring_char(0, i));
                    Some(ListenAddress { host, port })
                },
            }
        },
    }
}

/// The text of the address to listen on: what the environment names, or the
/// default where it names nothing.
pub open spec fn listen_text_of(configured: Option<Seq<char>>) -> Seq<char> {
    match configured {
        Some(text) => text,
        None => SPIN_ADDR_DEFAULT@,
    }
}

/// The default listen address denotes host `0.0.0.0` and port 80.
pub proof fn lemma_default_address()
    ensures
        listen_address_of(SPIN_ADDR_DEFAULT@) == Some(("0.0.0.0"@, 80u16)),
{
    reveal_strlit("0.0.0.0:80");
    reveal_strlit("0.0.0.0");
    let s = SPIN_ADDR_DEFAULT@;
    assert(s.len() == 10);
    assert(s[7] == ':');
    assert(is_last_colon(s, 7));
    lemma_last_colon_unique(s, 7);
    let p = s.subrange(8, 10);
    assert(p.len() == 2 && p[0] == '8' && p[1] == '0');
    assert(p.drop_last().len() == 1 && p.drop_last()[0] == '8');
    assert(p.drop_last().drop_last().len() == 0);
    reveal_with_fuel(digits_value, 3);
    assert(digits_value(p) == 80);
    assert(all_digits(p));
    assert(s.subrange(0, 7) == "0.0.0.0"@);
}

} // verus!
