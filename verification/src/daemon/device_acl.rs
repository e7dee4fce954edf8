//! Which devices may be offered: patterns of vendor and product.

use vstd::prelude::*;
use vstd::string::*;

use crate::api::json::texts;
use crate::daemon::config::SecurityConfig;
use crate::scan::{
    digit_value, digits_numeral, is_space, lemma_next_piece, lemma_one_piece, numeral,
    parse_numeral, pieces, same, split, split_on, trim, trimmed, Numeral,
};
use crate::text::{chars_of, digit_char, hex_digits};

verus! {

/// A pattern of vendor and product, of which each is a number or stands for
/// all.
#[derive(Debug, Clone, Copy, PartialEq, Eq, Structural)]
pub struct DevicePattern {
    pub vendor_id: Option<u16>,
    pub product_id: Option<u16>,
}

/// What one side of a pattern means: a hexadecimal number, all, or nothing.
pub open spec fn component(s: Seq<char>) -> Option<Option<u16>> {
    let t = trimmed(s);
    if t == "*"@ {
        Some(None)
    } else {
        match numeral(t, 16, 65535) {
            Numeral::Value(v) => Some(Some(v as u16)),
            _ => None,
        }
    }
}

/// What a pattern means: two sides with a colon between them.
pub open spec fn pattern_of(s: Seq<char>) -> Option<DevicePattern> {
    let parts = split_on(s, ':');
    if parts.len() != 2 {
        None
    } else {
        match (component(parts[0]), component(parts[1])) {
            (Some(vendor_id), Some(product_id)) => Some(DevicePattern { vendor_id, product_id }),
            _ => None,
        }
    }
}

impl DevicePattern {
    /// The device of a vendor and a product is one of those that the pattern
    /// stands for.
    pub open spec fn covers(self, vid: u16, pid: u16) -> bool {
        &&& self.vendor_id matches Some(v) ==> v == vid
        &&& self.product_id matches Some(p) ==> p == pid
    }

    fn parse_component(s: &Vec<char>) -> (r: Option<Option<u16>>)
        ensures
            r == component(s@),
    {
        let t = trim(s);
        if same(&t, &chars_of("*")) {
            return Some(None);
        }
        proof {
            crate::scan::lemma_numeral_bound(t@, 16, 65535);
        }
        match parse_numeral(&t, 16, 65535) {
            Numeral::Value(v) => Some(Some(v as u16)),
            _ => None,
        }
    }

    /// The pattern that a text stands for.
    pub fn parse(pattern: &str) -> (r: Option<Self>)
        ensures
            r == pattern_of(pattern@),
    {
        let parts = split(&chars_of(pattern), ':');
        if parts.len() != 2 {
            return None;
        }
        assert(pieces(parts@)[0] == parts@[0]@ && pieces(parts@)[1] == parts@[1]@);
        match (Self::parse_component(&parts[0]), Self::parse_component(&parts[1])) {
            (Some(vendor_id), Some(product_id)) => Some(DevicePattern { vendor_id, product_id }),
            _ => None,
        }
    }

    /// Whether the device of a vendor and a product is one of those that the
    /// pattern stands for.
    pub fn matches(&self, vid: u16, pid: u16) -> (b: bool)
        ensures
            b == self.covers(vid, pid),
    {
        let vid_ok: bool = match self.vendor_id {
            Some(v) => v == vid,
            None => true,
        };
        let pid_ok: bool = match self.product_id {
            Some(p) => p == pid,
            None => true,
        };
        vid_ok && pid_ok
    }
}

/// Some pattern of a list stands for a device. What is no pattern stands for
/// none.
pub open spec fn listed(patterns: Seq<Seq<char>>, vid: u16, pid: u16) -> bool {
    exists|i: int|
        0 <= i < patterns.len() && (pattern_of(#[trigger] patterns[i]) matches Some(p) && p.covers(
            vid,
            pid,
        ))
}

/// A device may be offered: no pattern denies it, and where some devices are
/// allowed, it is one of them.
pub open spec fn allowed(
    vid: u16,
    pid: u16,
    allowed: Seq<Seq<char>>,
    denied: Seq<Seq<char>>,
) -> bool {
    !listed(denied, vid, pid) && (allowed.len() == 0 || listed(allowed, vid, pid))
}

fn on_list(patterns: &Vec<String>, vid: u16, pid: u16) -> (b: bool)
    ensures
        b == listed(texts(patterns@), vid, pid),
{
    let mut i: usize = 0;
    while i < patterns.len()
        invariant
            i <= patterns@.len(),
            forall|j: int|
                0 <= j < i ==> !(pattern_of(#[trigger] texts(patterns@)[j]) matches Some(p)
                    && p.covers(vid, pid)),
        decreases patterns@.len() - i,
    {
        assert(texts(patterns@)[i as int] == patterns@[i as int]@);
        if let Some(p) = DevicePattern::parse(patterns[i].as_str()) {
            if p.matches(vid, pid) {
                return true;
            }
        }
        i = i + 1;
    }
    false
}

/// Whether a device may be offered.
pub fn is_device_allowed(vid: u16, pid: u16, config: &SecurityConfig) -> (b: bool)
    ensures
        b == allowed(vid, pid, config@.allowed_devices, config@.denied_devices),
{
    if on_list(&config.denied_devices, vid, pid) {
        return false;
    }
    if config.allowed_devices.len() == 0 {
        return true;
    }
    on_list(&config.allowed_devices, vid, pid)
}

/// What is denied is never allowed, whatever else is.
pub proof fn law_deny_wins(
    vid: u16,
    pid: u16,
    some_allowed: Seq<Seq<char>>,
    denied: Seq<Seq<char>>,
    i: int,
)
    requires
        0 <= i < denied.len(),
        pattern_of(denied[i]) matches Some(p) && p.covers(vid, pid),
    ensures
        !allowed(vid, pid, some_allowed, denied),
{
}

/// Where nothing is listed, everything is allowed.
pub proof fn law_no_list_allows_all(vid: u16, pid: u16)
    ensures
        allowed(vid, pid, Seq::empty(), Seq::empty()),
{
}

proof fn lemma_hex_side(n: u16)
    ensures
        component(hex_digits(n as nat, 4)) == Some(Some(n)),
{
    let s = hex_digits(n as nat, 4);
    reveal_with_fuel(hex_digits, 5);
    reveal_with_fuel(digits_numeral, 5);
    let (a, b, c, d) = (
        (n as nat / 16 / 16 / 16) % 16,
        (n as nat / 16 / 16) % 16,
        (n as nat / 16) % 16,
        n as nat % 16,
    );
    assert(s =~= seq![digit_char(a), digit_char(b), digit_char(c), digit_char(d)]);
    assert(s.drop_last() =~= seq![digit_char(a), digit_char(b), digit_char(c)]);
    assert(s.drop_last().drop_last() =~= seq![digit_char(a), digit_char(b)]);
    assert(s.drop_last().drop_last().drop_last() =~= seq![digit_char(a)]);
    assert(s.drop_last().drop_last().drop_last().drop_last() =~= Seq::empty());
    assert(digit_value(digit_char(a), 16) == Some(a));
    assert(digit_value(digit_char(b), 16) == Some(b));
    assert(digit_value(digit_char(c), 16) == Some(c));
    assert(digit_value(digit_char(d), 16) == Some(d));
    assert(!is_space(s[0]) && !is_space(s.last()));
    assert(trimmed(s) == s);
    reveal_strlit("*");
    assert("*"@.len() == 1);
}

/// A pattern of four hexadecimal digits, a colon and four more stands for the
/// vendor of the first number and the product of the second, and for no other
/// device.
pub proof fn law_pattern_of_numbers(
    pattern: &str,
    vendor: u16,
    product: u16,
    vid: u16,
    pid: u16,
    r: Option<DevicePattern>,
)
    requires
        pattern@ == hex_digits(vendor as nat, 4) + seq![':'] + hex_digits(product as nat, 4),
        call_ensures(DevicePattern::parse, (pattern,), r),
    ensures
        r matches Some(p) && p.vendor_id == Some(vendor) && p.product_id == Some(product) && (
        forall|b: bool| #[trigger]
            call_ensures(DevicePattern::matches, (&p, vid, pid), b) ==> (b <==> vid == vendor && pid
                == product)),
{
    lemma_hex_side(vendor);
    lemma_hex_side(product);
    lemma_hex_plain(vendor);
    lemma_hex_plain(product);
    lemma_one_piece(hex_digits(vendor as nat, 4), ':');
    lemma_next_piece(hex_digits(vendor as nat, 4), hex_digits(product as nat, 4), ':');
}

proof fn lemma_hex_plain(n: u16)
    ensures
        forall|i: int|
            0 <= i < hex_digits(n as nat, 4).len() ==> #[trigger] hex_digits(n as nat, 4)[i] != ':',
{
    reveal_with_fuel(hex_digits, 5);
}

/// A side of a pattern that is a star stands for all.
pub proof fn law_pattern_of_vendor(
    pattern: &str,
    vendor: u16,
    vid: u16,
    pid: u16,
    r: Option<DevicePattern>,
)
    requires
        pattern@ == hex_digits(vendor as nat, 4) + seq![':'] + seq!['*'],
        call_ensures(DevicePattern::parse, (pattern,), r),
    ensures
        r matches Some(p) && p.vendor_id == Some(vendor) && p.product_id is None && (forall|b: bool|
            #[trigger]
            call_ensures(DevicePattern::matches, (&p, vid, pid), b) ==> (b <==> vid == vendor)),
{
    lemma_hex_side(vendor);
    lemma_hex_plain(vendor);
    reveal_strlit("*");
    let star = seq!['*'];
    assert(star =~= "*"@);
    assert(!is_space(star[0]) && star.last() == star[0]);
    assert(trimmed(star) == star);
    lemma_one_piece(hex_digits(vendor as nat, 4), ':');
    lemma_next_piece(hex_digits(vendor as nat, 4), star, ':');
}

/// A device that a denied pattern stands for is refused, whatever is allowed;
/// where nothing is allowed by name, every other device is accepted; else a
/// device is accepted exactly where an allowed pattern stands for it.
pub proof fn law_device_decision(vid: u16, pid: u16, config: SecurityConfig, b: bool)
    requires
        call_ensures(is_device_allowed, (vid, pid, &config), b),
    ensures
        ({
            let denied = exists|i: int|
                0 <= i < config.denied_devices@.len() && names(
                    #[trigger] config.denied_devices@[i],
                    vid,
                    pid,
                );
            let named = exists|i: int|
                0 <= i < config.allowed_devices@.len() && names(
                    #[trigger] config.allowed_devices@[i],
                    vid,
                    pid,
                );
            b <==> !denied && (config.allowed_devices@.len() == 0 || named)
        }),
{
    lemma_listed(config.denied_devices@, vid, pid);
    lemma_listed(config.allowed_devices@, vid, pid);
}

/// A text is a pattern that stands for a device.
pub open spec fn names(text: String, vid: u16, pid: u16) -> bool {
    pattern_of(text@) matches Some(p) && (p.vendor_id is None || p.vendor_id == Some(vid)) && (
    p.product_id is None || p.product_id == Some(pid))
}

proof fn lemma_listed(list: Seq<String>, vid: u16, pid: u16)
    ensures
        listed(texts(list), vid, pid) <==> exists|i: int|
            0 <= i < list.len() && names(#[trigger] list[i], vid, pid),
{
    if listed(texts(list), vid, pid) {
        let i = choose|i: int|
            0 <= i < texts(list).len() && (pattern_of(#[trigger] texts(list)[i]) matches Some(p)
                && p.covers(vid, pid));
        assert(names(list[i], vid, pid));
    }
    if exists|i: int| 0 <= i < list.len() && names(#[trigger] list[i], vid, pid) {
        let i = choose|i: int| 0 <= i < list.len() && names(#[trigger] list[i], vid, pid);
        assert(texts(list)[i] == list[i]@);
    }
}

} // verus!
