//! Amounts of traffic and their texts.

use vstd::prelude::*;

use crate::core_api::{CoreApi, TrafficInfo};
use crate::text;

verus! {

/// The bytes that went up, or came down, between this client and another.
pub open spec fn bytes_of(info: TrafficInfo, upstream: bool) -> u64 {
    if upstream {
        info.tx_bytes
    } else {
        info.rx_bytes
    }
}

/// The bytes that went up, or came down, in all.
pub open spec fn total_bytes(traffic: Seq<TrafficInfo>, upstream: bool) -> nat
    decreases traffic.len(),
{
    if traffic.len() == 0 {
        0
    } else {
        total_bytes(traffic.drop_last(), upstream) + bytes_of(traffic.last(), upstream) as nat
    }
}

/// A part of the traffic is no more than the whole.
proof fn lemma_total_bytes_prefix(traffic: Seq<TrafficInfo>, upstream: bool, i: int)
    requires
        0 <= i <= traffic.len(),
    ensures
        total_bytes(traffic.take(i), upstream) <= total_bytes(traffic, upstream),
    decreases traffic.len(),
{
    if i == traffic.len() {
        assert(traffic.take(i) == traffic);
    } else {
        lemma_total_bytes_prefix(traffic.drop_last(), upstream, i);
        assert(traffic.drop_last().take(i) == traffic.take(i));
    }
}

/// The bytes that went up, or came down, in all, if that number fits.
pub fn checked_total_traffic(api: &CoreApi, upstream: bool) -> (r: Option<u64>)
    ensures
        r is Some <==> total_bytes(api.traffic@, upstream) <= u64::MAX,
        r matches Some(total) ==> total == total_bytes(api.traffic@, upstream),
{
    let traffic = &api.traffic;
    let mut total: u64 = 0;
    let mut i: usize = 0;
    while i < traffic.len()
        invariant
            i <= traffic.len(),
            total == total_bytes(traffic@.take(i as int), upstream),
            traffic@ == api.traffic@,
        decreases traffic.len() - i,
    {
        let bytes: u64 = if upstream { traffic[i].tx_bytes } else { traffic[i].rx_bytes };
        assert(traffic@.take(i + 1).drop_last() == traffic@.take(i as int));
        if bytes > u64::MAX - total {
            proof {
                lemma_total_bytes_prefix(traffic@, upstream, i + 1);
            }
            return None;
        }
        total = total + bytes;
        i += 1;
    }
    assert(traffic@.take(traffic@.len() as int) == traffic@);
    Some(total)
}

/// The bytes that went up, or came down, in all.
pub fn total_traffic(api: &CoreApi, upstream: bool) -> (total: u64)
    requires
        total_bytes(api.traffic@, upstream) <= u64::MAX,
    ensures
        total == total_bytes(api.traffic@, upstream),
{
    checked_total_traffic(api, upstream).unwrap()
}

/// A number and its unit, nothing if the number is zero.
pub open spec fn unit_text(n: nat, unit: Seq<char>) -> Seq<char> {
    if n > 0 {
        text::decimal(n) + unit
    } else {
        Seq::empty()
    }
}

/// How many gigabytes, megabytes, kilobytes and bytes a number of bytes is.
pub open spec fn amount(num: u64, unit: int) -> nat {
    if unit == 0 {
        (num / 0x4000_0000) as nat
    } else if unit == 1 {
        (num / 0x10_0000 % 1024) as nat
    } else if unit == 2 {
        (num / 1024 % 1024) as nat
    } else {
        (num % 1024) as nat
    }
}

/// The text of a number of bytes: its gigabytes, megabytes, kilobytes and bytes, without those
/// that are zero.
pub open spec fn traffic_text(num: u64) -> Seq<char> {
    unit_text(amount(num, 0), " GB "@) + unit_text(amount(num, 1), " MB "@) + unit_text(
        amount(num, 2),
        " KB "@,
    ) + unit_text(amount(num, 3), " bytes"@)
}

/// Appends a number and its unit, nothing if the number is zero.
fn push_unit(s: &mut String, n: u64, unit: &str)
    ensures
        final(s)@ == old(s)@ + unit_text(n as nat, unit@),
{
    if n > 0 {
        s.append(text::decimal_text(n).as_str());
        s.append(unit);
        assert(s@ == old(s)@ + unit_text(n as nat, unit@));
    } else {
        assert(s@ == old(s)@ + Seq::<char>::empty());
    }
}

/// The text of a number of bytes.
pub fn convert(num: u64) -> (s: String)
    ensures
        s@ == traffic_text(num),
{
    let gigabytes: u64 = num / (1024 * 1024 * 1024);
    let after_gigabytes: u64 = num % (1024 * 1024 * 1024);
    let megabytes: u64 = after_gigabytes / (1024 * 1024);
    let after_megabytes: u64 = after_gigabytes % (1024 * 1024);
    let kilobytes: u64 = after_megabytes / 1024;
    let bytes: u64 = after_megabytes % 1024;
    assert(megabytes == num / 0x10_0000 % 1024 && kilobytes == num / 1024 % 1024 && bytes == num
        % 1024) by (bit_vector)
        requires
            after_gigabytes == num % 0x4000_0000,
            megabytes == after_gigabytes / 0x10_0000,
            after_megabytes == after_gigabytes % 0x10_0000,
            kilobytes == after_megabytes / 1024,
            bytes == after_megabytes % 1024,
    ;
    let mut s = String::new();
    push_unit(&mut s, gigabytes, " GB ");
    push_unit(&mut s, megabytes, " MB ");
    push_unit(&mut s, kilobytes, " KB ");
    push_unit(&mut s, bytes, " bytes");
    assert(s@ == traffic_text(num));
    s
}

/// The gigabytes, megabytes, kilobytes and bytes add up to the number, and each but the first is
/// less than the next greater unit.
pub proof fn law_amounts_add_up(num: u64)
    ensures
        num == amount(num, 0) * 0x4000_0000 + amount(num, 1) * 0x10_0000 + amount(num, 2) * 1024
            + amount(num, 3),
        amount(num, 1) < 1024,
        amount(num, 2) < 1024,
        amount(num, 3) < 1024,
{
    let g: u64 = num / 0x4000_0000;
    let m: u64 = num / 0x10_0000 % 1024;
    let k: u64 = num / 1024 % 1024;
    let b: u64 = num % 1024;
    assert(num == g * 0x4000_0000 + m * 0x10_0000 + k * 1024 + b) by (bit_vector)
        requires
            g == num / 0x4000_0000,
            m == num / 0x10_0000 % 1024,
            k == num / 1024 % 1024,
            b == num % 1024,
    ;
}

/// The text of a number of bytes can be split at a unit: what is a multiple of the unit comes first,
/// the rest follows.
pub proof fn law_traffic_text_splits(num: u64, unit: u64)
    requires
        unit == 1024 || unit == 0x10_0000 || unit == 0x4000_0000,
    ensures
        traffic_text(num) == traffic_text((num - num % unit) as u64) + traffic_text(num % unit),
{
    let low: u64 = num % unit;
    let high: u64 = (num - low) as u64;
    if unit == 1024 {
        assert(high / 0x4000_0000 == num / 0x4000_0000
            && low / 0x4000_0000 == 0
            && high % 1024 == 0
            && low % 1024 == num % 1024
            && high / 0x10_0000 % 1024 == num / 0x10_0000 % 1024
            && low / 0x10_0000 % 1024 == 0
            && high / 1024 % 1024 == num / 1024 % 1024
            && low / 1024 % 1024 == 0) by (bit_vector)
            requires
                low == num % 1024,
                high == num - low,
        ;
    } else if unit == 0x10_0000 {
        assert(high / 0x4000_0000 == num / 0x4000_0000
            && low / 0x4000_0000 == 0
            && high % 1024 == 0
            && low % 1024 == num % 1024
            && high / 0x10_0000 % 1024 == num / 0x10_0000 % 1024
            && low / 0x10_0000 % 1024 == 0
            && high / 1024 % 1024 == 0
            && low / 1024 % 1024 == num / 1024 % 1024) by (bit_vector)
            requires
                low == num % 0x10_0000,
                high == num - low,
        ;
    } else {
        assert(high / 0x4000_0000 == num / 0x4000_0000
            && low / 0x4000_0000 == 0
            && high % 1024 == 0
            && low % 1024 == num % 1024
            && high / 0x10_0000 % 1024 == 0
            && low / 0x10_0000 % 1024 == num / 0x10_0000 % 1024
            && high / 1024 % 1024 == 0
            && low / 1024 % 1024 == num / 1024 % 1024) by (bit_vector)
            requires
                low == num % 0x4000_0000,
                high == num - low,
        ;
    }
    assert(traffic_text(num) == traffic_text(high) + traffic_text(low));
}

/// `s` is empty or starts with digits, a blank and a letter other than `letter`.
spec fn starts_otherwise(s: Seq<char>, letter: char) -> bool {
    s.len() > 0 ==> exists|j: int|
        #[trigger] text::run_ends(s, 0, j) && j + 1 < s.len() && s[j + 1] != letter
}

/// A text that starts with a number and a unit starts with the letter of that unit.
proof fn lemma_starts_with_unit(n: nat, unit: Seq<char>, rest: Seq<char>, letter: char)
    requires
        unit.len() >= 2,
        unit[0] == ' ',
        unit[1] != letter,
        starts_otherwise(rest, letter),
    ensures
        starts_otherwise(unit_text(n, unit) + rest, letter),
{
    if n > 0 {
        let s = unit_text(n, unit) + rest;
        let j = text::decimal(n).len() as int;
        text::lemma_decimal(n);
        assert(s.subrange(0, j) == text::decimal(n));
        assert(text::run_ends(s, 0, j));
        assert(s[j + 1] == unit[1]);
    } else {
        assert(unit_text(n, unit) + rest == rest);
    }
}

/// The number in front of a unit, and what follows, can be told from the text.
proof fn lemma_unit_determined(m: nat, n: nat, unit: Seq<char>, r: Seq<char>, s: Seq<char>)
    requires
        unit.len() >= 2,
        unit[0] == ' ',
        starts_otherwise(r, unit[1]),
        starts_otherwise(s, unit[1]),
        unit_text(m, unit) + r == unit_text(n, unit) + s,
    ensures
        m == n,
        r == s,
{
    let t = unit_text(m, unit) + r;
    let i = text::decimal(m).len() as int;
    let j = text::decimal(n).len() as int;
    text::lemma_decimal(m);
    text::lemma_decimal(n);
    if m > 0 {
        assert(t.subrange(0, i) == text::decimal(m));
        assert(text::run_ends(t, 0, i));
        assert(t[i + 1] == unit[1]);
    }
    if n > 0 {
        assert(t == unit_text(n, unit) + s);
        assert(t.subrange(0, j) == text::decimal(n));
        assert(text::run_ends(t, 0, j));
        assert(t[j + 1] == unit[1]);
    }
    if m > 0 && n > 0 {
        text::lemma_run_ends(t, 0, i, j);
        text::lemma_decimal_injective(m, n);
        let k = (i + unit.len()) as int;
        assert(t.skip(k) == r);
        assert(t.skip(k) == s);
    } else if m > 0 {
        assert(t == s);
        let k = choose|k: int|
            #[trigger] text::run_ends(s, 0, k) && k + 1 < s.len() && s[k + 1] != unit[1];
        text::lemma_run_ends(t, 0, i, k);
    } else if n > 0 {
        assert(t == r);
        let k = choose|k: int|
            #[trigger] text::run_ends(r, 0, k) && k + 1 < r.len() && r[k + 1] != unit[1];
        text::lemma_run_ends(t, 0, j, k);
    } else {
        assert(t == r);
        assert(t == s);
    }
}

/// The number of bytes can be told from its text: no two numbers have the same text.
pub proof fn law_traffic_text_injective(a: u64, b: u64)
    requires
        traffic_text(a) == traffic_text(b),
    ensures
        a == b,
{
    reveal_strlit(" GB ");
    reveal_strlit(" MB ");
    reveal_strlit(" KB ");
    reveal_strlit(" bytes");
    let none = Seq::<char>::empty();
    let a3 = unit_text(amount(a, 3), " bytes"@) + none;
    let a2 = unit_text(amount(a, 2), " KB "@) + a3;
    let a1 = unit_text(amount(a, 1), " MB "@) + a2;
    let a0 = unit_text(amount(a, 0), " GB "@) + a1;
    let b3 = unit_text(amount(b, 3), " bytes"@) + none;
    let b2 = unit_text(amount(b, 2), " KB "@) + b3;
    let b1 = unit_text(amount(b, 1), " MB "@) + b2;
    let b0 = unit_text(amount(b, 0), " GB "@) + b1;
    assert(traffic_text(a) == a0);
    assert(traffic_text(b) == b0);
    lemma_starts_with_unit(amount(a, 3), " bytes"@, none, 'K');
    lemma_starts_with_unit(amount(b, 3), " bytes"@, none, 'K');
    lemma_starts_with_unit(amount(a, 3), " bytes"@, none, 'M');
    lemma_starts_with_unit(amount(b, 3), " bytes"@, none, 'M');
    lemma_starts_with_unit(amount(a, 3), " bytes"@, none, 'G');
    lemma_starts_with_unit(amount(b, 3), " bytes"@, none, 'G');
    lemma_starts_with_unit(amount(a, 2), " KB "@, a3, 'M');
    lemma_starts_with_unit(amount(b, 2), " KB "@, b3, 'M');
    lemma_starts_with_unit(amount(a, 2), " KB "@, a3, 'G');
    lemma_starts_with_unit(amount(b, 2), " KB "@, b3, 'G');
    lemma_starts_with_unit(amount(a, 1), " MB "@, a2, 'G');
    lemma_starts_with_unit(amount(b, 1), " MB "@, b2, 'G');
    lemma_unit_determined(amount(a, 0), amount(b, 0), " GB "@, a1, b1);
    lemma_unit_determined(amount(a, 1), amount(b, 1), " MB "@, a2, b2);
    lemma_unit_determined(amount(a, 2), amount(b, 2), " KB "@, a3, b3);
    lemma_unit_determined(amount(a, 3), amount(b, 3), " bytes"@, none, none);
    law_amounts_add_up(a);
    law_amounts_add_up(b);
}

/// The traffic of two groups of clients is the sum of theirs; that of one client are the bytes that
/// went to it, or that came from it.
pub proof fn law_totals_add_up(first: Seq<TrafficInfo>, second: Seq<TrafficInfo>, info: TrafficInfo)
    ensures
        total_bytes(seq![info], true) == info.tx_bytes,
        total_bytes(seq![info], false) == info.rx_bytes,
        total_bytes(first + second, true) == total_bytes(first, true) + total_bytes(second, true),
        total_bytes(first + second, false) == total_bytes(first, false) + total_bytes(second, false),
        total_bytes(Seq::<TrafficInfo>::empty(), true) == 0,
        total_bytes(Seq::<TrafficInfo>::empty(), false) == 0,
    decreases second.len(),
{
    reveal_with_fuel(total_bytes, 2);
    assert(seq![info].drop_last() == Seq::<TrafficInfo>::empty());
    if second.len() == 0 {
        assert(first + second == first);
    } else {
        assert((first + second).drop_last() == first + second.drop_last());
        law_totals_add_up(first, second.drop_last(), info);
    }
}

/// No bytes have no text. Fewer than 1024 bytes, kilobytes or megabytes, and any gigabytes, are
/// written as their number and the unit.
pub proof fn law_traffic_text_of_unit(n: u64)
    requires
        0 < n,
    ensures
        traffic_text(0) == Seq::<char>::empty(),
        n < 1024 ==> traffic_text(n) == text::decimal(n as nat) + " bytes"@,
        n < 1024 ==> traffic_text((n * 1024) as u64) == text::decimal(n as nat) + " KB "@,
        n < 1024 ==> traffic_text((n * 1024 * 1024) as u64) == text::decimal(n as nat) + " MB "@,
        n < 0x4_0000_0000 ==> traffic_text((n * 1024 * 1024 * 1024) as u64) == text::decimal(n as nat)
            + " GB "@,
{
    let none = Seq::<char>::empty();
    assert(traffic_text(0) == none);
    if n < 1024 {
        assert(traffic_text(n) == text::decimal(n as nat) + " bytes"@);
        assert(traffic_text((n * 1024) as u64) == text::decimal(n as nat) + " KB "@);
        assert(traffic_text((n * 1024 * 1024) as u64) == text::decimal(n as nat) + " MB "@);
    }
    if n < 0x4_0000_0000 {
        assert(traffic_text((n * 1024 * 1024 * 1024) as u64) == text::decimal(n as nat) + " GB "@);
    }
}

/// What goes up to a client are the bytes sent to it, what comes down those received from it.
pub proof fn law_direction(info: TrafficInfo)
    ensures
        bytes_of(info, true) == info.tx_bytes,
        bytes_of(info, false) == info.rx_bytes,
{
}

} // verus!
