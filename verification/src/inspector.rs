//! What the storage inspector shows: sizes, properties and totals.

use crate::text;
use vstd::prelude::*;

verus! {

// ------------------------------------------------------- sizes

/// The whole number nearest to `a / b`, and the even one of two.
pub open spec fn nearest_even(a: nat, b: nat) -> nat {
    let q = a / b;
    let twice = 2 * (a % b);
    if twice < b || (twice == b && q % 2 == 0) {
        q
    } else {
        q + 1
    }
}

/// The whole number nearest to `a / b`, and the even one of two.
fn divide_nearest_even(a: u128, b: u128) -> (r: u128)
    requires
        0 < b <= 0x100_0000_0000,
        a <= 0x100_0000_0000_0000_0000_0000,
    ensures
        r == nearest_even(a as nat, b as nat),
{
    let q: u128 = a / b;
    let twice: u128 = 2 * (a % b);
    if twice < b || (twice == b && q % 2 == 0) {
        q
    } else {
        assert(q <= a) by (nonlinear_arith)
            requires
                q == a / b,
                b > 0,
        ;
        q + 1
    }
}

/// How many whole numbers a double precision number can tell apart without
/// gaps.
pub const DOUBLE_PRECISION: u128 = 0x20_0000_0000_0000;

/// The distance between double precision numbers around `n`, from `grain` on.
pub open spec fn grain_from(n: nat, grain: nat) -> nat
    decreases n - grain,
{
    if n < DOUBLE_PRECISION * grain || grain == 0 {
        grain
    } else {
        grain_from(n, 2 * grain)
    }
}

/// The double precision number nearest to a whole number.
pub open spec fn nearest_double(n: nat) -> nat {
    nearest_even(n, grain_from(n, 1)) * grain_from(n, 1)
}

/// Rounding to a multiple of `grain` adds no more than `grain`.
proof fn lemma_rounding_stays(n: nat, grain: nat)
    requires
        grain > 0,
    ensures
        nearest_even(n, grain) <= n + 1,
        nearest_even(n, grain) * grain <= n + grain,
{
    let q = n / grain;
    assert(q * grain <= n && q <= n) by (nonlinear_arith)
        requires
            q == n / grain,
            grain > 0,
    ;
    assert((q + 1) * grain == q * grain + grain) by (nonlinear_arith);
}

/// The double precision number nearest to a whole number.
fn to_double(n: u64) -> (r: u128)
    ensures
        r == nearest_double(n as nat),
        r <= u64::MAX + 4096,
{
    let wide: u128 = n as u128;
    let mut grain: u128 = 1;
    while wide >= DOUBLE_PRECISION * grain
        invariant
            wide == n,
            1 <= grain <= 4096,
            grain_from(n as nat, 1) == grain_from(n as nat, grain as nat),
        decreases 8192 - grain,
    {
        assert(grain < 2048);
        grain = 2 * grain;
    }
    let count: u128 = divide_nearest_even(wide, grain);
    proof {
        lemma_rounding_stays(wide as nat, grain as nat);
    }
    count * grain
}

/// The size of a unit: bytes, and each unit 1024 of the one before.
pub open spec fn unit_size(unit: nat) -> nat {
    if unit == 0 {
        1
    } else if unit == 1 {
        0x400
    } else if unit == 2 {
        0x10_0000
    } else if unit == 3 {
        0x4000_0000
    } else {
        0x100_0000_0000
    }
}

/// The largest unit that a size reaches, and bytes where it reaches none.
pub open spec fn unit_of(size: nat) -> nat {
    if size < unit_size(1) {
        0
    } else if size < unit_size(2) {
        1
    } else if size < unit_size(3) {
        2
    } else if size < unit_size(4) {
        3
    } else {
        4
    }
}

/// The name of a unit.
pub open spec fn unit_name(unit: nat) -> Seq<char> {
    if unit == 0 {
        "B"@
    } else if unit == 1 {
        "KB"@
    } else if unit == 2 {
        "MB"@
    } else if unit == 3 {
        "GB"@
    } else {
        "TB"@
    }
}

/// A size in hundredths of the largest unit that it reaches.
pub open spec fn hundredths(bytes: nat) -> nat {
    let size = nearest_double(bytes);
    nearest_even(100 * size, unit_size(unit_of(size)))
}

/// A size as it is shown: the number with two decimals, and the unit.
pub open spec fn shown_size(bytes: nat) -> Seq<char> {
    let h = hundredths(bytes);
    text::decimal(h / 100) + "."@ + text::decimal((h % 100) / 10) + text::decimal(h % 10) + " "@
        + unit_name(unit_of(nearest_double(bytes)))
}

/// A size as it is shown.
pub fn human(bytes: u64) -> (r: String)
    ensures
        r@ == shown_size(bytes as nat),
{
    let size: u128 = to_double(bytes);
    let (unit, name): (u128, &'static str) = if size < 0x400 {
        (1, "B")
    } else if size < 0x10_0000 {
        (0x400, "KB")
    } else if size < 0x4000_0000 {
        (0x10_0000, "MB")
    } else if size < 0x100_0000_0000 {
        (0x4000_0000, "GB")
    } else {
        (0x100_0000_0000, "TB")
    };
    assert(unit == unit_size(unit_of(size as nat)));
    assert(name@ == unit_name(unit_of(size as nat)));
    let h: u128 = divide_nearest_even(100 * size, unit);
    proof {
        lemma_shown_fits(size as nat);
    }
    let h: u64 = h as u64;
    let mut shown = text::to_decimal(h / 100);
    shown.append(".");
    let tenths = text::to_decimal((h % 100) / 10);
    shown.append(tenths.as_str());
    let rest = text::to_decimal(h % 10);
    shown.append(rest.as_str());
    shown.append(" ");
    shown.append(name);
    shown
}

/// The hundredths that are shown are few enough to be written down.
proof fn lemma_shown_fits(size: nat)
    requires
        size <= u64::MAX + 4096,
    ensures
        nearest_even(100 * size, unit_size(unit_of(size))) <= u64::MAX,
{
    let unit = unit_size(unit_of(size));
    let q = (100 * size) / unit;
    if unit_of(size) == 4 {
        assert(q <= 100 * size / 0x100_0000_0000);
    } else {
        lemma_rounding_stays(100 * size, unit);
    }
}

/// What is shown of a size is off by no more than half a hundredth of the
/// unit.
pub proof fn law_shown_size_is_close(bytes: nat)
    ensures
        ({
            let size = nearest_double(bytes);
            let unit = unit_size(unit_of(size));
            &&& 2 * (hundredths(bytes) * unit - 100 * size) <= unit
            &&& 2 * (100 * size - hundredths(bytes) * unit) <= unit
        }),
{
    let size = nearest_double(bytes);
    let unit = unit_size(unit_of(size));
    lemma_nearest(100 * size, unit);
}

/// Rounding goes no further than half way to the next number.
proof fn lemma_nearest(a: nat, b: nat)
    requires
        b > 0,
    ensures
        2 * (nearest_even(a, b) * b - a) <= b,
        2 * (a - nearest_even(a, b) * b) <= b,
{
    let q = a / b;
    let m = a % b;
    assert(a == q * b + m && 0 <= m < b) by (nonlinear_arith)
        requires
            q == a / b,
            m == a % b,
            b > 0,
    ;
    assert((q + 1) * b == q * b + b) by (nonlinear_arith);
}

/// Sizes that a double precision number can tell apart are taken as they are.
pub proof fn law_small_sizes_are_exact(bytes: nat)
    requires
        bytes < DOUBLE_PRECISION,
    ensures
        nearest_double(bytes) == bytes,
{
    assert(grain_from(bytes, 1) == 1);
    assert(bytes / 1 == bytes && bytes % 1 == 0);
}

// ------------------------------------------------------- properties

/// How many characters stand before the first semicolon.
pub open spec fn head_len(props: Seq<char>) -> nat
    decreases props.len(),
{
    if props.len() == 0 || props[0] == ';' {
        0
    } else {
        1 + head_len(props.skip(1))
    }
}

/// The number that a property has, where the part is that property: its key,
/// equals signs and a number, with white space round each.
pub open spec fn prop_value(part: Seq<char>, key: Seq<char>) -> Option<nat> {
    let trimmed = text::trimmed(part);
    if key.is_prefix_of(trimmed) {
        text::unsigned_of(
            text::trimmed(text::without_leading(trimmed.skip(key.len() as int), '=')),
            u64::MAX as nat,
        )
    } else {
        None
    }
}

/// The number of a property in a list of properties, separated by semicolons:
/// that of the first part which has one, and zero where none has.
pub open spec fn prop_of(props: Seq<char>, key: Seq<char>) -> nat
    decreases props.len(),
{
    let n = head_len(props) as int;
    match prop_value(props.take(n), key) {
        Some(value) => value,
        None => if n < props.len() {
            prop_of(props.skip(n + 1), key)
        } else {
            0
        },
    }
}

/// The first semicolon stands within the text.
proof fn lemma_head_len(props: Seq<char>)
    ensures
        head_len(props) <= props.len(),
    decreases props.len(),
{
    if props.len() > 0 && props[0] != ';' {
        lemma_head_len(props.skip(1));
    }
}

/// The number that a property has, where the part is that property.
fn parse_prop(part: &str, key: &str) -> (r: Option<u64>)
    ensures
        match r {
            Some(value) => prop_value(part@, key@) == Some(value as nat),
            None => prop_value(part@, key@) is None,
        },
{
    let trimmed: &str = text::trim(part);
    if !text::starts_with(trimmed, key) {
        return None;
    }
    let key_len: usize = key.unicode_len();
    let len: usize = trimmed.unicode_len();
    let value: &str = trimmed.substring_char(key_len, len);
    assert(value@ =~= trimmed@.skip(key@.len() as int));
    text::parse_unsigned(text::trim(text::skip_leading(value, '=')), u64::MAX)
}

/// The number of a property in a list of properties.
pub fn parse_agg_prop(props: &str, key: &str) -> (r: u64)
    ensures
        r == prop_of(props@, key@),
{
    let len: usize = props.unicode_len();
    let mut from: usize = 0;
    assert(props@.skip(0) =~= props@);
    loop
        invariant
            from <= len,
            len == props@.len(),
            prop_of(props@, key@) == prop_of(props@.skip(from as int), key@),
        decreases len - from,
    {
        let ghost rest = props@.skip(from as int);
        let mut to: usize = from;
        assert(rest.skip(0) =~= rest);
        while to < len && props.get_char(to) != ';'
            invariant
                from <= to <= len,
                len == props@.len(),
                rest == props@.skip(from as int),
                head_len(rest) == (to - from) + head_len(rest.skip(to - from)),
            decreases len - to,
        {
            assert(rest.skip(to - from)[0] == props@[to as int]);
            assert(rest.skip(to - from).skip(1) =~= rest.skip(to + 1 - from));
            to = to + 1;
        }
        proof {
            if to < len {
                assert(rest.skip(to - from)[0] == props@[to as int]);
            }
            assert(head_len(rest) == to - from);
            assert(rest.take(to - from) =~= props@.subrange(from as int, to as int));
        }
        if let Some(value) = parse_prop(props.substring_char(from, to), key) {
            return value;
        }
        if to == len {
            return 0;
        }
        assert(rest.skip(to - from + 1) =~= props@.skip(to + 1));
        from = to + 1;
    }
}

// ------------------------------------------------------- totals

/// What the storage takes that holds no live data.
pub open spec fn wasted(sst_size: u64, live_size: u64) -> u64 {
    if sst_size >= live_size {
        (sst_size - live_size) as u64
    } else {
        0
    }
}

/// What the storage takes that holds no live data.
pub fn waste(sst_size: u64, live_size: u64) -> (r: u64)
    ensures
        r == wasted(sst_size, live_size),
{
    if sst_size >= live_size {
        sst_size - live_size
    } else {
        0
    }
}

/// What is counted of all parts of the storage.
#[derive(Debug, Clone, Copy, PartialEq, Eq, Structural)]
pub struct Totals {
    pub sst: u64,
    pub live: u64,
    pub tombstones: u64,
    pub pending: u64,
}

impl Totals {
    /// Nothing counted.
    pub fn new() -> (r: Totals)
        ensures
            r == (Totals { sst: 0, live: 0, tombstones: 0, pending: 0 }),
    {
        Totals { sst: 0, live: 0, tombstones: 0, pending: 0 }
    }

    /// Counts a part of the storage.
    pub fn add_part(&mut self, sst_size: u64, live_size: u64, tombstones: u64, pending: u64)
        requires
            old(self).sst + sst_size <= u64::MAX,
            old(self).live + live_size <= u64::MAX,
            old(self).tombstones + tombstones <= u64::MAX,
            old(self).pending + pending <= u64::MAX,
        ensures
            *final(self) == (Totals {
                sst: (old(self).sst + sst_size) as u64,
                live: (old(self).live + live_size) as u64,
                tombstones: (old(self).tombstones + tombstones) as u64,
                pending: (old(self).pending + pending) as u64,
            }),
    {
        self.sst = self.sst + sst_size;
        self.live = self.live + live_size;
        self.tombstones = self.tombstones + tombstones;
        self.pending = self.pending + pending;
    }

    /// What the whole storage takes that holds no live data.
    pub fn waste(&self) -> (r: u64)
        ensures
            r == wasted(self.sst, self.live),
    {
        waste(self.sst, self.live)
    }
}

// ------------------------------------------------------- laws

/// The units in which sizes are shown.
pub open spec fn is_unit(size: nat, name: Seq<char>) -> bool {
    ||| size == 1 && name == "B"@
    ||| size == 1024 && name == "KB"@
    ||| size == 1024 * 1024 && name == "MB"@
    ||| size == 1024 * 1024 * 1024 && name == "GB"@
    ||| size == 1024 * 1024 * 1024 * 1024 && name == "TB"@
}

/// Whether a unit is the largest one that a size reaches.
pub open spec fn fits_unit(bytes: nat, unit: nat) -> bool {
    &&& unit == 1 || unit <= bytes
    &&& unit == 1024 * 1024 * 1024 * 1024 || bytes < 1024 * unit
}

/// A double precision number is off by no more than half the distance to its
/// neighbours.
proof fn lemma_nearest_double(bytes: u64)
    ensures
        bytes < DOUBLE_PRECISION ==> nearest_double(bytes as nat) == bytes,
        nearest_double(bytes as nat) - bytes <= 1024,
        bytes - nearest_double(bytes as nat) <= 1024,
{
    let n = bytes as nat;
    reveal_with_fuel(grain_from, 13);
    let grain = grain_from(n, 1);
    assert(1 <= grain <= 2048);
    lemma_nearest(n, grain);
    if bytes < DOUBLE_PRECISION {
        law_small_sizes_are_exact(n);
    }
}

/// A size is shown as a number with two decimals and the largest unit that it
/// reaches, off by no more than half a hundredth of that unit. A size that a
/// double precision number cannot tell from its neighbours is first taken for
/// one of them, no further away than that.
#[verifier::spinoff_prover]
pub proof fn law_size_is_shown_in_its_unit(bytes: u64, r: String) -> (found: (
    nat,
    nat,
    nat,
    Seq<char>,
))
    requires
        call_ensures(human, (bytes,), r),
    ensures
        ({
            let (size, h, unit, name) = found;
            &&& bytes < 0x20_0000_0000_0000 ==> size == bytes
            &&& size <= bytes + 1024
            &&& bytes <= size + 1024
            &&& is_unit(unit, name)
            &&& fits_unit(size, unit)
            &&& 2 * (h * unit - 100 * size) <= unit
            &&& 2 * (100 * size - h * unit) <= unit
            &&& r@ == text::decimal(h / 100) + "."@ + text::decimal((h % 100) / 10) + text::decimal(
                h % 10,
            ) + " "@ + name
        }),
{
    let n = bytes as nat;
    lemma_nearest_double(bytes);
    law_shown_size_is_close(n);
    let size = nearest_double(n);
    let unit = unit_of(size);
    (size, hundredths(n), unit_size(unit), unit_name(unit))
}

/// A larger size is never taken for a smaller one.
pub proof fn law_larger_sizes_are_not_shown_smaller(a: nat, b: nat)
    requires
        a <= b < DOUBLE_PRECISION,
    ensures
        unit_size(unit_of(nearest_double(a))) <= unit_size(unit_of(nearest_double(b))),
{
    law_small_sizes_are_exact(a);
    law_small_sizes_are_exact(b);
}

/// Whether a text holds no semicolon.
pub open spec fn one_part(part: Seq<char>) -> bool {
    forall|i: int| 0 <= i < part.len() ==> part[i] != ';'
}

/// Whether a text neither begins nor ends with white space.
pub open spec fn bare(s: Seq<char>) -> bool {
    s.len() > 0 && !text::is_space(s[0]) && !text::is_space(s.last())
}

/// The first semicolon of a text stands behind its first part.
proof fn lemma_head_of_part(part: Seq<char>, rest: Seq<char>)
    requires
        one_part(part),
        rest.len() == 0 || rest[0] == ';',
    ensures
        head_len(part + rest) == part.len(),
    decreases part.len(),
{
    let all = part + rest;
    if part.len() == 0 {
        assert(all =~= rest);
    } else {
        assert(all[0] == part[0]);
        assert(all.skip(1) =~= part.skip(1) + rest);
        lemma_head_of_part(part.skip(1), rest);
    }
}

/// A part that is not the property is passed over: the number is that of the
/// parts behind it.
pub proof fn law_other_properties_are_passed_over(
    part: Seq<char>,
    rest: Seq<char>,
    props: &str,
    behind: &str,
    key: &str,
    r: u64,
    of_rest: u64,
)
    requires
        one_part(part),
        props@ == part + seq![';'] + rest,
        behind@ == rest,
        !key@.is_prefix_of(text::trimmed(part)),
        call_ensures(parse_agg_prop, (props, key), r),
        call_ensures(parse_agg_prop, (behind, key), of_rest),
    ensures
        r == of_rest,
{
    let tail = seq![';'] + rest;
    assert(props@ =~= part + tail);
    lemma_head_of_part(part, tail);
    let n = part.len() as int;
    assert(props@.take(n) =~= part);
    assert(props@.skip(n + 1) =~= rest);
}

/// Whether a text is white space.
pub open spec fn blank(s: Seq<char>) -> bool {
    forall|i: int| 0 <= i < s.len() ==> text::is_space(#[trigger] s[i])
}

/// Trimming a text that stands between white space gives the text.
proof fn lemma_trimmed_between(before: Seq<char>, core: Seq<char>, after: Seq<char>)
    requires
        blank(before),
        blank(after),
        bare(core),
    ensures
        text::trimmed(before + core + after) == core,
    decreases before.len() + after.len(),
{
    let all = before + core + after;
    if before.len() > 0 {
        assert(all[0] == before[0]);
        assert(all.skip(1) =~= before.skip(1) + core + after);
        assert forall|i: int| 0 <= i < before.skip(1).len() implies text::is_space(
            #[trigger] before.skip(1)[i],
        ) by {
            assert(before.skip(1)[i] == before[i + 1]);
        }
        lemma_trimmed_between(before.skip(1), core, after);
    } else {
        assert(all =~= core + after);
        assert(all[0] == core[0]);
        assert(text::trimmed_start(all) == all);
        lemma_trimmed_behind(core, after);
    }
}

/// Trimming the end of a text with white space behind it gives the text.
proof fn lemma_trimmed_behind(core: Seq<char>, after: Seq<char>)
    requires
        blank(after),
        bare(core),
    ensures
        text::trimmed_end(core + after) == core,
    decreases after.len(),
{
    let all = core + after;
    if after.len() > 0 {
        assert(all.last() == after.last());
        assert(after.last() == after[after.len() - 1]);
        assert(all.drop_last() =~= core + after.drop_last());
        lemma_trimmed_behind(core, after.drop_last());
    } else {
        assert(all =~= core);
    }
}

/// A text behind equals signs is left without them.
proof fn lemma_without_equals(equals: Seq<char>, rest: Seq<char>)
    requires
        forall|i: int| 0 <= i < equals.len() ==> #[trigger] equals[i] == '=',
        rest.len() > 0 && rest[0] != '=',
    ensures
        text::without_leading(equals + rest, '=') == rest,
    decreases equals.len(),
{
    let all = equals + rest;
    if equals.len() > 0 {
        assert(all[0] == equals[0]);
        assert(all.skip(1) =~= equals.skip(1) + rest);
        assert forall|i: int| 0 <= i < equals.skip(1).len() implies #[trigger] equals.skip(1)[i]
            == '=' by {
            assert(equals.skip(1)[i] == equals[i + 1]);
        }
        lemma_without_equals(equals.skip(1), rest);
    } else {
        assert(all =~= rest);
    }
}

/// The number of a property is the one that is written behind its key and
/// equals signs, with white space round the part and before the number, in the
/// first part that is that property, whatever comes behind it.
#[verifier::spinoff_prover]
pub proof fn law_number_is_that_of_the_property(
    before: Seq<char>,
    equals: Seq<char>,
    between: Seq<char>,
    after: Seq<char>,
    rest: Seq<char>,
    props: &str,
    key: &str,
    n: u64,
    r: u64,
)
    requires
        bare(key@),
        one_part(key@),
        blank(before),
        forall|i: int| 0 <= i < equals.len() ==> #[trigger] equals[i] == '=',
        blank(between),
        blank(after),
        rest.len() == 0 || rest[0] == ';',
        props@ == before + (key@ + equals + between + text::decimal(n as nat)) + after + rest,
        call_ensures(parse_agg_prop, (props, key), r),
    ensures
        r == n,
{
    let number = text::decimal(n as nat);
    let core = key@ + equals + between + number;
    let part = before + core + after;
    text::lemma_decimal_digits(n as nat);
    text::law_decimal_is_read_back(n as nat, u64::MAX as nat);
    assert(text::is_digit(number[0]));
    assert(text::is_digit(number[number.len() - 1]));
    assert(core[0] == key@[0]);
    assert(core.last() == number[number.len() - 1]);
    assert(bare(core));
    assert(bare(number));
    assert(props@ =~= part + rest);
    assert forall|i: int| 0 <= i < part.len() implies part[i] != ';' by {
        let a = before.len();
        let b = a + key@.len();
        let c = b + equals.len();
        let d = c + between.len();
        let e = d + number.len();
        if i < a {
            assert(part[i] == before[i]);
        } else if i < b {
            assert(part[i] == key@[i - a]);
        } else if i < c {
            assert(part[i] == equals[i - b]);
        } else if i < d {
            assert(part[i] == between[i - c]);
        } else if i < e {
            assert(part[i] == number[i - d]);
            assert(text::is_digit(number[i - d]));
        } else {
            assert(part[i] == after[i - e]);
        }
    }
    lemma_head_of_part(part, rest);
    assert(props@.take(part.len() as int) =~= part);
    lemma_trimmed_between(before, core, after);
    assert(key@ =~= core.subrange(0, key@.len() as int));
    let value = core.skip(key@.len() as int);
    let tail = between + number;
    assert(value =~= equals + tail);
    if between.len() > 0 {
        assert(tail[0] == between[0]);
        assert(text::is_space(between[0]));
    } else {
        assert(tail[0] == number[0]);
    }
    lemma_without_equals(equals, tail);
    assert(tail =~= between + number + Seq::<char>::empty());
    lemma_trimmed_between(between, number, Seq::empty());
}

/// Where no part is the property, its number is zero.
pub proof fn law_missing_property_is_zero(props: &str, key: &str, r: u64)
    requires
        one_part(props@),
        !key@.is_prefix_of(text::trimmed(props@)),
        call_ensures(parse_agg_prop, (props, key), r),
    ensures
        r == 0,
{
    lemma_head_of_part(props@, Seq::empty());
    assert(props@ + Seq::<char>::empty() =~= props@);
    assert(props@.take(props@.len() as int) =~= props@);
}

/// Live data is no waste, and nothing else is: what the storage takes is its
/// live data and its waste, unless it holds more live data than it takes.
pub proof fn law_waste_is_what_is_not_live(sst_size: u64, live_size: u64, r: u64)
    requires
        call_ensures(waste, (sst_size, live_size), r),
    ensures
        live_size <= sst_size ==> live_size + r == sst_size,
        sst_size < live_size ==> r == 0,
{
}

/// Totals are the sums of the parts.
pub proof fn law_totals_are_sums(
    totals: &mut Totals,
    sst_size: u64,
    live_size: u64,
    tombstones: u64,
    pending: u64,
    new: Totals,
    all: Totals,
    r: u64,
)
    requires
        old(totals).sst + sst_size <= u64::MAX,
        old(totals).live + live_size <= u64::MAX,
        old(totals).tombstones + tombstones <= u64::MAX,
        old(totals).pending + pending <= u64::MAX,
        call_ensures(Totals::add_part, (totals, sst_size, live_size, tombstones, pending), ()),
        call_ensures(Totals::new, (), new),
        call_ensures(Totals::waste, (&all,), r),
    ensures
        final(totals).sst == old(totals).sst + sst_size,
        final(totals).live == old(totals).live + live_size,
        final(totals).tombstones == old(totals).tombstones + tombstones,
        final(totals).pending == old(totals).pending + pending,
        new.sst == 0 && new.live == 0 && new.tombstones == 0 && new.pending == 0,
        all.live <= all.sst ==> all.live + r == all.sst,
        all.sst < all.live ==> r == 0,
{
}

} // verus!
