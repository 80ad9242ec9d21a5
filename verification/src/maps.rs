//! Records of a process's memory map: one line of text per mapped region.
//!
//! Only the first two whitespace-separated fields of a record are read: the
//! address range, written `<hex-start>-<hex-end>`, and the permission string.

use crate::text::chars_of;
use vstd::prelude::*;
use vstd::slice::slice_subrange;

verus! {

/// What a mapped region allows, as its permission string spells it.
#[derive(Clone, Copy, Debug, PartialEq, Eq, Structural)]
pub struct Permissions {
    pub read: bool,
    pub write: bool,
    pub execute: bool,
    pub shared: bool,
}

/// A contiguous range of a process's address space with uniform permissions.
#[derive(Clone, Copy, Debug, PartialEq, Eq, Structural)]
pub struct MemoryRegion {
    pub start: u64,
    pub end: u64,
    pub perms: Permissions,
}

impl MemoryRegion {
    /// A region is valid when it ends after it starts.
    pub open spec fn is_valid(self) -> bool {
        self.start < self.end
    }

    /// The number of bytes in the region; an invalid region has none.
    pub open spec fn size(self) -> int {
        if self.is_valid() {
            self.end - self.start
        } else {
            0
        }
    }

    /// A region is scanned when it may be read and is not empty.
    pub open spec fn is_scannable(self) -> bool {
        self.perms.read && self.is_valid()
    }

    /// The number of bytes in the region; an invalid region has none.
    pub fn len(&self) -> (n: u64)
        ensures
            n == self.size(),
    {
        if self.start < self.end {
            self.end - self.start
        } else {
            0
        }
    }

    /// Whether the region is to be scanned.
    pub fn scannable(&self) -> (yes: bool)
        ensures
            yes == self.is_scannable(),
    {
        self.perms.read && self.start < self.end
    }
}

/// The characters that separate the fields of a record: the Unicode white space.
pub open spec fn is_space(c: char) -> bool {
    let n = c as u32;
    ||| 0x09 <= n <= 0x0d
    ||| n == 0x20
    ||| n == 0x85
    ||| n == 0xa0
    ||| n == 0x1680
    ||| 0x2000 <= n <= 0x200a
    ||| n == 0x2028
    ||| n == 0x2029
    ||| n == 0x202f
    ||| n == 0x205f
    ||| n == 0x3000
}

/// The value of a hexadecimal digit, in either case.
pub open spec fn hex_digit(c: char) -> Option<nat> {
    let n = c as u32;
    if 0x30 <= n <= 0x39 {
        Some((n - 0x30) as nat)
    } else if 0x61 <= n <= 0x66 {
        Some((n - 0x61 + 10) as nat)
    } else if 0x41 <= n <= 0x46 {
        Some((n - 0x41 + 10) as nat)
    } else {
        None
    }
}

/// Every character of `s` is a hexadecimal digit.
pub open spec fn all_hex(s: Seq<char>) -> bool {
    forall|i: int| 0 <= i < s.len() ==> (#[trigger] hex_digit(s[i])) is Some
}

/// The number that the hexadecimal digits `s` write, most significant first.
pub open spec fn hex_value(s: Seq<char>) -> nat
    decreases s.len(),
{
    if s.len() == 0 {
        0
    } else {
        16 * hex_value(s.drop_last()) + hex_digit(s.last()).unwrap()
    }
}

/// The address that `s` writes: an optional plus sign, then one or more
/// hexadecimal digits whose value fits in 64 bits. Anything else is no address.
pub open spec fn hex_number(s: Seq<char>) -> Option<u64> {
    let digits = if s.len() > 0 && s[0] == '+' {
        s.drop_first()
    } else {
        s
    };
    if digits.len() > 0 && all_hex(digits) && hex_value(digits) <= u64::MAX {
        Some(hex_value(digits) as u64)
    } else {
        None
    }
}

/// The first position at or after `from` that holds no white space.
pub open spec fn spaces_end(s: Seq<char>, from: int) -> int
    decreases s.len() - from,
{
    if 0 <= from < s.len() && is_space(s[from]) {
        spaces_end(s, from + 1)
    } else {
        from
    }
}

/// The first position at or after `from` that holds white space, or the end.
pub open spec fn field_end(s: Seq<char>, from: int) -> int
    decreases s.len() - from,
{
    if 0 <= from < s.len() && !is_space(s[from]) {
        field_end(s, from + 1)
    } else {
        from
    }
}

/// The first position at or after `from` that holds a dash, or the end.
pub open spec fn dash_position(s: Seq<char>, from: int) -> int
    decreases s.len() - from,
{
    if 0 <= from < s.len() && s[from] != '-' {
        dash_position(s, from + 1)
    } else {
        from
    }
}

/// The first two whitespace-separated fields of `line`, if it has two.
pub open spec fn leading_fields(line: Seq<char>) -> Option<(Seq<char>, Seq<char>)> {
    let a = spaces_end(line, 0);
    let b = field_end(line, a);
    let c = spaces_end(line, b);
    let d = field_end(line, c);
    if a < line.len() && c < line.len() {
        Some((line.subrange(a, b), line.subrange(c, d)))
    } else {
        None
    }
}

/// The two addresses of a range field: the text before its first dash and
/// the text after it, both of which must write an address.
pub open spec fn address_range(field: Seq<char>) -> Option<(u64, u64)> {
    let p = dash_position(field, 0);
    if p < field.len() {
        match (hex_number(field.subrange(0, p)), hex_number(field.subrange(p + 1, field.len() as int))) {
            (Some(start), Some(end)) => Some((start, end)),
            _ => None,
        }
    } else {
        None
    }
}

/// The permissions that a permission field grants: each one is granted
/// when its letter stands anywhere in the field.
pub open spec fn permissions_of(field: Seq<char>) -> Permissions {
    Permissions {
        read: field.contains('r'),
        write: field.contains('w'),
        execute: field.contains('x'),
        shared: field.contains('s'),
    }
}

/// The region that the record `line` describes. A record with fewer than
/// two fields, or whose first field is no address range, describes none.
pub open spec fn parse_record(line: Seq<char>) -> Option<MemoryRegion> {
    match leading_fields(line) {
        Some((range, perms)) => match address_range(range) {
            Some((start, end)) => Some(MemoryRegion { start, end, perms: permissions_of(perms) }),
            None => None,
        },
        None => None,
    }
}

/// The regions to scan, in the order of their records: every region that
/// a record of `lines` describes and that is scannable.
pub open spec fn scan_plan(lines: Seq<Seq<char>>) -> Seq<MemoryRegion>
    decreases lines.len(),
{
    if lines.len() == 0 {
        Seq::empty()
    } else {
        let earlier = scan_plan(lines.drop_last());
        match parse_record(lines.last()) {
            Some(region) => if region.is_scannable() {
                earlier.push(region)
            } else {
                earlier
            },
            None => earlier,
        }
    }
}

/// Some record of `lines` describes `region`.
pub open spec fn describes(lines: Seq<Seq<char>>, region: MemoryRegion) -> bool {
    exists|j: int| 0 <= j < lines.len() && parse_record(#[trigger] lines[j]) == Some(region)
}

/// The plan holds exactly the scannable regions that the records describe:
/// a region that may not be read, or that is empty, is never in it.
pub proof fn lemma_scan_plan_members(lines: Seq<Seq<char>>)
    ensures
        forall|region: MemoryRegion| #[trigger]
            scan_plan(lines).contains(region) <==> describes(lines, region)
                && region.is_scannable(),
    decreases lines.len(),
{
    let plan = scan_plan(lines);
    if lines.len() > 0 {
        let front = lines.drop_last();
        let earlier = scan_plan(front);
        lemma_scan_plan_members(front);
        assert forall|region: MemoryRegion| #[trigger]
            plan.contains(region) <==> describes(lines, region) && region.is_scannable() by {
            if plan.contains(region) {
                let k = choose|k: int| 0 <= k < plan.len() && plan[k] == region;
                if k < earlier.len() {
                    assert(earlier.contains(region));
                }
            }
            if describes(lines, region) && region.is_scannable() {
                let j = choose|j: int|
                    0 <= j < lines.len() && parse_record(#[trigger] lines[j]) == Some(region);
                if j < front.len() {
                    assert(front[j] == lines[j]);
                    assert(earlier.contains(region));
                    let k = choose|k: int| 0 <= k < earlier.len() && earlier[k] == region;
                    assert(plan[k] == region);
                } else {
                    assert(plan[plan.len() - 1] == region);
                }
            }
        }
    }
}

/// The plan follows the order of the records: the plan of two lists of
/// records, one after the other, is the plan of the first and then the
/// plan of the second.
pub proof fn lemma_scan_plan_concat(a: Seq<Seq<char>>, b: Seq<Seq<char>>)
    ensures
        scan_plan(a + b) == scan_plan(a) + scan_plan(b),
    decreases b.len(),
{
    if b.len() > 0 {
        lemma_scan_plan_concat(a, b.drop_last());
        assert((a + b).drop_last() == a + b.drop_last());
    }
}

/// Whether `c` separates fields.
pub fn is_whitespace(c: char) -> (yes: bool)
    ensures
        yes == is_space(c),
{
    let n: u32 = c as u32;
    (0x09 <= n && n <= 0x0d) || n == 0x20 || n == 0x85 || n == 0xa0 || n == 0x1680 || (0x2000 <= n
        && n <= 0x200a) || n == 0x2028 || n == 0x2029 || n == 0x202f || n == 0x205f || n == 0x3000
}

/// The value of the hexadecimal digit `c`, if it is one.
pub fn hex_digit_value(c: char) -> (value: Option<u8>)
    ensures
        match value {
            Some(v) => hex_digit(c) == Some(v as nat),
            None => hex_digit(c) is None,
        },
{
    let n: u32 = c as u32;
    if 0x30 <= n && n <= 0x39 {
        Some((n - 0x30) as u8)
    } else if 0x61 <= n && n <= 0x66 {
        Some((n - 0x61 + 10) as u8)
    } else if 0x41 <= n && n <= 0x46 {
        Some((n - 0x41 + 10) as u8)
    } else {
        None
    }
}

/// The digits read so far never write more than the whole text does.
proof fn lemma_hex_value_prefix(s: Seq<char>, k: int)
    requires
        all_hex(s),
        0 <= k <= s.len(),
    ensures
        hex_value(s.take(k)) <= hex_value(s),
    decreases s.len() - k,
{
    if k < s.len() {
        lemma_hex_value_prefix(s, k + 1);
        let longer = s.take(k + 1);
        assert(longer.drop_last() == s.take(k));
    } else {
        assert(s.take(k) == s);
    }
}

/// Reads the hexadecimal digits `digits`.
fn parse_digits(digits: &[char]) -> (value: Option<u64>)
    ensures
        value == if digits@.len() > 0 && all_hex(digits@) && hex_value(digits@) <= u64::MAX {
            Some(hex_value(digits@) as u64)
        } else {
            None::<u64>
        },
{
    if digits.len() == 0 {
        return None;
    }
    let mut acc: u64 = 0;
    let mut k: usize = 0;
    while k < digits.len()
        invariant
            k <= digits.len(),
            all_hex(digits@.take(k as int)),
            acc == hex_value(digits@.take(k as int)),
        decreases digits.len() - k,
    {
        let ghost longer = digits@.take(k + 1);
        assert(longer.drop_last() == digits@.take(k as int));
        match hex_digit_value(digits[k]) {
            None => {
                return None;
            },
            Some(d) => {
                assert(all_hex(longer));
                if acc > (u64::MAX - d as u64) / 16 {
                    proof {
                        if all_hex(digits@) {
                            lemma_hex_value_prefix(digits@, k + 1);
                        }
                    }
                    return None;
                }
                acc = acc * 16 + d as u64;
            },
        }
        k += 1;
    }
    assert(digits@.take(k as int) == digits@);
    Some(acc)
}

/// Reads an address: an optional plus sign, then hexadecimal digits.
pub fn parse_hex(text: &[char]) -> (value: Option<u64>)
    ensures
        value == hex_number(text@),
{
    if text.len() > 0 && text[0] == '+' {
        let digits = slice_subrange(text, 1, text.len());
        parse_digits(digits)
    } else {
        parse_digits(text)
    }
}

/// The end of the white space that starts at `from`.
fn skip_spaces(s: &[char], from: usize) -> (at: usize)
    requires
        from <= s.len(),
    ensures
        at == spaces_end(s@, from as int),
        from <= at <= s.len(),
{
    let mut at: usize = from;
    while at < s.len() && is_whitespace(s[at])
        invariant
            from <= at <= s.len(),
            spaces_end(s@, at as int) == spaces_end(s@, from as int),
        decreases s.len() - at,
    {
        at += 1;
    }
    at
}

/// The end of the field that starts at `from`.
fn skip_field(s: &[char], from: usize) -> (at: usize)
    requires
        from <= s.len(),
    ensures
        at == field_end(s@, from as int),
        from <= at <= s.len(),
{
    let mut at: usize = from;
    while at < s.len() && !is_whitespace(s[at])
        invariant
            from <= at <= s.len(),
            field_end(s@, at as int) == field_end(s@, from as int),
        decreases s.len() - at,
    {
        at += 1;
    }
    at
}

/// The position of the first dash of `s`, or its length.
fn find_dash(s: &[char]) -> (at: usize)
    ensures
        at == dash_position(s@, 0),
        at <= s.len(),
{
    let mut at: usize = 0;
    while at < s.len() && s[at] != '-'
        invariant
            at <= s.len(),
            dash_position(s@, at as int) == dash_position(s@, 0),
        decreases s.len() - at,
    {
        at += 1;
    }
    at
}

/// Whether `c` stands somewhere in `s`.
fn has_char(s: &[char], c: char) -> (found: bool)
    ensures
        found == s@.contains(c),
{
    let mut k: usize = 0;
    while k < s.len()
        invariant
            k <= s.len(),
            forall|j: int| 0 <= j < k ==> s@[j] != c,
        decreases s.len() - k,
    {
        if s[k] == c {
            return true;
        }
        k += 1;
    }
    false
}

/// Reads a range field, `<hex-start>-<hex-end>`.
pub fn parse_range(field: &[char]) -> (range: Option<(u64, u64)>)
    ensures
        range == address_range(field@),
{
    let p = find_dash(field);
    if p >= field.len() {
        return None;
    }
    let start = parse_hex(slice_subrange(field, 0, p));
    let end = parse_hex(slice_subrange(field, p + 1, field.len()));
    match (start, end) {
        (Some(a), Some(b)) => Some((a, b)),
        _ => None,
    }
}

/// Reads a permission field.
pub fn parse_permissions(field: &[char]) -> (perms: Permissions)
    ensures
        perms == permissions_of(field@),
{
    Permissions {
        read: has_char(field, 'r'),
        write: has_char(field, 'w'),
        execute: has_char(field, 'x'),
        shared: has_char(field, 's'),
    }
}

/// Reads one record of a memory map. A record that is malformed or
/// incomplete describes no region.
pub fn parse_region(line: &str) -> (region: Option<MemoryRegion>)
    ensures
        region == parse_record(line@),
{
    let chars = chars_of(line);
    let s = chars.as_slice();
    let a = skip_spaces(s, 0);
    let b = skip_field(s, a);
    let c = skip_spaces(s, b);
    let d = skip_field(s, c);
    if a >= s.len() || c >= s.len() {
        return None;
    }
    match parse_range(slice_subrange(s, a, b)) {
        Some((start, end)) => {
            let perms = parse_permissions(slice_subrange(s, c, d));
            Some(MemoryRegion { start, end, perms })
        },
        None => None,
    }
}

/// Reads a memory map, record by record, and keeps the regions to scan.
pub fn plan_scan(lines: &Vec<String>) -> (plan: Vec<MemoryRegion>)
    ensures
        plan@ == scan_plan(lines.deep_view()),
{
    let ghost all = lines.deep_view();
    let mut plan: Vec<MemoryRegion> = Vec::new();
    let mut k: usize = 0;
    while k < lines.len()
        invariant
            k <= lines.len(),
            all == lines.deep_view(),
            plan@ == scan_plan(all.take(k as int)),
        decreases lines.len() - k,
    {
        proof {
            let longer = all.take(k + 1);
            assert(longer.drop_last() == all.take(k as int));
        }
        match parse_region(lines[k].as_str()) {
            Some(region) => {
                if region.scannable() {
                    plan.push(region);
                }
            },
            None => {},
        }
        k += 1;
    }
    assert(all.take(k as int) == all);
    plan
}

} // verus!
