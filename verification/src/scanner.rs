//! The device scanner: which entries of the block-device registry are large
//! enough to be flashed, and whether a device is still there.
//!
//! The scanner reads no file. It is handed, for each entry of the registry,
//! the entry's path and the text of its sector-count attribute, and decides
//! from those. It also knows how the path of a device node and the path of a
//! sector-count attribute are derived from one another.

use vstd::prelude::*;
use vstd::string::*;

verus! {

/// The size of a sector in bytes.
pub const SECTOR_BYTES: u64 = 512;

/// The registry could not be opened or listed.
#[derive(Clone, Copy, Debug, PartialEq, Eq, Hash, Structural)]
pub enum ScanError {
    RegistryUnreadable,
}

/// One entry of the registry as it was read.
#[derive(Clone, Debug, PartialEq, Eq)]
pub struct RegistryEntry {
    /// The entry's path in the registry.
    pub path: String,
    /// The text of its sector-count attribute, if it has one that could be
    /// read.
    pub size_text: Option<String>,
}

/// The mathematical content of a registry entry.
pub struct EntryView {
    pub path: Seq<char>,
    pub size_text: Option<Seq<char>>,
}

impl View for RegistryEntry {
    type V = EntryView;

    open spec fn view(&self) -> EntryView {
        EntryView {
            path: self.path@,
            size_text: match self.size_text {
                Some(text) => Some(text@),
                None => None,
            },
        }
    }
}

/// Whether `c` is white space: a character with the Unicode property
/// White_Space.
pub open spec fn is_white_space_spec(c: char) -> bool {
    let code = c as u32;
    ||| 0x09 <= code <= 0x0d
    ||| code == 0x20
    ||| code == 0x85
    ||| code == 0xa0
    ||| code == 0x1680
    ||| 0x2000 <= code <= 0x200a
    ||| code == 0x2028
    ||| code == 0x2029
    ||| code == 0x202f
    ||| code == 0x205f
    ||| code == 0x3000
}

/// Whether `c` is white space.
pub fn is_white_space(c: char) -> (white: bool)
    ensures
        white == is_white_space_spec(c),
{
    let code = c as u32;
    (0x09 <= code && code <= 0x0d) || code == 0x20 || code == 0x85 || code == 0xa0 || code
        == 0x1680 || (0x2000 <= code && code <= 0x200a) || code == 0x2028 || code == 0x2029
        || code == 0x202f || code == 0x205f || code == 0x3000
}

/// `s` without the white space at its start.
pub open spec fn trim_start_spec(s: Seq<char>) -> Seq<char>
    decreases s.len(),
{
    if s.len() > 0 && is_white_space_spec(s[0]) {
        trim_start_spec(s.skip(1))
    } else {
        s
    }
}

/// `s` without the white space at its end.
pub open spec fn trim_end_spec(s: Seq<char>) -> Seq<char>
    decreases s.len(),
{
    if s.len() > 0 && is_white_space_spec(s.last()) {
        trim_end_spec(s.drop_last())
    } else {
        s
    }
}

/// `s` without the white space at its start and at its end.
pub open spec fn trimmed(s: Seq<char>) -> Seq<char> {
    trim_end_spec(trim_start_spec(s))
}

proof fn lemma_trim_start_skips(s: Seq<char>, i: int)
    requires
        0 <= i <= s.len(),
        forall|k: int| 0 <= k < i ==> is_white_space_spec(s[k]),
        i == s.len() || !is_white_space_spec(s[i]),
    ensures
        trim_start_spec(s) == s.skip(i),
    decreases i,
{
    if i == 0 {
        assert(s.skip(0) =~= s);
    } else {
        assert(is_white_space_spec(s[0]));
        let rest = s.skip(1);
        assert forall|k: int| 0 <= k < i - 1 implies is_white_space_spec(rest[k]) by {
            assert(rest[k] == s[k + 1]);
        }
        lemma_trim_start_skips(rest, i - 1);
        assert(rest.skip(i - 1) =~= s.skip(i));
    }
}

proof fn lemma_trim_end_takes(s: Seq<char>, j: int)
    requires
        0 <= j <= s.len(),
        forall|k: int| j <= k < s.len() ==> is_white_space_spec(s[k]),
        j == 0 || !is_white_space_spec(s[j - 1]),
    ensures
        trim_end_spec(s) == s.take(j),
    decreases s.len() - j,
{
    if j == s.len() {
        assert(s.take(j) =~= s);
    } else {
        assert(is_white_space_spec(s.last()));
        let rest = s.drop_last();
        lemma_trim_end_takes(rest, j);
        assert(rest.take(j) =~= s.take(j));
    }
}

/// `text` without the white space at its start and at its end.
pub fn trim(text: &str) -> (out: &str)
    ensures
        out@ == trimmed(text@),
{
    let n = text.unicode_len();
    let mut start: usize = 0;
    let mut scanning = true;
    while scanning && start < n
        invariant
            n == text@.len(),
            start <= n,
            forall|k: int| 0 <= k < start ==> is_white_space_spec(text@[k]),
            !scanning ==> start < n && !is_white_space_spec(text@[start as int]),
        decreases (n - start) + (if scanning { 1int } else { 0int }),
    {
        if is_white_space(text.get_char(start)) {
            start = start + 1;
        } else {
            scanning = false;
        }
    }
    let mut end: usize = n;
    scanning = true;
    while scanning && end > start
        invariant
            n == text@.len(),
            start <= end <= n,
            forall|k: int| end <= k < n ==> is_white_space_spec(text@[k]),
            !scanning ==> end > start && !is_white_space_spec(text@[end - 1]),
        decreases (end - start) + (if scanning { 1int } else { 0int }),
    {
        if is_white_space(text.get_char(end - 1)) {
            end = end - 1;
        } else {
            scanning = false;
        }
    }
    proof {
        lemma_trim_start_skips(text@, start as int);
        let rest = text@.skip(start as int);
        assert forall|k: int| end - start <= k < rest.len() implies is_white_space_spec(
            rest[k],
        ) by {
            assert(rest[k] == text@[k + start]);
        }
        if end > start {
            assert(rest[end - start - 1] == text@[end - 1]);
        }
        lemma_trim_end_takes(rest, end - start);
        assert(rest.take(end - start) =~= text@.subrange(start as int, end as int));
    }
    text.substring_char(start, end)
}

/// Whether `c` is one of the ten decimal digits.
pub open spec fn is_digit(c: char) -> bool {
    '0' <= c <= '9'
}

/// The value of a decimal digit; of any other character, zero.
pub open spec fn digit_value(c: char) -> nat {
    if is_digit(c) {
        (c as int - '0' as int) as nat
    } else {
        0
    }
}

/// Whether every character of `s` is a decimal digit.
pub open spec fn all_digits(s: Seq<char>) -> bool {
    forall|i: int| 0 <= i < s.len() ==> is_digit(#[trigger] s[i])
}

/// The number that the digits of `s` write in base ten.
pub open spec fn decimal_value(s: Seq<char>) -> nat
    decreases s.len(),
{
    if s.len() == 0 {
        0
    } else {
        decimal_value(s.drop_last()) * 10 + digit_value(s.last())
    }
}

/// The digits of a number that may be written with a plus sign in front.
pub open spec fn unsigned_digits(s: Seq<char>) -> Seq<char> {
    if s.len() > 0 && s[0] == '+' {
        s.skip(1)
    } else {
        s
    }
}

/// The number that `s` writes, if it writes one that fits in 64 bits: an
/// optional plus sign, then one decimal digit or more, and nothing else.
pub open spec fn parse_u64_spec(s: Seq<char>) -> Option<u64> {
    let digits = unsigned_digits(s);
    if digits.len() > 0 && all_digits(digits) && decimal_value(digits) <= u64::MAX {
        Some(decimal_value(digits) as u64)
    } else {
        None
    }
}

/// A number is never smaller than what its leading digits write.
pub proof fn lemma_decimal_value_grows(s: Seq<char>, k: int)
    requires
        0 <= k <= s.len(),
    ensures
        decimal_value(s.take(k)) <= decimal_value(s),
    decreases s.len() - k,
{
    if k == s.len() {
        assert(s.take(k) =~= s);
    } else {
        lemma_decimal_value_grows(s.drop_last(), k);
        assert(s.drop_last().take(k) =~= s.take(k));
    }
}

/// The number that `text` writes, if it writes one that fits in 64 bits.
pub fn parse_u64(text: &str) -> (parsed: Option<u64>)
    ensures
        parsed == parse_u64_spec(text@),
{
    let n = text.unicode_len();
    if n == 0 {
        return None;
    }
    let first: usize = if text.get_char(0) == '+' {
        1
    } else {
        0
    };
    let ghost digits = unsigned_digits(text@);
    assert(digits =~= text@.skip(first as int));
    if first == n {
        return None;
    }
    let mut value: u64 = 0;
    let mut i: usize = first;
    while i < n
        invariant
            n == text@.len(),
            first <= i <= n,
            digits == unsigned_digits(text@),
            digits == text@.skip(first as int),
            all_digits(digits.take(i - first)),
            value == decimal_value(digits.take(i - first)),
        decreases n - i,
    {
        let c = text.get_char(i);
        let ghost upto = digits.take(i - first + 1);
        proof {
            assert(upto.drop_last() =~= digits.take(i - first));
            assert(upto.last() == c);
            lemma_decimal_value_grows(digits, i - first + 1);
            assert(decimal_value(upto) == decimal_value(upto.drop_last()) * 10 + digit_value(
                upto.last(),
            ));
        }
        if !(c >= '0' && c <= '9') {
            assert(!is_digit(digits[i - first]));
            return None;
        }
        let digit: u64 = (c as u64) - ('0' as u64);
        let scaled = match value.checked_mul(10) {
            Some(scaled) => scaled,
            None => {
                return None;
            },
        };
        value = match scaled.checked_add(digit) {
            Some(sum) => sum,
            None => {
                return None;
            },
        };
        i = i + 1;
        assert forall|k: int| 0 <= k < upto.len() implies is_digit(#[trigger] upto[k]) by {
            if k < upto.len() - 1 {
                assert(upto[k] == digits.take(i - first - 1)[k]);
            }
        }
    }
    assert(digits.take(n - first) =~= digits);
    Some(value)
}

/// The sector count that the text of an attribute states, if it states one:
/// the number written by the text without the white space around it.
pub open spec fn sector_count_spec(text: Seq<char>) -> Option<u64> {
    parse_u64_spec(trimmed(text))
}

/// The sector count that the text of an attribute states, if it states one.
pub fn parse_sector_count(text: &str) -> (sectors: Option<u64>)
    ensures
        sectors == sector_count_spec(text@),
{
    parse_u64(trim(text))
}

/// The size in bytes of a device of `sectors` sectors.
pub open spec fn capacity_bytes(sectors: u64) -> int {
    sectors * SECTOR_BYTES
}

/// Whether a device of `sectors` sectors has at least `min_size_bytes`
/// bytes.
pub fn is_large_enough(sectors: u64, min_size_bytes: u64) -> (enough: bool)
    ensures
        enough == (capacity_bytes(sectors) >= min_size_bytes),
{
    match sectors.checked_mul(SECTOR_BYTES) {
        Some(bytes) => bytes >= min_size_bytes,
        None => true,
    }
}

impl EntryView {
    /// Whether the entry is a candidate: it has a sector-count attribute
    /// that states a number, and that many sectors are at least
    /// `min_size_bytes` bytes.
    pub open spec fn qualifies(self, min_size_bytes: u64) -> bool {
        match self.size_text {
            Some(text) => match sector_count_spec(text) {
                Some(sectors) => capacity_bytes(sectors) >= min_size_bytes,
                None => false,
            },
            None => false,
        }
    }
}

/// The paths of the candidates among `entries`, in the order of the
/// registry.
pub open spec fn candidates_spec(entries: Seq<EntryView>, min_size_bytes: u64) -> Seq<Seq<char>>
    decreases entries.len(),
{
    if entries.len() == 0 {
        Seq::empty()
    } else {
        let before = candidates_spec(entries.drop_last(), min_size_bytes);
        if entries.last().qualifies(min_size_bytes) {
            before.push(entries.last().path)
        } else {
            before
        }
    }
}

/// The views of the entries of a listing.
pub open spec fn entry_views(entries: Seq<RegistryEntry>) -> Seq<EntryView> {
    Seq::new(entries.len(), |i: int| entries[i]@)
}

/// The contents of a list of strings.
pub open spec fn texts(strings: Seq<String>) -> Seq<Seq<char>> {
    Seq::new(strings.len(), |i: int| strings[i]@)
}

/// Whether `entry` is a candidate for a device of at least
/// `min_size_bytes` bytes.
pub fn entry_qualifies(entry: &RegistryEntry, min_size_bytes: u64) -> (qualifies: bool)
    ensures
        qualifies == entry@.qualifies(min_size_bytes),
{
    match &entry.size_text {
        Some(text) => match parse_sector_count(text.as_str()) {
            Some(sectors) => is_large_enough(sectors, min_size_bytes),
            None => false,
        },
        None => false,
    }
}

/// The paths of the candidates among `entries`, in the order of the
/// registry. An entry without a sector count is passed over.
pub fn candidates(entries: &Vec<RegistryEntry>, min_size_bytes: u64) -> (found: Vec<String>)
    ensures
        texts(found@) == candidates_spec(entry_views(entries@), min_size_bytes),
{
    let mut found: Vec<String> = Vec::new();
    let mut i: usize = 0;
    let ghost views = entry_views(entries@);
    assert(views.take(0) =~= Seq::<EntryView>::empty());
    assert(texts(found@) =~= Seq::<Seq<char>>::empty());
    while i < entries.len()
        invariant
            i <= entries.len(),
            views == entry_views(entries@),
            texts(found@) == candidates_spec(views.take(i as int), min_size_bytes),
        decreases entries.len() - i,
    {
        let ghost before = texts(found@);
        assert(views.take(i + 1).drop_last() =~= views.take(i as int));
        assert(views.take(i + 1).last() == entries@[i as int]@);
        if entry_qualifies(&entries[i], min_size_bytes) {
            let path = entries[i].path.clone();
            found.push(path);
            assert(texts(found@) =~= before.push(entries@[i as int]@.path));
        }
        i = i + 1;
    }
    assert(views.take(i as int) =~= views);
    found
}

/// What a scan yields: the candidates of a registry that could be listed,
/// the error of one that could not.
pub open spec fn discover_spec(
    listing: Result<Seq<EntryView>, ScanError>,
    min_size_bytes: u64,
) -> Result<Seq<Seq<char>>, ScanError> {
    match listing {
        Ok(entries) => Ok(candidates_spec(entries, min_size_bytes)),
        Err(e) => Err(e),
    }
}

/// The view of what was read of the registry.
pub open spec fn listing_view(listing: Result<Vec<RegistryEntry>, ScanError>) -> Result<
    Seq<EntryView>,
    ScanError,
> {
    match listing {
        Ok(entries) => Ok(entry_views(entries@)),
        Err(e) => Err(e),
    }
}

/// The devices of at least `min_size_bytes` bytes, in the order of the
/// registry. Only a registry that could not be listed is an error.
pub fn discover(listing: &Result<Vec<RegistryEntry>, ScanError>, min_size_bytes: u64) -> (found:
    Result<Vec<String>, ScanError>)
    ensures
        match discover_spec(listing_view(*listing), min_size_bytes) {
            Ok(paths) => found is Ok && texts(found->Ok_0@) == paths,
            Err(e) => found == Err::<Vec<String>, ScanError>(e),
        },
{
    match listing {
        Ok(entries) => Ok(candidates(entries, min_size_bytes)),
        Err(e) => Err(*e),
    }
}

/// Whether the text of a device's sector-count attribute shows that the
/// device is there: the attribute exists, states a number, and the number is
/// not zero.
pub open spec fn is_valid_spec(size_text: Option<Seq<char>>) -> bool {
    match size_text {
        Some(text) => match sector_count_spec(text) {
            Some(sectors) => sectors > 0,
            None => false,
        },
        None => false,
    }
}

/// The content of an optional string.
pub open spec fn optional_text(text: Option<String>) -> Option<Seq<char>> {
    match text {
        Some(text) => Some(text@),
        None => None,
    }
}

/// Whether the text of a device's sector-count attribute shows that the
/// device is there.
pub fn is_valid(size_text: &Option<String>) -> (valid: bool)
    ensures
        valid == is_valid_spec(optional_text(*size_text)),
{
    match size_text {
        Some(text) => match parse_sector_count(text.as_str()) {
            Some(sectors) => sectors > 0,
            None => false,
        },
        None => false,
    }
}

/// `s` with every occurrence of `from` replaced by `to`, the occurrences
/// taken from the left and not overlapping. An empty `from` occurs nowhere.
pub open spec fn replaced(s: Seq<char>, from: Seq<char>, to: Seq<char>) -> Seq<char>
    decreases s.len(),
{
    if from.len() == 0 || s.len() < from.len() {
        s
    } else if s.take(from.len() as int) == from {
        to + replaced(s.skip(from.len() as int), from, to)
    } else {
        seq![s[0]] + replaced(s.skip(1), from, to)
    }
}

/// The directory of the registry, as it starts the path of an entry.
pub open spec fn registry_prefix() -> Seq<char> {
    "/sys/block/"@
}

/// The directory of the device nodes, as it starts the path of a node.
pub open spec fn device_prefix() -> Seq<char> {
    "/dev/"@
}

/// The name of the sector-count attribute, as it ends the path of one.
pub open spec fn size_suffix() -> Seq<char> {
    "/size"@
}

/// The path of the device node that belongs to a registry entry.
pub open spec fn device_node_spec(entry_path: Seq<char>) -> Seq<char> {
    replaced(entry_path, registry_prefix(), device_prefix())
}

/// The path of the sector-count attribute that belongs to a device node.
pub open spec fn size_attribute_spec(device: Seq<char>) -> Seq<char> {
    replaced(device, device_prefix(), registry_prefix()) + size_suffix()
}

fn occurs_at(text: &str, at: usize, pattern: &str) -> (occurs: bool)
    requires
        at <= text@.len(),
    ensures
        occurs == (at + pattern@.len() <= text@.len() && text@.subrange(
            at as int,
            at + pattern@.len(),
        ) == pattern@),
{
    let n = text.unicode_len();
    let m = pattern.unicode_len();
    if m > n - at {
        return false;
    }
    let mut k: usize = 0;
    while k < m
        invariant
            n == text@.len(),
            m == pattern@.len(),
            at + m <= n,
            k <= m,
            forall|j: int| 0 <= j < k ==> text@[at + j] == pattern@[j],
        decreases m - k,
    {
        if text.get_char(at + k) != pattern.get_char(k) {
            assert(text@.subrange(at as int, at + m)[k as int] != pattern@[k as int]);
            return false;
        }
        k = k + 1;
    }
    assert(text@.subrange(at as int, at + m) =~= pattern@);
    true
}

fn replace_all(text: &str, from: &str, to: &str) -> (out: String)
    requires
        from@.len() > 0,
    ensures
        out@ == replaced(text@, from@, to@),
{
    let n = text.unicode_len();
    let m = from.unicode_len();
    let mut out = String::new();
    let mut i: usize = 0;
    assert(text@.skip(0) =~= text@);
    assert(out@ + replaced(text@, from@, to@) =~= replaced(text@, from@, to@));
    while i < n
        invariant
            n == text@.len(),
            m == from@.len(),
            m > 0,
            i <= n,
            out@ + replaced(text@.skip(i as int), from@, to@) == replaced(text@, from@, to@),
        decreases n - i,
    {
        let ghost rest = text@.skip(i as int);
        let ghost done = out@;
        if occurs_at(text, i, from) {
            proof {
                assert(rest.take(m as int) =~= text@.subrange(i as int, i + m));
                assert(rest.skip(m as int) =~= text@.skip(i + m));
            }
            out.append(to);
            i = i + m;
            assert(out@ + replaced(text@.skip(i as int), from@, to@) =~= done + (to@ + replaced(
                text@.skip(i as int),
                from@,
                to@,
            )));
        } else {
            proof {
                if rest.len() >= m {
                    assert(rest.take(m as int) =~= text@.subrange(i as int, i + m));
                }
                assert(rest.skip(1) =~= text@.skip(i + 1));
                assert(text@.subrange(i as int, i + 1) =~= seq![rest[0]]);
                lemma_replaced_steps_over(rest, from@, to@);
            }
            out.append(text.substring_char(i, i + 1));
            i = i + 1;
            assert(out@ + replaced(text@.skip(i as int), from@, to@) =~= done + (seq![rest[0]]
                + replaced(text@.skip(i as int), from@, to@)));
        }
    }
    assert(text@.skip(n as int) =~= Seq::<char>::empty());
    assert(out@ + Seq::<char>::empty() =~= out@);
    out
}

proof fn lemma_replaced_steps_over(s: Seq<char>, from: Seq<char>, to: Seq<char>)
    requires
        from.len() > 0,
        s.len() > 0,
        s.len() < from.len() || s.take(from.len() as int) != from,
    ensures
        replaced(s, from, to) == seq![s[0]] + replaced(s.skip(1), from, to),
    decreases s.len(),
{
    if s.len() < from.len() {
        let rest = s.skip(1);
        assert(rest.len() < from.len());
        assert(replaced(rest, from, to) == rest);
        assert(seq![s[0]] + rest =~= s);
    }
}

/// The path of the device node that belongs to a registry entry.
pub fn device_node_path(entry_path: &str) -> (device: String)
    ensures
        device@ == device_node_spec(entry_path@),
{
    proof {
        reveal_strlit("/sys/block/");
    }
    replace_all(entry_path, "/sys/block/", "/dev/")
}

/// The path of the sector-count attribute that belongs to a device node.
pub fn size_attribute_path(device: &str) -> (attribute: String)
    ensures
        attribute@ == size_attribute_spec(device@),
{
    proof {
        reveal_strlit("/dev/");
    }
    let mut attribute = replace_all(device, "/dev/", "/sys/block/");
    attribute.append("/size");
    attribute
}

} // verus!
