//! ORCID identifiers: a fixed array of 15 decimal digits plus an ISO 7064
//! MOD 11-2 check value, parsed from any of the accepted textual forms and
//! rendered back as a URL, a hyphenated group form, or a compact form.

use crate::text::push_char;
use crate::text::push_chars;
use crate::text::starts_with;
use crate::text::starts_with_spec;
use vstd::prelude::*;

verus! {

/// The URL prefixes that may precede an ORCID, checked in this order.
pub open spec fn orcid_base_chars() -> Seq<char> {
    "https://orcid.org/"@
}

pub open spec fn orcid_base_http_chars() -> Seq<char> {
    "http://orcid.org/"@
}

/// True iff `c` is a decimal digit.
pub open spec fn is_digit_char(c: char) -> bool {
    ('0' as int) <= c as int <= ('9' as int)
}

/// The value of a decimal digit character (meaningful when `is_digit_char(c)`).
pub open spec fn digit_val(c: char) -> u8 {
    (c as int - ('0' as int)) as u8
}

/// The character that displays a digit in 0..=9.
pub open spec fn char_of_digit(d: u8) -> char {
    (d + ('0' as int)) as char
}

/// True iff `c` may stand in the final (check) position: a digit, or `X`.
pub open spec fn is_check_char(c: char) -> bool {
    is_digit_char(c) || c == 'X'
}

/// The check value denoted by a final character (meaningful when
/// `is_check_char(c)`): digits stand for themselves, `X` stands for 10.
pub open spec fn check_value_of(c: char) -> u8 {
    if c == 'X' {
        10
    } else {
        digit_val(c)
    }
}

/// The character that displays a check value in 0..=10.
pub open spec fn char_of_check(k: u8) -> char {
    if k == 10 {
        'X'
    } else {
        char_of_digit(k)
    }
}

/// Why a piece of text (or a digit array) was rejected as an ORCID.
#[derive(Debug, Clone, Copy, PartialEq, Eq)]
pub enum OrcIdError {
    /// A character that is neither a digit, a separating hyphen, nor a
    /// final `X` was met while scanning.
    InvalidCharacter { ch: char },
    /// Fewer than 16 meaningful characters were found.
    TooShort,
    /// More than 16 meaningful characters were found.
    TooLong,
    /// The final check character does not match the checksum of the digits.
    ChecksumMismatch { expected: u8, found: u8 },
    /// A pre-built digit array held a value above 9.
    InvalidDigit { digit: u8 },
}

/// The ISO 7064 MOD 11-2 accumulator: left to right, `acc = (acc + digit) * 2`.
pub open spec fn checksum_acc(digits: Seq<u8>) -> int
    decreases digits.len(),
{
    if digits.len() == 0 {
        0
    } else {
        (checksum_acc(digits.drop_last()) + digits.last()) * 2
    }
}

/// The ISO 7064 MOD 11-2 check value of a digit sequence: `(12 - acc % 11) % 11`.
/// A value of 10 is displayed as `X`.
pub open spec fn checksum_spec(digits: Seq<u8>) -> int {
    (12 - checksum_acc(digits) % 11) % 11
}

proof fn lemma_checksum_acc_nonneg(digits: Seq<u8>)
    ensures
        0 <= checksum_acc(digits),
    decreases digits.len(),
{
    if digits.len() > 0 {
        lemma_checksum_acc_nonneg(digits.drop_last());
    }
}

/// The check value is always in `0..=10`, whatever the digits are.
pub proof fn lemma_checksum_range(digits: Seq<u8>)
    ensures
        0 <= checksum_spec(digits) <= 10,
{
    lemma_checksum_acc_nonneg(digits);
}

/// Largest accumulator value reachable with `n` digits that are all at most 9.
spec fn acc_bound(n: nat) -> int
    decreases n,
{
    if n == 0 {
        0
    } else {
        (acc_bound((n - 1) as nat) + 9) * 2
    }
}

proof fn lemma_acc_bound_nonneg(n: nat)
    ensures
        0 <= acc_bound(n),
    decreases n,
{
    if n > 0 {
        lemma_acc_bound_nonneg((n - 1) as nat);
    }
}

proof fn lemma_acc_bound_mono(m: nat, n: nat)
    requires
        m <= n,
    ensures
        acc_bound(m) <= acc_bound(n),
    decreases n,
{
    if m < n {
        lemma_acc_bound_mono(m, (n - 1) as nat);
        lemma_acc_bound_nonneg((n - 1) as nat);
    }
}

proof fn lemma_checksum_acc_bound(digits: Seq<u8>)
    requires
        forall|i: int| 0 <= i < digits.len() ==> digits[i] <= 9,
    ensures
        checksum_acc(digits) <= acc_bound(digits.len()),
    decreases digits.len(),
{
    if digits.len() > 0 {
        lemma_checksum_acc_bound(digits.drop_last());
    }
}

/// With at most 15 digits the accumulator stays below `2^20`, so the running
/// total fits comfortably in a `u32`.
proof fn lemma_checksum_acc_small(digits: Seq<u8>)
    requires
        forall|i: int| 0 <= i < digits.len() ==> digits[i] <= 9,
        digits.len() <= 15,
    ensures
        checksum_acc(digits) <= 589806,
{
    lemma_checksum_acc_bound(digits);
    lemma_acc_bound_mono(digits.len(), 15);
    reveal_with_fuel(acc_bound, 16);
    assert(acc_bound(15) == 589806);
}

/// A canonical ORCID value: 15 digits and the check value they imply.
/// A value whose check value disagrees with its digits cannot be built.
#[derive(Debug, Clone, Copy, PartialEq, Eq, Hash, PartialOrd, Ord)]
pub struct OrcId {
    /// All values are in 0..=9.
    id: [u8; 15],
    /// Check value, in 0..=10.
    checksum: u8,
}

impl OrcId {
    /// Internal consistency: the digits are decimal and the stored check
    /// value is their ISO 7064 MOD 11-2 checksum. Every constructor
    /// establishes this, so a mismatched value cannot be built.
    pub closed spec fn valid(self) -> bool {
        &&& forall|i: int| 0 <= i < 15 ==> self.id@[i] <= 9
        &&& self.checksum == checksum_spec(self.id@)
    }

    /// The 15 digits, as a sequence.
    pub closed spec fn digits(self) -> Seq<u8> {
        self.id@
    }

    /// The stored check value.
    pub closed spec fn checksum_value(self) -> u8 {
        self.checksum
    }

    /// What validity gives: decimal digits, and a check value in 0..=10 that
    /// is the checksum of the digits.
    pub proof fn lemma_valid(self)
        requires
            self.valid(),
        ensures
            self.digits().len() == 15,
            forall|i: int| 0 <= i < 15 ==> self.digits()[i] <= 9,
            self.checksum_value() == checksum_spec(self.digits()),
            self.checksum_value() <= 10,
    {
        lemma_checksum_range(self.digits());
    }

    /// Compute the ISO 7064 MOD 11-2 check value of a digit array.
    /// Fails if any of the digits is above 9.
    pub fn calc_checksum(arr: &[u8; 15]) -> (r: Result<u8, OrcIdError>)
        ensures
            r is Ok <==> forall|i: int| 0 <= i < 15 ==> arr@[i] <= 9,
            r matches Ok(k) ==> k == checksum_spec(arr@),
            r matches Err(e) ==> exists|i: int|
                {
                    &&& 0 <= i < 15
                    &&& #[trigger] arr@[i] > 9
                    &&& e == (OrcIdError::InvalidDigit { digit: arr@[i] })
                    &&& forall|j: int| 0 <= j < i ==> arr@[j] <= 9
                },
    {
        let mut total: u32 = 0;
        let mut i: usize = 0;
        while i < 15
            invariant
                i <= 15,
                forall|j: int| 0 <= j < i ==> arr@[j] <= 9,
                total == checksum_acc(arr@.take(i as int)),
            decreases 15 - i,
        {
            let n = arr[i];
            if n > 9 {
                return Err(OrcIdError::InvalidDigit { digit: n });
            }
            proof {
                assert(arr@.take(i + 1).drop_last() =~= arr@.take(i as int));
                assert(arr@.take(i + 1).last() == arr@[i as int]);
                lemma_checksum_acc_small(arr@.take(i + 1));
            }
            total = (total + n as u32) * 2;
            i = i + 1;
        }
        proof {
            assert(arr@.take(15) =~= arr@);
            lemma_checksum_acc_nonneg(arr@);
        }
        let remainder = total % 11;
        Ok(((12 - remainder) % 11) as u8)
    }

    /// Build an ORCID from its 15 digits, deriving the check value.
    /// Fails if any of the digits is above 9.
    pub fn try_new(id: [u8; 15]) -> (r: Result<Self, OrcIdError>)
        ensures
            r is Ok <==> forall|i: int| 0 <= i < 15 ==> id@[i] <= 9,
            r matches Ok(o) ==> o.valid() && o.digits() == id@ && o.checksum_value()
                == checksum_spec(id@),
            r matches Err(e) ==> exists|i: int|
                {
                    &&& 0 <= i < 15
                    &&& #[trigger] id@[i] > 9
                    &&& e == (OrcIdError::InvalidDigit { digit: id@[i] })
                    &&& forall|j: int| 0 <= j < i ==> id@[j] <= 9
                },
    {
        let checksum = match Self::calc_checksum(&id) {
            Ok(k) => k,
            Err(e) => {
                return Err(e);
            },
        };
        Ok(OrcId { id, checksum })
    }

    /// Build an ORCID from its 15 digits and a claimed check value.
    /// Fails if a digit is above 9 or the claimed value is not the checksum.
    pub fn try_new_checked(id: [u8; 15], checksum: u8) -> (r: Result<Self, OrcIdError>)
        ensures
            r is Ok <==> (forall|i: int| 0 <= i < 15 ==> id@[i] <= 9) && checksum
                == checksum_spec(id@),
            r matches Ok(o) ==> o.valid() && o.digits() == id@ && o.checksum_value() == checksum,
            r matches Err(e) ==> e == (OrcIdError::ChecksumMismatch {
                expected: checksum_spec(id@) as u8,
                found: checksum,
            }) || exists|i: int|
                {
                    &&& 0 <= i < 15
                    &&& #[trigger] id@[i] > 9
                    &&& e == (OrcIdError::InvalidDigit { digit: id@[i] })
                    &&& forall|j: int| 0 <= j < i ==> id@[j] <= 9
                },
    {
        let expected = match Self::calc_checksum(&id) {
            Ok(k) => k,
            Err(e) => {
                return Err(e);
            },
        };
        if expected != checksum {
            return Err(OrcIdError::ChecksumMismatch { expected, found: checksum });
        }
        Ok(OrcId { id, checksum })
    }
}

/// The input with a recognized `orcid.org` URL prefix removed, the HTTPS
/// form checked before the HTTP form.
pub open spec fn trimmed_chars(s: Seq<char>) -> Seq<char> {
    if starts_with_spec(s, orcid_base_chars()) {
        s.skip(orcid_base_chars().len() as int)
    } else if starts_with_spec(s, orcid_base_http_chars()) {
        s.skip(orcid_base_http_chars().len() as int)
    } else {
        s
    }
}

/// The sequence with every hyphen removed.
pub open spec fn strip_hyphens(s: Seq<char>) -> Seq<char>
    decreases s.len(),
{
    if s.len() == 0 {
        Seq::empty()
    } else if s.first() == '-' {
        strip_hyphens(s.drop_first())
    } else {
        seq![s.first()] + strip_hyphens(s.drop_first())
    }
}

/// The meaningful characters of input text: URL prefix removed, then every
/// hyphen skipped.
pub open spec fn meaningful_of(s: Seq<char>) -> Seq<char> {
    strip_hyphens(trimmed_chars(s))
}

proof fn lemma_strip_concat(a: Seq<char>, b: Seq<char>)
    ensures
        strip_hyphens(a + b) == strip_hyphens(a) + strip_hyphens(b),
    decreases a.len(),
{
    if a.len() == 0 {
        assert(a + b =~= b);
        assert(strip_hyphens(a) + strip_hyphens(b) =~= strip_hyphens(b));
    } else {
        assert((a + b).len() > 0);
        assert((a + b).first() == a.first());
        assert((a + b).drop_first() =~= a.drop_first() + b);
        lemma_strip_concat(a.drop_first(), b);
        if a.first() != '-' {
            assert(seq![a.first()] + (strip_hyphens(a.drop_first()) + strip_hyphens(b)) =~= (seq![
                a.first(),
            ] + strip_hyphens(a.drop_first())) + strip_hyphens(b));
        }
    }
}

proof fn lemma_strip_push(s: Seq<char>, c: char)
    ensures
        strip_hyphens(s.push(c)) == strip_hyphens(s) + (if c != '-' {
            seq![c]
        } else {
            Seq::<char>::empty()
        }),
{
    assert(s.push(c) =~= s + seq![c]);
    lemma_strip_concat(s, seq![c]);
    assert(seq![c].drop_first() =~= Seq::<char>::empty());
    assert(strip_hyphens(Seq::<char>::empty()) == Seq::<char>::empty());
    if c != '-' {
        assert(strip_hyphens(seq![c]) =~= seq![c]);
    }
}

proof fn lemma_strip_all_kept(s: Seq<char>)
    requires
        forall|i: int| 0 <= i < s.len() ==> s[i] != '-',
    ensures
        strip_hyphens(s) == s,
    decreases s.len(),
{
    if s.len() > 0 {
        assert(forall|i: int|
            0 <= i < s.drop_first().len() ==> s.drop_first()[i] == s[i + 1] && s[i + 1] != '-');
        lemma_strip_all_kept(s.drop_first());
        assert(seq![s.first()] + s.drop_first() =~= s);
    }
}

/// Whether the character at meaningful position `i` is acceptable: a digit
/// in the first fifteen positions, a digit or `X` in the sixteenth.
pub open spec fn valid_at(m: Seq<char>, i: int) -> bool {
    if i < 15 {
        is_digit_char(m[i])
    } else {
        is_check_char(m[i])
    }
}

pub open spec fn first_invalid_from(m: Seq<char>, i: int) -> Option<int>
    decreases 16 - i,
{
    if i < 0 || i >= 16 || i >= m.len() {
        None
    } else if !valid_at(m, i) {
        Some(i)
    } else {
        first_invalid_from(m, i + 1)
    }
}

/// The first position among the first sixteen meaningful characters whose
/// character is not acceptable there, if any.
pub open spec fn first_invalid(m: Seq<char>) -> Option<int> {
    first_invalid_from(m, 0)
}

proof fn lemma_first_invalid_some(m: Seq<char>, k: int)
    requires
        0 <= k < m.len(),
        k < 16,
        !valid_at(m, k),
        forall|j: int| 0 <= j < k ==> valid_at(m, j),
    ensures
        first_invalid(m) == Some(k),
{
    lemma_first_invalid_from_some(m, 0, k);
}

proof fn lemma_first_invalid_from_some(m: Seq<char>, i: int, k: int)
    requires
        0 <= i <= k < m.len(),
        k < 16,
        !valid_at(m, k),
        forall|j: int| i <= j < k ==> valid_at(m, j),
    ensures
        first_invalid_from(m, i) == Some(k),
    decreases k - i,
{
    if i < k {
        lemma_first_invalid_from_some(m, i + 1, k);
    }
}

proof fn lemma_first_invalid_none(m: Seq<char>)
    requires
        forall|j: int| 0 <= j < 16 && j < m.len() ==> valid_at(m, j),
    ensures
        first_invalid(m) == None::<int>,
{
    lemma_first_invalid_from_none(m, 0);
}

proof fn lemma_first_invalid_from_none(m: Seq<char>, i: int)
    requires
        0 <= i,
        forall|j: int| i <= j < 16 && j < m.len() ==> valid_at(m, j),
    ensures
        first_invalid_from(m, i) == None::<int>,
    decreases 16 - i,
{
    if 0 <= i < 16 && i < m.len() {
        lemma_first_invalid_from_none(m, i + 1);
    }
}

/// What parsing a piece of text as an ORCID yields: either the 15 digits
/// and the check value, or the error met first while scanning left to
/// right. Scanning reads the 16 meaningful characters in order; an
/// unacceptable character is reported where it stands, a checksum mismatch
/// is discovered when the sixteenth character is read, and surplus
/// characters are only discovered after that.
pub open spec fn orcid_parse_spec(s: Seq<char>) -> Result<(Seq<u8>, u8), OrcIdError> {
    let m = meaningful_of(s);
    match first_invalid(m) {
        Some(i) => Err(OrcIdError::InvalidCharacter { ch: m[i] }),
        None => {
            if m.len() < 16 {
                Err(OrcIdError::TooShort)
            } else {
                let digits = m.take(15).map_values(|c: char| digit_val(c));
                let expected = checksum_spec(digits);
                let found = check_value_of(m[15]);
                if expected != found {
                    Err(OrcIdError::ChecksumMismatch { expected: expected as u8, found })
                } else if m.len() > 16 {
                    Err(OrcIdError::TooLong)
                } else {
                    Ok((digits, found))
                }
            }
        },
    }
}

/// Remove a recognized `orcid.org` URL prefix, HTTPS checked before HTTP;
/// other text is returned unchanged.
pub fn trim_base_url(s: &str) -> (r: &str)
    ensures
        r@ == trimmed_chars(s@),
{
    if starts_with(s, "https://orcid.org/") {
        proof {
            reveal_strlit("https://orcid.org/");
        }
        s.substring_char(18, s.unicode_len())
    } else if starts_with(s, "http://orcid.org/") {
        proof {
            reveal_strlit("http://orcid.org/");
        }
        s.substring_char(17, s.unicode_len())
    } else {
        s
    }
}

fn char_to_digit(c: char) -> (r: Option<u8>)
    ensures
        r is Some <==> is_digit_char(c),
        r matches Some(d) ==> d == digit_val(c) && d <= 9,
{
    let v = c as u32;
    if 48 <= v && v <= 57 {
        Some((v - 48) as u8)
    } else {
        None
    }
}

/// The sixteen meaningful characters of an ORCID: its 15 digits, then its
/// check character. Every rendering walks this sequence.
pub open spec fn meaningful_chars(o: OrcId) -> Seq<char> {
    o.digits().map_values(|d: u8| char_of_digit(d)).push(char_of_check(o.checksum_value()))
}

/// The meaningful characters with a hyphen after every group of four.
pub open spec fn hyphenated_chars(o: OrcId) -> Seq<char> {
    let m = meaningful_chars(o);
    m.subrange(0, 4) + seq!['-'] + m.subrange(4, 8) + seq!['-'] + m.subrange(8, 12) + seq!['-']
        + m.subrange(12, 16)
}

proof fn lemma_meaningful_facts(o: OrcId)
    requires
        o.valid(),
    ensures
        meaningful_chars(o).len() == 16,
        forall|i: int|
            0 <= i < 15 ==> is_digit_char(#[trigger] meaningful_chars(o)[i]) && digit_val(
                meaningful_chars(o)[i],
            ) == o.digits()[i],
        is_check_char(meaningful_chars(o)[15]),
        check_value_of(meaningful_chars(o)[15]) == o.checksum_value(),
        forall|i: int| 0 <= i < 16 ==> #[trigger] meaningful_chars(o)[i] != '-',
        forall|i: int| 0 <= i < 16 ==> valid_at(meaningful_chars(o), i),
{
    o.lemma_valid();
    let m = meaningful_chars(o);
    assert forall|i: int| 0 <= i < 15 implies is_digit_char(#[trigger] m[i]) && digit_val(m[i])
        == o.digits()[i] && m[i] != '-' by {
        assert(m[i] == char_of_digit(o.digits()[i]));
    }
    if o.checksum_value() == 10 {
        assert(m[15] == 'X');
    } else {
        assert(m[15] == char_of_digit(o.checksum_value()));
    }
}

proof fn lemma_strip_hyphenated(o: OrcId)
    requires
        o.valid(),
    ensures
        strip_hyphens(hyphenated_chars(o)) == meaningful_chars(o),
{
    lemma_meaningful_facts(o);
    let m = meaningful_chars(o);
    let g1 = m.subrange(0, 4);
    let g2 = m.subrange(4, 8);
    let g3 = m.subrange(8, 12);
    let g4 = m.subrange(12, 16);
    let hy = seq!['-'];
    lemma_strip_concat(g1 + hy + g2 + hy + g3 + hy, g4);
    lemma_strip_concat(g1 + hy + g2 + hy + g3, hy);
    lemma_strip_concat(g1 + hy + g2 + hy, g3);
    lemma_strip_concat(g1 + hy + g2, hy);
    lemma_strip_concat(g1 + hy, g2);
    lemma_strip_concat(g1, hy);
    assert(strip_hyphens(hy) == Seq::<char>::empty()) by {
        assert(hy.drop_first() =~= Seq::<char>::empty());
        assert(strip_hyphens(Seq::<char>::empty()) == Seq::<char>::empty());
    }
    lemma_strip_all_kept(g1);
    lemma_strip_all_kept(g2);
    lemma_strip_all_kept(g3);
    lemma_strip_all_kept(g4);
    assert(strip_hyphens(hyphenated_chars(o)) =~= m);
}

/// Round trip: rendering an ORCID in any format and parsing the rendered
/// text yields exactly the original digits and check value.
pub proof fn lemma_render_parse_round_trip(o: OrcId, f: Format)
    requires
        o.valid(),
    ensures
        orcid_parse_spec(format_chars(f, o)) == Ok::<(Seq<u8>, u8), OrcIdError>(
            (o.digits(), o.checksum_value()),
        ),
{
    o.lemma_valid();
    lemma_meaningful_facts(o);
    let m = meaningful_chars(o);
    let s = format_chars(f, o);
    reveal_strlit("https://orcid.org/");
    reveal_strlit("http://orcid.org/");
    let base = orcid_base_chars();
    let base_http = orcid_base_http_chars();
    match f {
        Format::Url => {
            assert(s.take(base.len() as int) =~= base);
            assert(starts_with_spec(s, base));
            assert(s.skip(base.len() as int) =~= hyphenated_chars(o));
            lemma_strip_hyphenated(o);
        },
        Format::Hyphen => {
            let h = hyphenated_chars(o);
            assert(h.len() == 19);
            assert(h[0] == m[0]);
            assert(!starts_with_spec(s, base)) by {
                if starts_with_spec(s, base) {
                    assert(s.take(base.len() as int)[0] == base[0]);
                }
            }
            assert(!starts_with_spec(s, base_http)) by {
                if starts_with_spec(s, base_http) {
                    assert(s.take(base_http.len() as int)[0] == base_http[0]);
                }
            }
            assert(trimmed_chars(s) == h);
            lemma_strip_hyphenated(o);
        },
        Format::Short => {
            assert(m.len() == 16 < base_http.len() < base.len());
            assert(trimmed_chars(s) == m);
            lemma_strip_all_kept(m);
        },
    }
    assert(meaningful_of(s) == m);
    lemma_first_invalid_none(m);
    let digits = m.take(15).map_values(|c: char| digit_val(c));
    assert(digits =~= o.digits());
    assert(check_value_of(m[15]) == o.checksum_value());
    assert(checksum_spec(digits) == o.checksum_value());
}

/// How an ORCID is displayed.
#[derive(Debug, PartialEq, Eq, Hash, PartialOrd, Ord, Clone, Copy)]
pub enum Format {
    /// The sixteen meaningful characters, without hyphens.
    Short,
    /// The meaningful characters, hyphenated in groups of four.
    Hyphen,
    /// The `https://orcid.org/` prefix followed by the hyphenated form.
    Url,
}

impl Default for Format {
    fn default() -> (r: Self)
        ensures
            r == Format::Url,
    {
        Format::Url
    }
}

/// The characters produced by rendering `o` in format `f`.
pub open spec fn format_chars(f: Format, o: OrcId) -> Seq<char> {
    match f {
        Format::Short => meaningful_chars(o),
        Format::Hyphen => hyphenated_chars(o),
        Format::Url => orcid_base_chars() + hyphenated_chars(o),
    }
}

/// An ORCID together with a chosen display format.
#[derive(Debug, Clone, Copy)]
pub struct Formatted {
    format: Format,
    orcid: OrcId,
}

impl Formatted {
    pub closed spec fn format(self) -> Format {
        self.format
    }

    pub closed spec fn orcid(self) -> OrcId {
        self.orcid
    }

    /// Render the ORCID in the chosen format.
    pub fn to_string(&self) -> (r: String)
        requires
            self.orcid().valid(),
        ensures
            r@ == format_chars(self.format(), self.orcid()),
    {
        let mut out = String::new();
        match self.format {
            Format::Short => {
                let cs = self.orcid.iter();
                push_chars(&mut out, &cs, 0, 16);
                proof {
                    assert(cs@.subrange(0, 16) =~= meaningful_chars(self.orcid()));
                }
            },
            Format::Hyphen => {
                push_hyphenated(&mut out, &self.orcid);
            },
            Format::Url => {
                out = String::from_str("https://orcid.org/");
                push_hyphenated(&mut out, &self.orcid);
            },
        }
        out
    }
}

impl From<Formatted> for OrcId {
    /// A formatted view gives back the value it formats.
    fn from(value: Formatted) -> (r: Self) {
        value.orcid
    }
}

impl vstd::std_specs::convert::FromSpecImpl<Formatted> for OrcId {
    open spec fn obeys_from_spec() -> bool {
        true
    }

    open spec fn from_spec(t: Formatted) -> Self {
        t.orcid()
    }
}

/// Append the hyphenated form of `o` to `out`.
fn push_hyphenated(out: &mut String, o: &OrcId)
    requires
        o.valid(),
    ensures
        final(out)@ == old(out)@ + hyphenated_chars(*o),
{
    let cs = o.iter();
    push_chars(out, &cs, 0, 4);
    push_char(out, '-');
    push_chars(out, &cs, 4, 8);
    push_char(out, '-');
    push_chars(out, &cs, 8, 12);
    push_char(out, '-');
    push_chars(out, &cs, 12, 16);
    proof {
        assert(final(out)@ =~= old(out)@ + hyphenated_chars(*o));
    }
}

impl OrcId {
    /// The full URL rendering.
    pub fn full(&self) -> (r: Formatted)
        ensures
            r.format() == Format::Url && r.orcid() == *self,
    {
        Formatted { format: Format::Url, orcid: *self }
    }

    /// The compact rendering, digits and check character only.
    pub fn short(&self) -> (r: Formatted)
        ensures
            r.format() == Format::Short && r.orcid() == *self,
    {
        Formatted { format: Format::Short, orcid: *self }
    }

    /// The hyphenated rendering without the URL prefix.
    pub fn id_only(&self) -> (r: Formatted)
        ensures
            r.format() == Format::Hyphen && r.orcid() == *self,
    {
        Formatted { format: Format::Hyphen, orcid: *self }
    }

    /// Parse an ORCID from text: an optional `orcid.org` URL prefix is
    /// removed, hyphens are skipped, and the 16 remaining characters are
    /// scanned left to right — 15 digits, then a digit-or-`X` check
    /// character that must match the checksum of the digits.
    pub fn from_str(s: &str) -> (r: Result<Self, OrcIdError>)
        ensures
            ({
                let p = orcid_parse_spec(s@);
                match r {
                    Ok(o) => {
                        &&& o.valid()
                        &&& p matches Ok(pair) && pair.0 == o.digits() && pair.1
                            == o.checksum_value()
                    },
                    Err(e) => p matches Err(pe) && pe == e,
                }
            }),
    {
        let t = trim_base_url(s);
        let n = t.unicode_len();
        let ghost m = meaningful_of(s@);
        let mut arr = [0u8; 15];
        let mut parsed: Option<OrcId> = None;
        let mut count: usize = 0;
        let mut i: usize = 0;
        while i < n
            invariant
                t@ == trimmed_chars(s@),
                m == meaningful_of(s@),
                n == t@.len(),
                i <= n,
                count <= 16,
                count <= m.len(),
                strip_hyphens(t@.take(i as int)) == m.take(count as int),
                forall|j: int|
                    0 <= j < count && j < 15 ==> arr@[j] == digit_val(m[j]) && arr@[j] <= 9,
                forall|j: int| 0 <= j < count ==> valid_at(m, j),
                parsed is Some <==> count == 16,
                parsed matches Some(o) ==> {
                    &&& o.valid()
                    &&& o.digits() == m.take(15).map_values(|c: char| digit_val(c))
                    &&& o.checksum_value() == check_value_of(m[15])
                    &&& checksum_spec(o.digits()) == check_value_of(m[15])
                },
            decreases n - i,
        {
            let c = t.get_char(i);
            proof {
                assert(t@.take(i + 1) =~= t@.take(i as int).push(t@[i as int]));
                lemma_strip_push(t@.take(i as int), t@[i as int]);
                assert(t@ =~= t@.take(i + 1) + t@.skip(i + 1));
                lemma_strip_concat(t@.take(i + 1), t@.skip(i + 1));
            }
            if c != '-' {
                proof {
                    assert(m =~= m.take(count as int).push(c) + strip_hyphens(t@.skip(i + 1)));
                    assert(count < m.len());
                    assert(m[count as int] == c);
                    assert(m.take(count + 1) =~= m.take(count as int).push(c));
                }
                if count < 15 {
                    match char_to_digit(c) {
                        Some(d) => {
                            arr[count] = d;
                            count = count + 1;
                        },
                        None => {
                            proof {
                                lemma_first_invalid_some(m, count as int);
                            }
                            return Err(OrcIdError::InvalidCharacter { ch: c });
                        },
                    }
                } else if count == 15 {
                    let chk_opt: Option<u8> = if c == 'X' {
                        Some(10)
                    } else {
                        char_to_digit(c)
                    };
                    match chk_opt {
                        None => {
                            proof {
                                lemma_first_invalid_some(m, 15);
                            }
                            return Err(OrcIdError::InvalidCharacter { ch: c });
                        },
                        Some(chk) => {
                            proof {
                                assert(arr@ =~= m.take(15).map_values(|c: char| digit_val(c)));
                                assert(check_value_of(m[15]) == chk);
                            }
                            match Self::try_new_checked(arr, chk) {
                                Ok(o) => {
                                    parsed = Some(o);
                                    count = count + 1;
                                },
                                Err(e) => {
                                    proof {
                                        lemma_first_invalid_none(m);
                                    }
                                    return Err(e);
                                },
                            }
                        },
                    }
                } else {
                    proof {
                        lemma_first_invalid_none(m);
                    }
                    return Err(OrcIdError::TooLong);
                }
            }
            i = i + 1;
        }
        proof {
            assert(t@.take(n as int) =~= t@);
            assert(m.take(count as int) == m);
            assert(count == m.len());
        }
        match parsed {
            Some(o) => {
                proof {
                    lemma_first_invalid_none(m);
                }
                Ok(o)
            },
            None => {
                proof {
                    lemma_first_invalid_none(m);
                }
                Err(OrcIdError::TooShort)
            },
        }
    }

    /// The URL rendering, which is also how an ORCID displays by default.
    pub fn to_string(&self) -> (r: String)
        requires
            self.valid(),
        ensures
            r@ == format_chars(Format::Url, *self),
    {
        self.full().to_string()
    }

    /// The meaningful characters of the ORCID, digits then check character.
    pub fn iter(&self) -> (r: Vec<char>)
        requires
            self.valid(),
        ensures
            r@ == meaningful_chars(*self),
    {
        let mut out: Vec<char> = Vec::new();
        let mut i: usize = 0;
        while i < 15
            invariant
                self.valid(),
                i <= 15,
                out@.len() == i,
                forall|j: int| 0 <= j < i ==> out@[j] == char_of_digit(self.digits()[j]),
            decreases 15 - i,
        {
            proof {
                self.lemma_valid();
            }
            out.push((self.id[i] + 48) as char);
            i = i + 1;
        }
        proof {
            self.lemma_valid();
        }
        if self.checksum == 10 {
            out.push('X');
        } else {
            out.push((self.checksum + 48) as char);
        }
        proof {
            assert(out@ =~= meaningful_chars(*self));
        }
        out
    }
}

} // verus!
