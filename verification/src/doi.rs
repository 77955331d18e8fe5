//! DOI normalization: any URL-shaped text carrying a DOI is reduced to the
//! canonical `PREFIX/SUFFIX` form, upper case, and can be rendered back in
//! scheme, proxy-URL, or bare-name form.

use crate::text::push_char;
use vstd::prelude::*;

verus! {

/// Why a piece of text was rejected as a DOI.
#[derive(Debug, Clone, Copy, PartialEq, Eq)]
pub enum DoiError {
    /// The input is not a syntactically valid absolute URL.
    MalformedDoi,
    /// The URL has no usable path segments, or a needed segment is empty.
    MissingPrefixOrSuffix,
    /// The candidate prefix holds a character other than an ASCII digit or
    /// a dot.
    InvalidDoiPrefix { ch: char },
}

/// Whether the `url` crate accepts the text as an absolute URL.
pub uninterp spec fn url_parse_ok(s: Seq<char>) -> bool;

/// The slash-separated path segments of the parsed URL, or `None` for a
/// cannot-be-a-base URL. Meaningful only when `url_parse_ok(s)`.
pub uninterp spec fn url_path_segments(s: Seq<char>) -> Option<Seq<Seq<char>>>;

/// Relies on `url::Url::parse` (which texts are absolute URLs) and
/// `url::Url::path_segments` (the '/'-separated path segments of the parsed
/// URL, each a percent-encoded ASCII string, `None` for cannot-be-a-base
/// URLs). The last two clauses restate what the crate documents of the
/// segments: they are ASCII, and as pieces of a split on '/', they contain
/// no '/'.
#[verifier::external_body]
fn url_segments_of(s: &str) -> (r: Option<Option<Vec<String>>>)
    ensures
        r is Some <==> url_parse_ok(s@),
        r matches Some(segs) ==> (segs is Some <==> url_path_segments(s@) is Some),
        r matches Some(Some(v)) ==> url_path_segments(s@) == Some(v.deep_view()),
        r matches Some(Some(v)) ==> forall|i: int, j: int|
            0 <= i < v.deep_view().len() && 0 <= j < v.deep_view()[i].len()
                ==> (#[trigger] v.deep_view()[i][j] as int) < 128 && v.deep_view()[i][j] != '/',
{
    match url::Url::parse(s) {
        Ok(u) => match u.path_segments() {
            Some(it) => Some(Some(it.map(|seg| seg.to_string()).collect())),
            None => Some(None),
        },
        Err(_) => None,
    }
}

/// True iff `c` may stand in a DOI prefix: an ASCII digit or a dot.
pub open spec fn is_prefix_char(c: char) -> bool {
    c == '.' || ('0' as int) <= c as int <= ('9' as int)
}

/// ASCII uppercasing of one character; the segments a URL yields are ASCII.
pub open spec fn upper_char(c: char) -> char {
    if ('a' as int) <= c as int <= ('z' as int) {
        (c as int - 32) as char
    } else {
        c
    }
}

pub open spec fn upper_chars(s: Seq<char>) -> Seq<char> {
    s.map_values(|c: char| upper_char(c))
}

pub open spec fn first_bad_from(p: Seq<char>, i: int) -> Option<int>
    decreases p.len() - i,
{
    if i < 0 || i >= p.len() {
        None
    } else if !is_prefix_char(p[i]) {
        Some(i)
    } else {
        first_bad_from(p, i + 1)
    }
}

/// The position of the first character that may not stand in a DOI prefix,
/// if any.
pub open spec fn first_bad_prefix_char(p: Seq<char>) -> Option<int> {
    first_bad_from(p, 0)
}

proof fn lemma_first_bad_some(p: Seq<char>, k: int)
    requires
        0 <= k < p.len(),
        !is_prefix_char(p[k]),
        forall|j: int| 0 <= j < k ==> is_prefix_char(#[trigger] p[j]),
    ensures
        first_bad_prefix_char(p) == Some(k),
{
    lemma_first_bad_from_some(p, 0, k);
}

proof fn lemma_first_bad_from_some(p: Seq<char>, i: int, k: int)
    requires
        0 <= i <= k < p.len(),
        !is_prefix_char(p[k]),
        forall|j: int| i <= j < k ==> is_prefix_char(#[trigger] p[j]),
    ensures
        first_bad_from(p, i) == Some(k),
    decreases k - i,
{
    if i < k {
        lemma_first_bad_from_some(p, i + 1, k);
    }
}

proof fn lemma_first_bad_none(p: Seq<char>)
    requires
        forall|j: int| 0 <= j < p.len() ==> is_prefix_char(#[trigger] p[j]),
    ensures
        first_bad_prefix_char(p) == None::<int>,
{
    lemma_first_bad_from_none(p, 0);
}

proof fn lemma_first_bad_from_none(p: Seq<char>, i: int)
    requires
        0 <= i,
        forall|j: int| i <= j < p.len() ==> is_prefix_char(#[trigger] p[j]),
    ensures
        first_bad_from(p, i) == None::<int>,
    decreases p.len() - i,
{
    if i < p.len() {
        lemma_first_bad_from_none(p, i + 1);
    }
}

/// The candidate prefix: the second-to-last path segment, or the only one.
/// Meaningful when at least one segment exists.
pub open spec fn candidate_prefix(segs: Seq<Seq<char>>) -> Seq<char> {
    if segs.len() >= 2 {
        segs[segs.len() - 2]
    } else {
        segs[0]
    }
}

/// What normalising a URL's path segments yields: the last two segments
/// become prefix and suffix of the canonical value, both upper-cased. The
/// prefix must be non-empty and hold only ASCII digits and dots; the suffix
/// must be non-empty and is otherwise free. The prefix is judged before the
/// suffix is looked at.
pub open spec fn doi_segments_spec(segs: Seq<Seq<char>>) -> Result<Seq<char>, DoiError> {
    if segs.len() == 0 {
        Err(DoiError::MissingPrefixOrSuffix)
    } else {
        let prefix = candidate_prefix(segs);
        if prefix.len() == 0 {
            Err(DoiError::MissingPrefixOrSuffix)
        } else {
            match first_bad_prefix_char(prefix) {
                Some(i) => Err(DoiError::InvalidDoiPrefix { ch: prefix[i] }),
                None => {
                    if segs.len() < 2 || segs[segs.len() - 1].len() == 0 {
                        Err(DoiError::MissingPrefixOrSuffix)
                    } else {
                        Ok(
                            upper_chars(prefix) + seq!['/'] + upper_chars(
                                segs[segs.len() - 1],
                            ),
                        )
                    }
                },
            }
        }
    }
}

/// What parsing a piece of text as a DOI yields: the text must be an
/// absolute URL with ordinary path segments; the canonical value is then
/// built from the last two. Query strings and fragments never reach the
/// canonical value, since they are no part of any path segment.
pub open spec fn doi_parse_spec(s: Seq<char>) -> Result<Seq<char>, DoiError> {
    if !url_parse_ok(s) {
        Err(DoiError::MalformedDoi)
    } else {
        match url_path_segments(s) {
            None => Err(DoiError::MissingPrefixOrSuffix),
            Some(segs) => doi_segments_spec(segs),
        }
    }
}

pub open spec fn first_slash_from(v: Seq<char>, i: int) -> int
    decreases v.len() - i,
{
    if i < 0 || i >= v.len() {
        -1
    } else if v[i] == '/' {
        i
    } else {
        first_slash_from(v, i + 1)
    }
}

/// The position of the first `/` in the value, or -1 if there is none.
pub open spec fn slash_pos(v: Seq<char>) -> int {
    first_slash_from(v, 0)
}

proof fn lemma_slash_pos_at(v: Seq<char>, k: int)
    requires
        0 <= k < v.len(),
        v[k] == '/',
        forall|j: int| 0 <= j < k ==> #[trigger] v[j] != '/',
    ensures
        slash_pos(v) == k,
{
    lemma_first_slash_from_at(v, 0, k);
}

proof fn lemma_first_slash_from_at(v: Seq<char>, i: int, k: int)
    requires
        0 <= i <= k < v.len(),
        v[k] == '/',
        forall|j: int| i <= j < k ==> #[trigger] v[j] != '/',
    ensures
        first_slash_from(v, i) == k,
    decreases k - i,
{
    if i < k {
        lemma_first_slash_from_at(v, i + 1, k);
    }
}

/// Well-formedness of a canonical DOI value: a non-empty prefix of ASCII
/// digits and dots, one `/`, and a non-empty suffix of ASCII characters
/// that are already upper case and hold no further `/`.
pub open spec fn doi_value_wf(v: Seq<char>) -> bool {
    let k = slash_pos(v);
    &&& 0 < k
    &&& k + 1 < v.len()
    &&& v[k] == '/'
    &&& forall|j: int| 0 <= j < k ==> is_prefix_char(#[trigger] v[j])
    &&& forall|j: int|
        k < j < v.len() ==> #[trigger] v[j] != '/' && (v[j] as int) < 128 && upper_char(v[j])
            == v[j]
}

/// The part of a canonical value before its slash.
pub open spec fn doi_prefix_of(v: Seq<char>) -> Seq<char> {
    v.take(slash_pos(v))
}

/// The part of a canonical value after its slash.
pub open spec fn doi_suffix_of(v: Seq<char>) -> Seq<char> {
    v.skip(slash_pos(v) + 1)
}

/// A DOI, normalised to canonical `PREFIX/SUFFIX` form, upper case.
#[derive(Debug, Eq, PartialOrd, Ord, Hash, Clone)]
pub struct Doi {
    value: String,
}

impl View for Doi {
    type V = Seq<char>;

    closed spec fn view(&self) -> Seq<char> {
        self.value@
    }
}

impl PartialEq for Doi {
    fn eq(&self, other: &Self) -> bool {
        self.value.eq(&other.value)
    }
}

impl vstd::std_specs::cmp::PartialEqSpecImpl for Doi {
    open spec fn obeys_eq_spec() -> bool {
        true
    }

    open spec fn eq_spec(&self, other: &Doi) -> bool {
        self@ == other@
    }
}

impl Doi {
    /// Canonical values are always well-formed.
    pub open spec fn valid(self) -> bool {
        doi_value_wf(self@)
    }

    /// Parse a DOI from URL-shaped text. A bare name such as
    /// `10.1000/xyz` is not an absolute URL and must be given a scheme
    /// (`doi:` or a proxy prefix) by the caller first.
    pub fn from_str(s: &str) -> (r: Result<Self, DoiError>)
        ensures
            ({
                let p = doi_parse_spec(s@);
                match r {
                    Ok(d) => d.valid() && p == Ok::<Seq<char>, DoiError>(d@),
                    Err(e) => p == Err::<Seq<char>, DoiError>(e),
                }
            }),
    {
        match url_segments_of(s) {
            None => Err(DoiError::MalformedDoi),
            Some(None) => Err(DoiError::MissingPrefixOrSuffix),
            Some(Some(segs)) => Self::from_segments(&segs),
        }
    }

    /// Build the canonical value from the path segments of a URL.
    fn from_segments(segs: &Vec<String>) -> (r: Result<Self, DoiError>)
        requires
            forall|i: int, j: int|
                0 <= i < segs.deep_view().len() && 0 <= j < segs.deep_view()[i].len() ==> (
                #[trigger] segs.deep_view()[i][j] as int) < 128 && segs.deep_view()[i][j] != '/',
        ensures
            ({
                let p = doi_segments_spec(segs.deep_view());
                match r {
                    Ok(d) => d.valid() && p == Ok::<Seq<char>, DoiError>(d@),
                    Err(e) => p == Err::<Seq<char>, DoiError>(e),
                }
            }),
    {
        let ghost gsegs = segs.deep_view();
        if segs.len() == 0 {
            return Err(DoiError::MissingPrefixOrSuffix);
        }
        let prefix: &String = if segs.len() >= 2 {
            &segs[segs.len() - 2]
        } else {
            &segs[0]
        };
        proof {
            assert(prefix@ == candidate_prefix(gsegs));
        }
        let plen = prefix.as_str().unicode_len();
        if plen == 0 {
            return Err(DoiError::MissingPrefixOrSuffix);
        }
        let mut out = String::new();
        let mut i: usize = 0;
        while i < plen
            invariant
                gsegs == segs.deep_view(),
                gsegs.len() >= 1,
                prefix@ == candidate_prefix(gsegs),
                plen == prefix@.len(),
                plen > 0,
                i <= plen,
                out@ == upper_chars(prefix@.take(i as int)),
                forall|j: int| 0 <= j < i ==> is_prefix_char(#[trigger] prefix@[j]),
            decreases plen - i,
        {
            let c = prefix.as_str().get_char(i);
            let v = c as u32;
            if !(v == 46 || (48 <= v && v <= 57)) {
                proof {
                    lemma_first_bad_some(prefix@, i as int);
                }
                return Err(DoiError::InvalidDoiPrefix { ch: c });
            }
            push_char(&mut out, c);
            proof {
                assert(out@ =~= upper_chars(prefix@.take(i + 1)));
            }
            i = i + 1;
        }
        proof {
            assert(prefix@.take(plen as int) =~= prefix@);
            lemma_first_bad_none(prefix@);
        }
        if segs.len() < 2 {
            return Err(DoiError::MissingPrefixOrSuffix);
        }
        let suffix: &String = &segs[segs.len() - 1];
        proof {
            assert(suffix@ == gsegs[gsegs.len() - 1]);
        }
        let slen = suffix.as_str().unicode_len();
        if slen == 0 {
            return Err(DoiError::MissingPrefixOrSuffix);
        }
        push_char(&mut out, '/');
        let mut j: usize = 0;
        while j < slen
            invariant
                slen == suffix@.len(),
                j <= slen,
                forall|a: int, b: int|
                    0 <= a < gsegs.len() && 0 <= b < gsegs[a].len() ==> (#[trigger] gsegs[a][b]
                        as int) < 128 && gsegs[a][b] != '/',
                suffix@ == gsegs[gsegs.len() - 1],
                gsegs.len() >= 1,
                out@ == upper_chars(prefix@) + seq!['/'] + upper_chars(suffix@.take(j as int)),
            decreases slen - j,
        {
            let c = suffix.as_str().get_char(j);
            let v = c as u32;
            let cu: char = if 97 <= v && v <= 122 {
                ((v - 32) as u8) as char
            } else {
                c
            };
            proof {
                assert(cu == upper_char(suffix@[j as int]));
            }
            push_char(&mut out, cu);
            proof {
                assert(out@ =~= upper_chars(prefix@) + seq!['/'] + upper_chars(
                    suffix@.take(j + 1),
                ));
            }
            j = j + 1;
        }
        proof {
            assert(suffix@.take(slen as int) =~= suffix@);
            let val = out@;
            assert(val == upper_chars(prefix@) + seq!['/'] + upper_chars(suffix@));
            assert forall|a: int| 0 <= a < plen implies is_prefix_char(#[trigger] val[a])
                && val[a] != '/' by {
                assert(val[a] == upper_char(prefix@[a]));
                assert(upper_char(prefix@[a]) == prefix@[a]);
            }
            assert(val[plen as int] == '/');
            assert forall|a: int| plen < a < val.len() implies #[trigger] val[a] != '/' && (
            val[a] as int) < 128 && upper_char(val[a]) == val[a] by {
                assert(val[a] == upper_char(suffix@[a - plen - 1]));
            }
            lemma_slash_pos_at(val, plen as int);
            assert(doi_value_wf(val));
        }
        Ok(Doi { value: out })
    }

    /// The canonical value as text.
    pub fn to_string(&self) -> (r: String)
        ensures
            r@ == self@,
    {
        self.value.clone()
    }
}

/// Round trip, segment level: any path-segment list that ends with the
/// prefix and the suffix of a well-formed canonical value — however many
/// proxy segments precede them — normalises back to that very value.
pub proof fn lemma_doi_segments_round_trip(d: Doi, segs: Seq<Seq<char>>)
    requires
        d.valid(),
        segs.len() >= 2,
        segs[segs.len() - 2] == doi_prefix_of(d@),
        segs[segs.len() - 1] == doi_suffix_of(d@),
    ensures
        doi_segments_spec(segs) == Ok::<Seq<char>, DoiError>(d@),
{
    let v = d@;
    let k = slash_pos(v);
    let p = doi_prefix_of(v);
    let s = doi_suffix_of(v);
    assert(candidate_prefix(segs) == p);
    assert(p.len() == k);
    lemma_first_bad_none(p);
    assert(s.len() > 0);
    assert(upper_chars(p) =~= p) by {
        assert forall|a: int| 0 <= a < p.len() implies #[trigger] upper_chars(p)[a] == p[a] by {
            assert(p[a] == v[a]);
            assert(is_prefix_char(v[a]));
        }
    }
    assert(upper_chars(s) =~= s) by {
        assert forall|a: int| 0 <= a < s.len() implies #[trigger] upper_chars(s)[a] == s[a] by {
            assert(s[a] == v[k + 1 + a]);
        }
    }
    assert(upper_chars(p) + seq!['/'] + upper_chars(s) =~= v);
}

/// Round trip, URL level: a text — such as the proxy-URL rendering of a
/// DOI — whose URL decomposition ends with the canonical prefix and suffix
/// re-parses to the same DOI.
pub proof fn lemma_doi_render_parse_round_trip(d: Doi, s: Seq<char>)
    requires
        d.valid(),
        url_parse_ok(s),
        url_path_segments(s) matches Some(segs) && segs.len() >= 2 && segs[segs.len() - 2]
            == doi_prefix_of(d@) && segs[segs.len() - 1] == doi_suffix_of(d@),
    ensures
        doi_parse_spec(s) == Ok::<Seq<char>, DoiError>(d@),
{
    let segs = url_path_segments(s)->Some_0;
    lemma_doi_segments_round_trip(d, segs);
}

/// How a DOI is displayed.
#[derive(Debug, Clone, Copy)]
pub enum Format {
    /// The `doi:` scheme followed by the canonical value.
    Scheme,
    /// The `https://doi.org/` proxy URL followed by the canonical value.
    DoiOrg,
    /// The canonical value alone.
    Name,
}

/// The characters produced by rendering a canonical value in format `f`.
pub open spec fn doi_format_chars(f: Format, v: Seq<char>) -> Seq<char> {
    match f {
        Format::Scheme => "doi:"@ + v,
        Format::DoiOrg => "https://doi.org/"@ + v,
        Format::Name => v,
    }
}

/// A reference to a DOI together with a chosen display format.
pub struct Formatted<'a> {
    format: Format,
    doi: &'a Doi,
}

impl<'a> Formatted<'a> {
    pub closed spec fn format(self) -> Format {
        self.format
    }

    pub closed spec fn doi(self) -> Doi {
        *self.doi
    }

    pub fn new(format: Format, doi: &'a Doi) -> (r: Self)
        ensures
            r.format() == format && r.doi() == *doi,
    {
        Formatted { format, doi }
    }

    /// Render the DOI in the chosen format.
    pub fn to_string(&self) -> (r: String)
        ensures
            r@ == doi_format_chars(self.format(), self.doi()@),
    {
        let mut out: String = match self.format {
            Format::Scheme => String::from_str("doi:"),
            Format::DoiOrg => String::from_str("https://doi.org/"),
            Format::Name => String::new(),
        };
        out.append(self.doi.value.as_str());
        proof {
            assert(Seq::<char>::empty() + self.doi()@ =~= self.doi()@);
        }
        out
    }
}

} // verus!
