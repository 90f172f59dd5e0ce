//! Structural representation of one source file.
//!
//! A template call site is written `region!("...")` in source text: the
//! marker `region!(`, an opening quote, the template body (any bytes other
//! than a quote), then `")`. Parsing a file finds every call site, in order,
//! and records for each its flat byte offset, its line and column, and its
//! body verbatim. A file whose text has a marker that is not followed by a
//! well-formed quoted body does not parse; such a file is never hot-patched.
use vstd::prelude::*;

use crate::text::{col_of, line_of, newline_byte};
use crate::text::copy_range;

verus! {

/// The bytes of the template marker `region!(`.
pub open spec fn marker_seq() -> Seq<u8> {
    seq![
        'r' as u8,
        'e' as u8,
        'g' as u8,
        'i' as u8,
        'o' as u8,
        'n' as u8,
        '!' as u8,
        '(' as u8,
    ]
}

/// The quote byte that encloses a template body.
pub open spec fn quote_byte() -> u8 {
    '"' as u8
}

/// The closing parenthesis of a template call site.
pub open spec fn close_byte() -> u8 {
    ')' as u8
}

/// True when the template marker starts at offset `i`.
pub open spec fn marker_at(s: Seq<u8>, i: int) -> bool {
    &&& 0 <= i
    &&& i + 8 <= s.len()
    &&& s.subrange(i, i + 8) == marker_seq()
}

/// The first offset at or after `j` holding a quote byte.
pub open spec fn find_quote(s: Seq<u8>, j: int) -> Option<int>
    decreases s.len() - j,
{
    if j < 0 || j >= s.len() {
        None
    } else if s[j] == quote_byte() {
        Some(j)
    } else {
        find_quote(s, j + 1)
    }
}

/// What `find_quote` returns: the nearest quote, or none in the rest of the
/// text.
pub proof fn lemma_find_quote(s: Seq<u8>, j: int)
    requires
        0 <= j <= s.len(),
    ensures
        match find_quote(s, j) {
            Some(k) => j <= k < s.len() && s[k] == quote_byte() && forall|m: int|
                j <= m < k ==> s[m] != quote_byte(),
            None => forall|m: int| j <= m < s.len() ==> s[m] != quote_byte(),
        },
    decreases s.len() - j,
{
    if j < s.len() && s[j] != quote_byte() {
        lemma_find_quote(s, j + 1);
    }
}

/// One template call site: its flat start offset and its body bytes.
pub struct SiteSpec {
    /// Offset of the first marker byte.
    pub start: int,
    /// The body, verbatim, without the enclosing quotes.
    pub body: Seq<u8>,
}

/// Offset one past the closing parenthesis of a site.
pub open spec fn site_end(st: SiteSpec) -> int {
    st.start + 11 + st.body.len()
}

/// The site `st` stands in `s` exactly as parsed: marker, quote, body
/// without quote bytes, quote, closing parenthesis.
pub open spec fn site_at(s: Seq<u8>, st: SiteSpec) -> bool {
    &&& marker_at(s, st.start)
    &&& site_end(st) <= s.len()
    &&& s[st.start + 8] == quote_byte()
    &&& s.subrange(st.start + 9, st.start + 9 + st.body.len()) == st.body
    &&& (forall|k: int| 0 <= k < st.body.len() ==> st.body[k] != quote_byte())
    &&& s[st.start + 9 + st.body.len()] == quote_byte()
    &&& s[st.start + 10 + st.body.len()] == close_byte()
}

/// Every listed site stands in `s` and the sites do not overlap and come in
/// text order.
pub open spec fn sites_wf(s: Seq<u8>, sites: Seq<SiteSpec>) -> bool {
    &&& (forall|k: int| 0 <= k < sites.len() ==> site_at(s, #[trigger] sites[k]))
    &&& (forall|k: int|
        0 <= k < sites.len() - 1 ==> site_end(#[trigger] sites[k]) <= sites[k + 1].start)
}

/// Parses the text from offset `i` on: the list of template call sites, in
/// order, or `None` where a marker is not followed by a well-formed body.
pub open spec fn parse_from(s: Seq<u8>, i: int) -> Option<Seq<SiteSpec>>
    decreases s.len() - i,
{
    if i < 0 || i >= s.len() {
        Some(Seq::empty())
    } else if marker_at(s, i) {
        if i + 9 <= s.len() && s[i + 8] == quote_byte() {
            match find_quote(s, i + 9) {
                Some(j) => if i + 9 <= j && j + 1 < s.len() && s[j + 1] == close_byte() {
                    match parse_from(s, j + 2) {
                        Some(rest) => Some(
                            seq![SiteSpec { start: i, body: s.subrange(i + 9, j) }] + rest,
                        ),
                        None => None,
                    }
                } else {
                    None
                },
                None => None,
            }
        } else {
            None
        }
    } else {
        parse_from(s, i + 1)
    }
}

/// The sites of a whole file.
pub open spec fn sites_of(s: Seq<u8>) -> Option<Seq<SiteSpec>> {
    parse_from(s, 0)
}

/// Whatever parses is well formed: each site stands in the text as written,
/// later sites start at or after the end of earlier ones, and the first site
/// starts no earlier than where parsing began.
pub proof fn lemma_parse_from_wf(s: Seq<u8>, i: int)
    requires
        0 <= i,
    ensures
        match parse_from(s, i) {
            Some(sites) => sites_wf(s, sites) && (sites.len() > 0 ==> i <= sites[0].start),
            None => true,
        },
    decreases s.len() - i,
{
    if i >= s.len() {
    } else if marker_at(s, i) {
        if i + 9 <= s.len() && s[i + 8] == quote_byte() {
            lemma_find_quote(s, i + 9);
            match find_quote(s, i + 9) {
                Some(j) => {
                    if i + 9 <= j && j + 1 < s.len() && s[j + 1] == close_byte() {
                        lemma_parse_from_wf(s, j + 2);
                        match parse_from(s, j + 2) {
                            Some(rest) => {
                                let head = SiteSpec { start: i, body: s.subrange(i + 9, j) };
                                let sites = seq![head] + rest;
                                assert(site_at(s, head));
                                assert(forall|k: int|
                                    0 <= k < sites.len() ==> site_at(s, #[trigger] sites[k]))
                                    by {
                                    assert(forall|k: int|
                                        1 <= k < sites.len() ==> sites[k] == rest[k - 1]);
                                };
                                assert(forall|k: int|
                                    0 <= k < sites.len() - 1 ==> site_end(#[trigger] sites[k])
                                        <= sites[k + 1].start) by {
                                    assert(site_end(head) == j + 2);
                                    assert(forall|k: int|
                                        1 <= k < sites.len() ==> sites[k] == rest[k - 1]);
                                };
                            },
                            None => {},
                        }
                    }
                },
                None => {},
            }
        }
    } else {
        lemma_parse_from_wf(s, i + 1);
    }
}

/// One template call site found in a file, with its position under both
/// conventions.
pub struct TemplateSite {
    /// Flat byte offset of the first marker byte.
    pub start: usize,
    /// 1-based line of the first marker byte.
    pub line: usize,
    /// 0-based byte column of the first marker byte within its line.
    pub col: usize,
    /// The template body, verbatim, without the enclosing quotes.
    pub body: Vec<u8>,
}

impl View for TemplateSite {
    type V = SiteSpec;

    open spec fn view(&self) -> SiteSpec {
        SiteSpec { start: self.start as int, body: self.body@ }
    }
}

/// The structural representation of one file's text: its template call
/// sites, in text order.
pub struct ParsedUnit {
    /// The call sites, in text order.
    pub sites: Vec<TemplateSite>,
}

impl View for ParsedUnit {
    type V = Seq<SiteSpec>;

    open spec fn view(&self) -> Seq<SiteSpec> {
        self.sites@.map_values(|st: TemplateSite| st@)
    }
}

impl ParsedUnit {
    /// The unit is the parse of `text` and its recorded lines and columns
    /// follow the crate's position convention.
    pub open spec fn wf(&self, text: Seq<u8>) -> bool {
        &&& parse_from(text, 0) == Some(self@)
        &&& forall|k: int|
            0 <= k < self.sites@.len() ==> (#[trigger] self.sites@[k]).line as int == line_of(
                text,
                self.sites@[k].start as int,
            ) && self.sites@[k].col as int == col_of(text, self.sites@[k].start as int)
    }
}

/// Prepends already-scanned sites to the parse of the rest of the text.
pub open spec fn opt_prepend(pre: Seq<SiteSpec>, o: Option<Seq<SiteSpec>>) -> Option<
    Seq<SiteSpec>,
> {
    match o {
        Some(rest) => Some(pre + rest),
        None => None,
    }
}

/// True when the template marker stands at offset `i` of `text`.
fn marker_matches(text: &[u8], i: usize) -> (r: bool)
    requires
        i + 8 <= text@.len(),
    ensures
        r <==> marker_at(text@, i as int),
{
    let r = text[i] == ('r' as u8) && text[i + 1] == ('e' as u8) && text[i + 2] == ('g' as u8)
        && text[i + 3] == ('i' as u8) && text[i + 4] == ('o' as u8) && text[i + 5] == ('n' as u8)
        && text[i + 6] == ('!' as u8) && text[i + 7] == ('(' as u8);
    proof {
        let s = text@;
        let ii = i as int;
        if r {
            assert(s.subrange(ii, ii + 8) =~= marker_seq());
        } else {
            if s.subrange(ii, ii + 8) == marker_seq() {
                assert(forall|k: int| 0 <= k < 8 ==> s.subrange(ii, ii + 8)[k] == marker_seq()[k]);
                assert(false);
            }
        }
    }
    r
}

/// Parses a file's text into its template call sites, or `None` where a
/// marker is not followed by a well-formed quoted body.
pub fn parse(text: &[u8]) -> (r: Option<ParsedUnit>)
    requires
        text@.len() < usize::MAX - 11,
    ensures
        r is Some <==> parse_from(text@, 0) is Some,
        r matches Some(u) ==> u.wf(text@),
{
    let n = text.len();
    let mut i: usize = 0;
    let mut line: usize = 1;
    let mut col: usize = 0;
    let mut sites: Vec<TemplateSite> = Vec::new();
    proof {
        assert(sites@.map_values(|st: TemplateSite| st@) =~= Seq::<SiteSpec>::empty());
        assert(opt_prepend(Seq::empty(), parse_from(text@, 0)) == parse_from(text@, 0)) by {
            match parse_from(text@, 0) {
                Some(rest) => {
                    assert(Seq::<SiteSpec>::empty() + rest =~= rest);
                },
                None => {},
            }
        }
    }
    while i < n
        invariant
            0 <= i <= n == text@.len() < usize::MAX - 11,
            line as int == line_of(text@, i as int),
            col as int == col_of(text@, i as int),
            opt_prepend(sites@.map_values(|st: TemplateSite| st@), parse_from(text@, i as int))
                == parse_from(text@, 0),
            forall|k: int|
                0 <= k < sites@.len() ==> (#[trigger] sites@[k]).line as int == line_of(
                    text@,
                    sites@[k].start as int,
                ) && sites@[k].col as int == col_of(text@, sites@[k].start as int),
        decreases n - i,
    {
        let ghost pre = sites@.map_values(|st: TemplateSite| st@);
        proof {
            crate::text::lemma_position_bounds(text@, i as int);
        }
        if i + 8 <= n && marker_matches(text, i) {
            // A template call site must follow the marker here.
            if i + 9 > n || text[i + 8] != ('"' as u8) {
                assert(parse_from(text@, i as int) is None);
                return None;
            }
            proof {
                assert(forall|k: int|
                    0 <= k < 8 ==> text@.subrange(i as int, i + 8)[k] == marker_seq()[k]);
                assert(forall|k: int| i <= k < i + 9 ==> text@[k] != newline_byte());
                crate::text::lemma_advance_no_newline(text@, i as int, 9);
            }
            // Scan the body for its closing quote, tracking the position.
            let mut j: usize = i + 9;
            let mut bl: usize = line;
            let mut bc: usize = col + 9;
            while j < n && text[j] != ('"' as u8)
                invariant
                    i + 9 <= j <= n == text@.len() < usize::MAX - 11,
                    bl as int == line_of(text@, j as int),
                    bc as int == col_of(text@, j as int),
                    forall|m: int| i + 9 <= m < j ==> text@[m] != quote_byte(),
                decreases n - j,
            {
                proof {
                    crate::text::lemma_position_step(text@, j as int);
                    crate::text::lemma_position_bounds(text@, j as int);
                }
                if text[j] == ('\n' as u8) {
                    bl += 1;
                    bc = 0;
                } else {
                    bc += 1;
                }
                j += 1;
            }
            proof {
                lemma_find_quote(text@, i + 9);
            }
            if j >= n {
                // Unterminated body: the file does not parse.
                assert(find_quote(text@, i + 9) is None);
                assert(parse_from(text@, i as int) is None);
                return None;
            }
            assert(find_quote(text@, i + 9) == Some(j as int)) by {
                match find_quote(text@, i + 9) {
                    Some(k) => {
                        if k < j {
                            assert(text@[k] != quote_byte());
                        } else if k > j {
                            assert(text@[j as int] != quote_byte());
                        }
                    },
                    None => {
                        assert(text@[j as int] != quote_byte());
                    },
                }
            }
            if j + 1 >= n || text[j + 1] != (')' as u8) {
                // No closing parenthesis: the file does not parse.
                assert(parse_from(text@, i as int) is None);
                return None;
            }
            let body = copy_range(text, i + 9, j);
            let site = TemplateSite { start: i, line, col, body };
            proof {
                let ghost head = SiteSpec { start: i as int, body: text@.subrange(i + 9, j as int) };
                assert(site@ == head);
                assert(parse_from(text@, i as int) == match parse_from(text@, j + 2) {
                    Some(rest) => Some(seq![head] + rest),
                    None => None::<Seq<SiteSpec>>,
                });
            }
            sites.push(site);
            proof {
                let post = sites@.map_values(|st: TemplateSite| st@);
                assert(post =~= pre + seq![site@]);
                assert(opt_prepend(post, parse_from(text@, j + 2)) == opt_prepend(
                    pre,
                    parse_from(text@, i as int),
                )) by {
                    match parse_from(text@, j + 2) {
                        Some(rest) => {
                            assert((pre + seq![site@]) + rest =~= pre + (seq![site@] + rest));
                        },
                        None => {},
                    }
                }
                // The position after the closing quote and parenthesis.
                crate::text::lemma_position_bounds(text@, j as int);
                crate::text::lemma_position_step(text@, j as int);
                crate::text::lemma_position_step(text@, j + 1);
            }
            i = j + 2;
            line = bl;
            col = bc + 2;
        } else {
            assert(!marker_at(text@, i as int));
            proof {
                crate::text::lemma_position_step(text@, i as int);
            }
            if text[i] == ('\n' as u8) {
                line += 1;
                col = 0;
            } else {
                col += 1;
            }
            i += 1;
        }
    }
    proof {
        let pre = sites@.map_values(|st: TemplateSite| st@);
        assert(parse_from(text@, i as int) == Some(Seq::<SiteSpec>::empty()));
        assert(pre + Seq::<SiteSpec>::empty() =~= pre);
        assert(parse_from(text@, 0) == Some(pre));
    }
    Some(ParsedUnit { sites })
}

} // verus!
