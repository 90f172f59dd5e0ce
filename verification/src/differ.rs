//! Structural comparison of two versions of one file.
//!
//! Classification is conservative: two texts yield `TemplateUpdates` only
//! when both parse and everything outside the template bodies — the byte
//! stretches before, between and after the call sites — is identical. Any
//! other difference, a parse failure included, yields `StructuralChange`,
//! which forces a rebuild. Each update pairs the old site's location, so a
//! patch addresses the call site the running client was compiled from, with
//! the new site's body sliced verbatim from the new text.
use vstd::prelude::*;

use crate::extract::extract_site_body;
use crate::location::{LocSpec, LocationId};
use crate::parse::{parse, parse_from, site_at, site_end, sites_of, sites_wf, ParsedUnit, SiteSpec};
use crate::parse::lemma_parse_from_wf;
use crate::text::{bytes_eq, col_of, copy_range, line_of, range_eq};

verus! {

/// The mathematical value of a `PatchMessage`.
pub struct PatchSpec {
    /// The call site to patch, named by its pre-edit position.
    pub location: LocSpec,
    /// The replacement body, verbatim from the new text.
    pub new_text: Seq<u8>,
}

/// One hot patch: which call site to change and the literal text to put
/// there.
#[derive(Clone, Debug, PartialEq, Eq)]
pub struct PatchMessage {
    /// The call site to patch, named by its pre-edit position.
    pub location: LocationId,
    /// The replacement body, verbatim from the new text.
    pub new_text: Vec<u8>,
}

impl View for PatchMessage {
    type V = PatchSpec;

    open spec fn view(&self) -> PatchSpec {
        PatchSpec { location: self.location@, new_text: self.new_text@ }
    }
}

/// The mathematical value of a `ChangeClassification`.
pub enum ClassSpec {
    /// The texts are identical.
    NoChange,
    /// Only template bodies changed; one entry per changed site.
    TemplateUpdates(Seq<PatchSpec>),
    /// Anything else changed, or a text does not parse.
    StructuralChange,
}

/// The result of comparing two versions of one file.
#[derive(Debug, PartialEq, Eq)]
pub enum ChangeClassification {
    /// The texts are identical.
    NoChange,
    /// Only template bodies changed; one entry per changed site.
    TemplateUpdates(Vec<PatchMessage>),
    /// Anything else changed, or a text does not parse.
    StructuralChange,
}

impl View for ChangeClassification {
    type V = ClassSpec;

    open spec fn view(&self) -> ClassSpec {
        match self {
            ChangeClassification::NoChange => ClassSpec::NoChange,
            ChangeClassification::TemplateUpdates(ps) => ClassSpec::TemplateUpdates(
                ps@.map_values(|p: PatchMessage| p@),
            ),
            ChangeClassification::StructuralChange => ClassSpec::StructuralChange,
        }
    }
}

/// The sites a parse found, or the empty list where it failed.
pub open spec fn parsed_sites(o: Option<Seq<SiteSpec>>) -> Seq<SiteSpec> {
    match o {
        Some(sites) => sites,
        None => Seq::empty(),
    }
}

/// The byte stretch of `s` before site `k`: from the end of site `k - 1`
/// (or the start of the text) to the start of site `k` (or the end of the
/// text, for `k` equal to the site count).
pub open spec fn gap(s: Seq<u8>, sites: Seq<SiteSpec>, k: int) -> Seq<u8> {
    let lo = if k == 0 {
        0int
    } else {
        site_end(sites[k - 1])
    };
    let hi = if k == sites.len() {
        s.len() as int
    } else {
        sites[k].start
    };
    s.subrange(lo, hi)
}

/// Two parses have the same structure: as many sites, and every stretch of
/// text outside the template bodies identical.
pub open spec fn same_structure(
    old: Seq<u8>,
    os: Seq<SiteSpec>,
    new: Seq<u8>,
    ns: Seq<SiteSpec>,
) -> bool {
    &&& os.len() == ns.len()
    &&& forall|k: int| 0 <= k <= os.len() ==> gap(old, os, k) == gap(new, ns, k)
}

/// The patch for site `k`: the old site's location, the new site's body.
pub open spec fn patch_for(
    file: Seq<u8>,
    old: Seq<u8>,
    os: Seq<SiteSpec>,
    ns: Seq<SiteSpec>,
    k: int,
) -> PatchSpec {
    PatchSpec {
        location: LocSpec {
            file,
            line: line_of(old, os[k].start),
            col: col_of(old, os[k].start),
        },
        new_text: ns[k].body,
    }
}

/// The patches among the first `k` site pairs: one entry per site whose
/// body changed, in site order.
pub open spec fn patches_upto(
    file: Seq<u8>,
    old: Seq<u8>,
    os: Seq<SiteSpec>,
    ns: Seq<SiteSpec>,
    k: int,
) -> Seq<PatchSpec>
    decreases k,
{
    if k <= 0 {
        Seq::empty()
    } else {
        patches_upto(file, old, os, ns, k - 1) + if os[k - 1].body != ns[k - 1].body {
            seq![patch_for(file, old, os, ns, k - 1)]
        } else {
            Seq::empty()
        }
    }
}

/// All patches of a site-for-site comparison.
pub open spec fn patches(
    file: Seq<u8>,
    old: Seq<u8>,
    os: Seq<SiteSpec>,
    ns: Seq<SiteSpec>,
) -> Seq<PatchSpec> {
    patches_upto(file, old, os, ns, os.len() as int)
}

/// What comparing two versions of the file named `file` yields.
pub open spec fn spec_classify(file: Seq<u8>, old: Seq<u8>, new: Seq<u8>) -> ClassSpec {
    if old == new {
        ClassSpec::NoChange
    } else {
        match (sites_of(old), sites_of(new)) {
            (Some(os), Some(ns)) => if same_structure(old, os, new, ns) {
                ClassSpec::TemplateUpdates(patches(file, old, os, ns))
            } else {
                ClassSpec::StructuralChange
            },
            _ => ClassSpec::StructuralChange,
        }
    }
}

/// True when every stretch of text outside the template bodies is the
/// same in both versions.
#[verifier::loop_isolation(false)]
fn gaps_equal(old: &[u8], ou: &ParsedUnit, new: &[u8], nu: &ParsedUnit) -> (r: bool)
    requires
        old@.len() < usize::MAX - 11,
        new@.len() < usize::MAX - 11,
        ou.wf(old@),
        nu.wf(new@),
        sites_wf(old@, ou@),
        sites_wf(new@, nu@),
        ou@.len() == nu@.len(),
    ensures
        r <==> same_structure(old@, ou@, new@, nu@),
{
    let ghost os = ou@;
    let ghost ns = nu@;
    proof {
        assert(os.len() == ou.sites@.len());
        assert(ns.len() == nu.sites@.len());
    }
    let n = ou.sites.len();
    let mut k: usize = 0;
    while k < n
        invariant
            0 <= k <= n,
            forall|m: int| 0 <= m < k ==> gap(old@, os, m) == gap(new@, ns, m),
        decreases n - k,
    {
        proof {
            if k > 0 {
                assert(os[k - 1] == ou.sites@[k - 1]@);
                assert(ns[k - 1] == nu.sites@[k - 1]@);
                assert(site_at(old@, os[k - 1]));
                assert(site_at(new@, ns[k - 1]));
            }
            assert(os[k as int] == ou.sites@[k as int]@);
            assert(ns[k as int] == nu.sites@[k as int]@);
            assert(site_at(old@, os[k as int]));
            assert(site_at(new@, ns[k as int]));
            if 0 < k {
                assert(site_end(os[k - 1]) <= os[k as int].start);
                assert(site_end(ns[k - 1]) <= ns[k as int].start);
            }
        }
        let olo = if k == 0 {
            0
        } else {
            let st = &ou.sites[k - 1];
            st.start + 11 + st.body.len()
        };
        let ohi = ou.sites[k].start;
        let nlo = if k == 0 {
            0
        } else {
            let st = &nu.sites[k - 1];
            st.start + 11 + st.body.len()
        };
        let nhi = nu.sites[k].start;
        if !range_eq(old, olo, ohi, new, nlo, nhi) {
            assert(gap(old@, os, k as int) != gap(new@, ns, k as int));
            return false;
        }
        assert(gap(old@, os, k as int) == gap(new@, ns, k as int));
        k += 1;
    }
    // The stretch after the last site.
    proof {
        if n > 0 {
            assert(os[n - 1] == ou.sites@[n - 1]@);
            assert(ns[n - 1] == nu.sites@[n - 1]@);
            assert(site_at(old@, os[n - 1]));
            assert(site_at(new@, ns[n - 1]));
        }
    }
    let olo = if n == 0 {
        0
    } else {
        let st = &ou.sites[n - 1];
        st.start + 11 + st.body.len()
    };
    let nlo = if n == 0 {
        0
    } else {
        let st = &nu.sites[n - 1];
        st.start + 11 + st.body.len()
    };
    if !range_eq(old, olo, old.len(), new, nlo, new.len()) {
        assert(gap(old@, os, n as int) != gap(new@, ns, n as int));
        return false;
    }
    assert(gap(old@, os, n as int) == gap(new@, ns, n as int));
    true
}

/// Collects one patch per site whose body changed, in site order: the old
/// site's location, the new site's body sliced verbatim from `new`.
#[verifier::loop_isolation(false)]
fn collect_patches(
    file: &[u8],
    old: &[u8],
    ou: &ParsedUnit,
    new: &[u8],
    nu: &ParsedUnit,
) -> (r: Vec<PatchMessage>)
    requires
        old@.len() < usize::MAX - 11,
        new@.len() < usize::MAX - 11,
        ou.wf(old@),
        nu.wf(new@),
        sites_wf(old@, ou@),
        sites_wf(new@, nu@),
        ou@.len() == nu@.len(),
    ensures
        r@.map_values(|p: PatchMessage| p@) == patches(file@, old@, ou@, nu@),
{
    let ghost os = ou@;
    let ghost ns = nu@;
    proof {
        assert(os.len() == ou.sites@.len());
        assert(ns.len() == nu.sites@.len());
    }
    let n = ou.sites.len();
    let mut msgs: Vec<PatchMessage> = Vec::new();
    let mut k: usize = 0;
    proof {
        assert(msgs@.map_values(|p: PatchMessage| p@) =~= patches_upto(file@, old@, os, ns, 0));
    }
    while k < n
        invariant
            0 <= k <= n,
            msgs@.map_values(|p: PatchMessage| p@) == patches_upto(file@, old@, os, ns, k as int),
        decreases n - k,
    {
        let ghost pre = msgs@.map_values(|p: PatchMessage| p@);
        proof {
            assert(os[k as int] == ou.sites@[k as int]@);
            assert(ns[k as int] == nu.sites@[k as int]@);
        }
        if !bytes_eq(ou.sites[k].body.as_slice(), nu.sites[k].body.as_slice()) {
            proof {
                assert(site_at(new@, ns[k as int]));
            }
            let location = LocationId {
                file: copy_range(file, 0, file.len()),
                line: ou.sites[k].line,
                col: ou.sites[k].col,
            };
            let new_text = extract_site_body(new, &nu.sites[k]);
            let msg = PatchMessage { location, new_text };
            proof {
                assert(location@.file =~= file@);
                assert(msg@ == patch_for(file@, old@, os, ns, k as int));
            }
            msgs.push(msg);
            proof {
                assert(msgs@.map_values(|p: PatchMessage| p@) =~= pre + seq![
                    patch_for(file@, old@, os, ns, k as int),
                ]);
            }
        } else {
            proof {
                assert(pre + Seq::<PatchSpec>::empty() =~= pre);
            }
        }
        k += 1;
    }
    msgs
}

/// Compares the old and the new text of the file named `file` and returns
/// the classification: `NoChange` for identical texts, `TemplateUpdates`
/// where only template bodies differ, `StructuralChange` for everything
/// else.
pub fn classify(file: &[u8], old: &[u8], new: &[u8]) -> (r: ChangeClassification)
    requires
        old@.len() < usize::MAX - 11,
        new@.len() < usize::MAX - 11,
    ensures
        r@ == spec_classify(file@, old@, new@),
{
    if bytes_eq(old, new) {
        return ChangeClassification::NoChange;
    }
    let ou = match parse(old) {
        Some(u) => u,
        None => {
            return ChangeClassification::StructuralChange;
        },
    };
    let nu = match parse(new) {
        Some(u) => u,
        None => {
            return ChangeClassification::StructuralChange;
        },
    };
    proof {
        lemma_parse_from_wf(old@, 0);
        lemma_parse_from_wf(new@, 0);
    }
    if nu.sites.len() != ou.sites.len() {
        proof {
            assert(ou@.len() == ou.sites@.len());
            assert(nu@.len() == nu.sites@.len());
            assert(!same_structure(old@, ou@, new@, nu@));
        }
        return ChangeClassification::StructuralChange;
    }
    proof {
        assert(ou@.len() == ou.sites@.len());
        assert(nu@.len() == nu.sites@.len());
    }
    if !gaps_equal(old, &ou, new, &nu) {
        return ChangeClassification::StructuralChange;
    }
    let msgs = collect_patches(file, old, &ou, new, &nu);
    ChangeClassification::TemplateUpdates(msgs)
}


/// Idempotence: classifying identical old and new text yields `NoChange`.
pub proof fn lemma_identical_text_is_no_change(file: Seq<u8>, text: Seq<u8>)
    ensures
        spec_classify(file, text, text) == ClassSpec::NoChange,
{
}

/// Conservativeness, parse failures: an edit that leaves either version
/// unparsable is classified as structural, never as template updates.
pub proof fn lemma_parse_failure_is_conservative(file: Seq<u8>, old: Seq<u8>, new: Seq<u8>)
    requires
        old != new,
        sites_of(old) is None || sites_of(new) is None,
    ensures
        spec_classify(file, old, new) == ClassSpec::StructuralChange,
{
}

/// Conservativeness, call-site count: an edit that adds or removes a
/// template call site is classified as structural, never as template
/// updates.
pub proof fn lemma_site_count_change_is_conservative(
    file: Seq<u8>,
    old: Seq<u8>,
    new: Seq<u8>,
    os: Seq<SiteSpec>,
    ns: Seq<SiteSpec>,
)
    requires
        sites_of(old) == Some(os),
        sites_of(new) == Some(ns),
        os.len() != ns.len(),
    ensures
        spec_classify(file, old, new) == ClassSpec::StructuralChange,
{
    assert(old != new);
    assert(!same_structure(old, os, new, ns));
}

/// Conservativeness, non-template edits: an edit that changes any stretch
/// of text outside the template bodies — a moved or reordered call site
/// included — is classified as structural, never as template updates.
pub proof fn lemma_structural_edit_is_conservative(
    file: Seq<u8>,
    old: Seq<u8>,
    new: Seq<u8>,
    os: Seq<SiteSpec>,
    ns: Seq<SiteSpec>,
    k: int,
)
    requires
        sites_of(old) == Some(os),
        sites_of(new) == Some(ns),
        0 <= k <= os.len(),
        gap(old, os, k) != gap(new, ns, k),
    ensures
        spec_classify(file, old, new) == ClassSpec::StructuralChange,
{
    assert(old != new);
    assert(!same_structure(old, os, new, ns));
}

/// The patches of a comparison where exactly the body of site `k0` changed:
/// none among the first `k` pairs while `k` stays at or below `k0`, and
/// exactly the one patch for `k0` after that.
proof fn lemma_patches_upto_single(
    file: Seq<u8>,
    old: Seq<u8>,
    os: Seq<SiteSpec>,
    ns: Seq<SiteSpec>,
    k0: int,
    k: int,
)
    requires
        0 <= k0 < os.len(),
        os.len() == ns.len(),
        os[k0].body != ns[k0].body,
        forall|m: int| 0 <= m < os.len() && m != k0 ==> (#[trigger] os[m]).body == ns[m].body,
        0 <= k <= os.len(),
    ensures
        patches_upto(file, old, os, ns, k) == if k <= k0 {
            Seq::<PatchSpec>::empty()
        } else {
            seq![patch_for(file, old, os, ns, k0)]
        },
    decreases k,
{
    if k > 0 {
        lemma_patches_upto_single(file, old, os, ns, k0, k - 1);
        if k - 1 == k0 {
            assert(patches_upto(file, old, os, ns, k) =~= Seq::<PatchSpec>::empty() + seq![
                patch_for(file, old, os, ns, k0),
            ]);
            assert(Seq::<PatchSpec>::empty() + seq![patch_for(file, old, os, ns, k0)] =~= seq![
                patch_for(file, old, os, ns, k0),
            ]);
        } else {
            assert(os[k - 1].body == ns[k - 1].body);
            if k <= k0 {
                assert(patches_upto(file, old, os, ns, k) =~= Seq::<PatchSpec>::empty());
            } else {
                assert(patches_upto(file, old, os, ns, k) =~= seq![
                    patch_for(file, old, os, ns, k0),
                ]);
            }
        }
    }
}

/// Precision: an edit confined to one template's body yields exactly one
/// update, whose location is the pre-edit site's and whose payload is the
/// new body verbatim.
pub proof fn lemma_single_template_edit(
    file: Seq<u8>,
    old: Seq<u8>,
    new: Seq<u8>,
    os: Seq<SiteSpec>,
    ns: Seq<SiteSpec>,
    k0: int,
)
    requires
        sites_of(old) == Some(os),
        sites_of(new) == Some(ns),
        same_structure(old, os, new, ns),
        0 <= k0 < os.len(),
        os[k0].body != ns[k0].body,
        forall|m: int| 0 <= m < os.len() && m != k0 ==> (#[trigger] os[m]).body == ns[m].body,
    ensures
        spec_classify(file, old, new) == ClassSpec::TemplateUpdates(
            seq![
                PatchSpec {
                    location: LocSpec {
                        file,
                        line: line_of(old, os[k0].start),
                        col: col_of(old, os[k0].start),
                    },
                    new_text: ns[k0].body,
                },
            ],
        ),
{
    assert(old != new);
    lemma_patches_upto_single(file, old, os, ns, k0, os.len() as int);
    assert(patch_for(file, old, os, ns, k0) == PatchSpec {
        location: LocSpec {
            file,
            line: line_of(old, os[k0].start),
            col: col_of(old, os[k0].start),
        },
        new_text: ns[k0].body,
    });
}

/// Location stability: where only the second of two call sites on different
/// lines is edited, the classification carries exactly the second site's
/// patch; the first site's location is the same whether computed from the
/// old or the new text, and differs from the patched site's location.
pub proof fn lemma_location_stability(
    file: Seq<u8>,
    old: Seq<u8>,
    new: Seq<u8>,
    os: Seq<SiteSpec>,
    ns: Seq<SiteSpec>,
)
    requires
        sites_of(old) == Some(os),
        sites_of(new) == Some(ns),
        os.len() == 2,
        ns.len() == 2,
        same_structure(old, os, new, ns),
        os[0].body == ns[0].body,
        os[1].body != ns[1].body,
        line_of(old, os[0].start) != line_of(old, os[1].start),
    ensures
        spec_classify(file, old, new) == ClassSpec::TemplateUpdates(
            seq![
                PatchSpec {
                    location: LocSpec {
                        file,
                        line: line_of(old, os[1].start),
                        col: col_of(old, os[1].start),
                    },
                    new_text: ns[1].body,
                },
            ],
        ),
        ns[0].start == os[0].start,
        line_of(new, ns[0].start) == line_of(old, os[0].start),
        col_of(new, ns[0].start) == col_of(old, os[0].start),
        line_of(old, os[1].start) != line_of(old, os[0].start),
{
    lemma_single_template_edit(file, old, new, os, ns, 1);
    lemma_parse_from_wf(old, 0);
    lemma_parse_from_wf(new, 0);
    assert(site_at(old, os[0]));
    assert(site_at(new, ns[0]));
    assert(gap(old, os, 0) == gap(new, ns, 0));
    assert(gap(old, os, 0).len() == os[0].start);
    assert(gap(new, ns, 0).len() == ns[0].start);
    assert(old.subrange(0, os[0].start) == new.subrange(0, ns[0].start));
    crate::text::lemma_position_prefix(old, new, os[0].start);
}


/// Where the stretch of text before site `k` begins.
pub open spec fn gap_lo(s: Seq<u8>, sites: Seq<SiteSpec>, k: int) -> int {
    if k == 0 {
        0int
    } else {
        site_end(sites[k - 1])
    }
}

/// The full source text of one call site: marker, quote, body, quote,
/// closing parenthesis.
pub open spec fn site_text(st: SiteSpec) -> Seq<u8> {
    crate::parse::marker_seq() + seq![crate::parse::quote_byte()] + st.body + seq![
        crate::parse::quote_byte(),
        crate::parse::close_byte(),
    ]
}

/// A site occupies exactly its own text in the file.
proof fn lemma_site_text(s: Seq<u8>, st: SiteSpec)
    requires
        site_at(s, st),
    ensures
        s.subrange(st.start, site_end(st)) == site_text(st),
{
    let lo = st.start;
    let hi = site_end(st);
    assert(s.subrange(lo, hi) =~= site_text(st)) by {
        assert(forall|m: int|
            0 <= m < 8 ==> s.subrange(lo, lo + 8)[m] == crate::parse::marker_seq()[m]);
        assert(forall|m: int|
            0 <= m < st.body.len() ==> s.subrange(lo + 9, lo + 9 + st.body.len())[m]
                == st.body[m]);
    }
}

/// The text from the stretch before site `k` onward is that stretch, the
/// site's own text, and whatever follows the site.
proof fn lemma_text_decomposition(s: Seq<u8>, sites: Seq<SiteSpec>, k: int)
    requires
        sites_wf(s, sites),
        0 <= k < sites.len(),
    ensures
        s.subrange(gap_lo(s, sites, k), s.len() as int) == gap(s, sites, k) + site_text(sites[k])
            + s.subrange(site_end(sites[k]), s.len() as int),
{
    let lo = gap_lo(s, sites, k);
    assert(site_at(s, sites[k]));
    if k > 0 {
        assert(site_at(s, sites[k - 1]));
        assert(site_end(sites[k - 1]) <= sites[k].start);
    }
    lemma_site_text(s, sites[k]);
    assert(s.subrange(lo, s.len() as int) =~= gap(s, sites, k) + site_text(sites[k]) + s.subrange(
        site_end(sites[k]),
        s.len() as int,
    )) by {
        assert(s.subrange(sites[k].start, site_end(sites[k])) == site_text(sites[k]));
        assert(forall|m: int|
            0 <= m < site_end(sites[k]) - sites[k].start ==> site_text(sites[k])[m] == s.subrange(
                sites[k].start,
                site_end(sites[k]),
            )[m]);
    }
}


/// Two texts whose parses have the same structure and the same bodies are
/// the same text from site `k` on.
proof fn lemma_equal_pieces_equal_tail(
    old: Seq<u8>,
    os: Seq<SiteSpec>,
    new: Seq<u8>,
    ns: Seq<SiteSpec>,
    k: int,
)
    requires
        sites_wf(old, os),
        sites_wf(new, ns),
        same_structure(old, os, new, ns),
        forall|m: int| 0 <= m < os.len() ==> (#[trigger] os[m]).body == ns[m].body,
        0 <= k <= os.len(),
    ensures
        old.subrange(gap_lo(old, os, k), old.len() as int) == new.subrange(
            gap_lo(new, ns, k),
            new.len() as int,
        ),
    decreases os.len() - k,
{
    if k == os.len() {
        assert(gap(old, os, k) == gap(new, ns, k));
    } else {
        lemma_equal_pieces_equal_tail(old, os, new, ns, k + 1);
        lemma_text_decomposition(old, os, k);
        lemma_text_decomposition(new, ns, k);
        assert(gap(old, os, k) == gap(new, ns, k));
        assert(site_text(os[k]) == site_text(ns[k]));
        assert(gap_lo(old, os, k + 1) == site_end(os[k]));
        assert(gap_lo(new, ns, k + 1) == site_end(ns[k]));
    }
}

/// Completeness of the comparison: two texts that parse with the same
/// structure and the same template bodies are one and the same text.
pub proof fn lemma_same_structure_same_bodies_same_text(
    old: Seq<u8>,
    new: Seq<u8>,
    os: Seq<SiteSpec>,
    ns: Seq<SiteSpec>,
)
    requires
        sites_of(old) == Some(os),
        sites_of(new) == Some(ns),
        same_structure(old, os, new, ns),
        forall|m: int| 0 <= m < os.len() ==> (#[trigger] os[m]).body == ns[m].body,
    ensures
        old == new,
{
    lemma_parse_from_wf(old, 0);
    lemma_parse_from_wf(new, 0);
    lemma_equal_pieces_equal_tail(old, os, new, ns, 0);
    assert(old.subrange(0, old.len() as int) =~= old);
    assert(new.subrange(0, new.len() as int) =~= new);
}

/// Some site's body changed, so the patch list holds at least that site's
/// patch.
proof fn lemma_patches_upto_nonempty(
    file: Seq<u8>,
    old: Seq<u8>,
    os: Seq<SiteSpec>,
    ns: Seq<SiteSpec>,
    k0: int,
    k: int,
)
    requires
        0 <= k0 < k <= os.len(),
        os[k0].body != ns[k0].body,
    ensures
        patches_upto(file, old, os, ns, k).len() > 0,
    decreases k,
{
    if k0 < k - 1 {
        lemma_patches_upto_nonempty(file, old, os, ns, k0, k - 1);
    }
}

/// A template-update classification never carries zero patches: where the
/// texts differ and everything outside the template bodies is the same,
/// some body differs, and its patch is in the list.
pub proof fn lemma_updates_never_empty(file: Seq<u8>, old: Seq<u8>, new: Seq<u8>)
    requires
        old != new,
        spec_classify(file, old, new) matches ClassSpec::TemplateUpdates(ps),
    ensures
        spec_classify(file, old, new) matches ClassSpec::TemplateUpdates(ps) && ps.len() > 0,
{
    let os = parsed_sites(sites_of(old));
    let ns = parsed_sites(sites_of(new));
    if forall|m: int| 0 <= m < os.len() ==> (#[trigger] os[m]).body == ns[m].body {
        lemma_same_structure_same_bodies_same_text(old, new, os, ns);
    } else {
        let k0 = choose|m: int| 0 <= m < os.len() && (#[trigger] os[m]).body != ns[m].body;
        lemma_patches_upto_nonempty(file, old, os, ns, k0, os.len() as int);
    }
}


/// Up to the first `m` sites, two structurally equal texts with equal
/// bodies agree byte for byte.
proof fn lemma_prefix_equal_upto(
    old: Seq<u8>,
    os: Seq<SiteSpec>,
    new: Seq<u8>,
    ns: Seq<SiteSpec>,
    m: int,
)
    requires
        sites_wf(old, os),
        sites_wf(new, ns),
        same_structure(old, os, new, ns),
        0 <= m <= os.len(),
        forall|k: int| 0 <= k < m ==> (#[trigger] os[k]).body == ns[k].body,
    ensures
        gap_lo(old, os, m) == gap_lo(new, ns, m),
        old.subrange(0, gap_lo(old, os, m)) == new.subrange(0, gap_lo(new, ns, m)),
    decreases m,
{
    if m == 0 {
        assert(old.subrange(0, 0) =~= new.subrange(0, 0));
    } else {
        lemma_prefix_equal_upto(old, os, new, ns, m - 1);
        let glo = gap_lo(old, os, m - 1);
        assert(site_at(old, os[m - 1]));
        assert(site_at(new, ns[m - 1]));
        if m - 1 > 0 {
            assert(site_end(os[m - 2]) <= os[m - 1].start);
            assert(site_end(ns[m - 2]) <= ns[m - 1].start);
        }
        assert(gap(old, os, m - 1) == gap(new, ns, m - 1));
        assert(os[m - 1].start - glo == gap(old, os, m - 1).len());
        assert(ns[m - 1].start - glo == gap(new, ns, m - 1).len());
        assert(os[m - 1].start == ns[m - 1].start);
        lemma_site_text(old, os[m - 1]);
        lemma_site_text(new, ns[m - 1]);
        assert(site_text(os[m - 1]) == site_text(ns[m - 1]));
        assert(old.subrange(0, site_end(os[m - 1])) =~= old.subrange(0, glo) + gap(
            old,
            os,
            m - 1,
        ) + site_text(os[m - 1])) by {
            assert(old.subrange(glo, os[m - 1].start) == gap(old, os, m - 1));
            assert(old.subrange(os[m - 1].start, site_end(os[m - 1])) == site_text(os[m - 1]));
            assert(forall|t: int|
                glo <= t < os[m - 1].start ==> old.subrange(glo, os[m - 1].start)[t - glo]
                    == old[t]);
            assert(forall|t: int|
                os[m - 1].start <= t < site_end(os[m - 1]) ==> old.subrange(
                    os[m - 1].start,
                    site_end(os[m - 1]),
                )[t - os[m - 1].start] == old[t]);
        }
        assert(new.subrange(0, site_end(ns[m - 1])) =~= new.subrange(0, glo) + gap(
            new,
            ns,
            m - 1,
        ) + site_text(ns[m - 1])) by {
            assert(new.subrange(glo, ns[m - 1].start) == gap(new, ns, m - 1));
            assert(new.subrange(ns[m - 1].start, site_end(ns[m - 1])) == site_text(ns[m - 1]));
            assert(forall|t: int|
                glo <= t < ns[m - 1].start ==> new.subrange(glo, ns[m - 1].start)[t - glo]
                    == new[t]);
            assert(forall|t: int|
                ns[m - 1].start <= t < site_end(ns[m - 1]) ==> new.subrange(
                    ns[m - 1].start,
                    site_end(ns[m - 1]),
                )[t - ns[m - 1].start] == new[t]);
        }
    }
}

/// Location stability, in general: where everything outside the template
/// bodies is unchanged and no body before site `m` changed, site `m`
/// starts at the same offset in both texts and keeps its line and column —
/// an edit elsewhere in the file does not move it.
pub proof fn lemma_unrelated_edit_keeps_location(
    old: Seq<u8>,
    new: Seq<u8>,
    os: Seq<SiteSpec>,
    ns: Seq<SiteSpec>,
    m: int,
)
    requires
        sites_of(old) == Some(os),
        sites_of(new) == Some(ns),
        same_structure(old, os, new, ns),
        0 <= m < os.len(),
        forall|k: int| 0 <= k < m ==> (#[trigger] os[k]).body == ns[k].body,
    ensures
        ns[m].start == os[m].start,
        line_of(new, ns[m].start) == line_of(old, os[m].start),
        col_of(new, ns[m].start) == col_of(old, os[m].start),
{
    lemma_parse_from_wf(old, 0);
    lemma_parse_from_wf(new, 0);
    lemma_prefix_equal_upto(old, os, new, ns, m);
    let glo = gap_lo(old, os, m);
    assert(site_at(old, os[m]));
    assert(site_at(new, ns[m]));
    if m > 0 {
        assert(site_end(os[m - 1]) <= os[m].start);
        assert(site_end(ns[m - 1]) <= ns[m].start);
    }
    assert(gap(old, os, m) == gap(new, ns, m));
    assert(os[m].start - glo == gap(old, os, m).len());
    assert(ns[m].start - glo == gap(new, ns, m).len());
    assert(old.subrange(0, os[m].start) =~= new.subrange(0, ns[m].start)) by {
        assert(forall|t: int|
            0 <= t < glo ==> old.subrange(0, glo)[t] == old[t] && new.subrange(0, glo)[t]
                == new[t]);
        assert(forall|t: int|
            glo <= t < os[m].start ==> gap(old, os, m)[t - glo] == old[t] && gap(new, ns, m)[t
                - glo] == new[t]);
    }
    crate::text::lemma_position_prefix(old, new, os[m].start);
}

} // verus!
