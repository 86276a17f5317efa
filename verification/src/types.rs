//! The typed registry query response and the compatibility logic over it:
//! property lookup, engine-requirement matching and numeric version
//! comparison. Candidate order is registry-given and is only ever filtered,
//! never re-sorted.
use vstd::prelude::*;
use vstd::seq_lib::*;
use vstd::string::StrSliceExecFns;

use crate::digits::cmp_components;
use crate::digits::comp_val;
use crate::digits::is_digit;
use crate::strings::seq_contains_sub;
use crate::strings::spec_split_on;
use crate::strings::spec_trim;
use crate::strings::split_on;
use crate::strings::str_contains;
use crate::strings::str_eq;
use crate::strings::trim_spaces;

verus! {

/// Response from the extension registry's query endpoint.
#[derive(Debug, Clone)]
pub struct MarketplaceResponse {
    pub results: Vec<ResultItem>,
}

/// One result item of a registry response.
#[derive(Debug, Clone)]
pub struct ResultItem {
    pub extensions: Vec<Extension>,
    pub paging_token: Option<String>,
    pub result_metadata: Vec<ResultMetadata>,
}

/// One extension of a registry response.
#[derive(Debug, Clone)]
pub struct Extension {
    pub publisher: Publisher,
    pub extension_id: String,
    pub extension_name: String,
    pub display_name: String,
    pub flags: String,
    pub last_updated: String,
    pub published_date: String,
    pub release_date: String,
    pub short_description: String,
    pub versions: Vec<Version>,
    pub deployment_type: i32,
}

/// Publisher information of an extension.
#[derive(Debug, Clone)]
pub struct Publisher {
    pub publisher_id: String,
    pub publisher_name: String,
    pub display_name: String,
    pub flags: String,
    pub domain: Option<String>,
    pub is_domain_verified: bool,
}

/// One published version of an extension.
#[derive(Debug, Clone)]
pub struct Version {
    pub version: String,
    pub flags: String,
    pub last_updated: String,
    pub files: Vec<File>,
    pub properties: Option<Vec<Property>>,
    pub asset_uri: String,
    pub fallback_asset_uri: String,
}

/// One file entry of a version: an asset type and its source URL.
#[derive(Debug, Clone)]
pub struct File {
    pub asset_type: String,
    pub source: String,
}

/// One key/value property of a version.
#[derive(Debug, Clone)]
pub struct Property {
    pub key: String,
    pub value: String,
}

/// Metadata of one result item.
#[derive(Debug, Clone)]
pub struct ResultMetadata {
    pub metadata_type: String,
    pub metadata_items: Vec<MetadataItem>,
}

/// One named count of a result's metadata.
#[derive(Debug, Clone)]
pub struct MetadataItem {
    pub name: String,
    pub count: i32,
}

/// The first element of `s` satisfying `p`, if any.
pub open spec fn spec_find_first<A>(s: Seq<A>, p: spec_fn(A) -> bool) -> Option<A>
    decreases s.len(),
{
    if s.len() == 0 {
        None
    } else if p(s[0]) {
        Some(s[0])
    } else {
        spec_find_first(s.drop_first(), p)
    }
}

/// A prefix without a match can be skipped.
pub proof fn lemma_find_first_from<A>(s: Seq<A>, p: spec_fn(A) -> bool, i: int)
    requires
        0 <= i <= s.len(),
        forall|j: int| 0 <= j < i ==> !p(#[trigger] s[j]),
    ensures
        spec_find_first(s, p) == spec_find_first(s.subrange(i, s.len() as int), p),
    decreases i,
{
    if i == 0 {
        assert(s.subrange(0, s.len() as int) =~= s);
    } else {
        assert(!p(s[0]));
        assert forall|j: int| 0 <= j < i - 1 implies !p(#[trigger] s.drop_first()[j]) by {
            assert(s.drop_first()[j] == s[j + 1]);
        }
        lemma_find_first_from(s.drop_first(), p, i - 1);
        assert(s.drop_first().subrange(i - 1, s.drop_first().len() as int) =~= s.subrange(
            i,
            s.len() as int,
        ));
    }
}

/// The properties of a version, an absent list counting as empty.
pub open spec fn spec_props(v: Version) -> Seq<Property> {
    match v.properties {
        Some(ps) => ps@,
        None => Seq::empty(),
    }
}

/// The value of the first property of `v` under `key`, if any.
pub open spec fn spec_prop_value(v: Version, key: Seq<char>) -> Option<Seq<char>> {
    match spec_find_first(spec_props(v), |p: Property| p.key@ == key) {
        Some(p) => Some(p.value@),
        None => None,
    }
}

/// The engine requirement a version declares, if any.
pub open spec fn spec_engine_req(v: Version) -> Option<Seq<char>> {
    spec_prop_value(v, "Microsoft.VisualStudio.Code.Engine"@)
}

/// The pre-release marker a version declares, if any.
pub open spec fn spec_prerelease(v: Version) -> Option<Seq<char>> {
    spec_prop_value(v, "Microsoft.VisualStudio.Code.PreRelease"@)
}

/// The source URL of the first file of `v` with the given asset type.
pub open spec fn spec_file_source(v: Version, asset_type: Seq<char>) -> Option<Seq<char>> {
    match spec_find_first(v.files@, |f: File| f.asset_type@ == asset_type) {
        Some(f) => Some(f.source@),
        None => None,
    }
}

impl Version {
    /// Looks up the value of the first property with the given key.
    fn find_property(&self, key: &str) -> (r: Option<String>)
        ensures
            (match r {
                Some(s) => spec_prop_value(*self, key@) == Some(s@),
                None => spec_prop_value(*self, key@) is None,
            }),
    {
        let ghost p = |p: Property| p.key@ == key@;
        match self.properties.as_ref() {
            None => {
                proof {
                    assert(spec_props(*self) =~= Seq::<Property>::empty());
                }
                None
            },
            Some(ps) => {
                let n = ps.len();
                let mut i: usize = 0;
                while i < n
                    invariant
                        i <= n,
                        n == ps@.len(),
                        p == (|p: Property| p.key@ == key@),
                        self.properties is Some && self.properties->0 == *ps,
                        forall|j: int| 0 <= j < i ==> !p(#[trigger] ps@[j]),
                    decreases n - i,
                {
                    if str_eq(ps[i].key.as_str(), key) {
                        proof {
                            lemma_find_first_from(ps@, p, i as int);
                            assert(ps@.subrange(i as int, ps@.len() as int)[0] == ps@[i as int]);
                            assert(p(ps@[i as int]));
                            assert(spec_find_first(ps@, p) == Some(ps@[i as int]));
                            assert(spec_props(*self) == ps@);
                        }
                        return Some(ps[i].value.clone());
                    }
                    i += 1;
                }
                proof {
                    lemma_find_first_from(ps@, p, n as int);
                    assert(ps@.subrange(n as int, ps@.len() as int) =~= Seq::<Property>::empty());
                    assert(spec_props(*self) == ps@);
                }
                None
            },
        }
    }

    /// The declared engine requirement, read from the well-known property.
    pub fn get_vscode_engine_version(&self) -> (r: Option<String>)
        ensures
            (match r {
                Some(s) => spec_engine_req(*self) == Some(s@),
                None => spec_engine_req(*self) is None,
            }),
    {
        self.find_property("Microsoft.VisualStudio.Code.Engine")
    }

    /// The declared pre-release marker, read from the well-known property.
    pub fn get_vscode_prerelease(&self) -> (r: Option<String>)
        ensures
            (match r {
                Some(s) => spec_prerelease(*self) == Some(s@),
                None => spec_prerelease(*self) is None,
            }),
    {
        self.find_property("Microsoft.VisualStudio.Code.PreRelease")
    }

    /// The package URL of this version, read from its file list.
    pub fn get_vsix_url(&self) -> (r: Option<String>)
        ensures
            (match r {
                Some(s) => spec_file_source(*self, "Microsoft.VisualStudio.Services.VSIXPackage"@)
                    == Some(s@),
                None => spec_file_source(*self, "Microsoft.VisualStudio.Services.VSIXPackage"@)
                    is None,
            }),
    {
        let ghost p = |f: File| f.asset_type@ == "Microsoft.VisualStudio.Services.VSIXPackage"@;
        let n = self.files.len();
        let mut i: usize = 0;
        while i < n
            invariant
                i <= n,
                n == self.files@.len(),
                p == (|f: File| f.asset_type@ == "Microsoft.VisualStudio.Services.VSIXPackage"@),
                forall|j: int| 0 <= j < i ==> !p(#[trigger] self.files@[j]),
            decreases n - i,
        {
            if str_eq(self.files[i].asset_type.as_str(), "Microsoft.VisualStudio.Services.VSIXPackage") {
                proof {
                    lemma_find_first_from(self.files@, p, i as int);
                    assert(self.files@.subrange(i as int, self.files@.len() as int)[0]
                        == self.files@[i as int]);
                }
                return Some(self.files[i].source.clone());
            }
            i += 1;
        }
        proof {
            lemma_find_first_from(self.files@, p, n as int);
            assert(self.files@.subrange(n as int, self.files@.len() as int)
                =~= Seq::<File>::empty());
        }
        None
    }
}

/// The tail of a part list, or the list itself when it is already empty
/// (an exhausted version contributes zero-valued components).
pub open spec fn skip_first_part(s: Seq<int>) -> Seq<int> {
    if s.len() > 0 {
        s.drop_first()
    } else {
        s
    }
}

/// Component-wise numeric comparison of two part lists, missing components
/// counting as zero: 1, 0 or -1 as the first list is greater, equal or less.
pub open spec fn spec_cmp_parts(a: Seq<int>, b: Seq<int>) -> int
    decreases a.len() + b.len(),
{
    if a.len() == 0 && b.len() == 0 {
        0
    } else {
        let x = if a.len() > 0 {
            a[0]
        } else {
            0
        };
        let y = if b.len() > 0 {
            b[0]
        } else {
            0
        };
        if x > y {
            1
        } else if x < y {
            -1
        } else {
            spec_cmp_parts(skip_first_part(a), skip_first_part(b))
        }
    }
}

/// The numeric values of a version string's dot-separated components.
pub open spec fn version_parts_vals(s: Seq<char>) -> Seq<int> {
    spec_split_on(s, '.').map_values(|c: Seq<char>| comp_val(c))
}

/// 1, 0 or -1 as `a` is numerically newer than, equal to or older than `b`,
/// comparing dot-separated components left to right, a missing or
/// non-numeric component counting as zero.
pub open spec fn spec_compare_versions(a: Seq<char>, b: Seq<char>) -> int {
    spec_cmp_parts(version_parts_vals(a), version_parts_vals(b))
}

/// Compares two version strings numerically per dot-separated component.
pub fn compare_versions(version_a: &str, version_b: &str) -> (r: i32)
    ensures
        r as int == spec_compare_versions(version_a@, version_b@),
        r == 1 || r == 0 || r == -1,
{
    let pa = split_on(version_a, '.');
    let pb = split_on(version_b, '.');
    let la = pa.len();
    let lb = pb.len();
    let ghost ga = version_parts_vals(version_a@);
    let ghost gb = version_parts_vals(version_b@);
    proof {
        assert(ga.skip(0) =~= ga);
        assert(gb.skip(0) =~= gb);
    }
    let mut i: usize = 0;
    while i < la || i < lb
        invariant
            ga == version_parts_vals(version_a@),
            gb == version_parts_vals(version_b@),
            pa@.map_values(|t: &str| t@) == spec_split_on(version_a@, '.'),
            pb@.map_values(|t: &str| t@) == spec_split_on(version_b@, '.'),
            la == pa@.len(),
            lb == pb@.len(),
            ga.len() == la,
            gb.len() == lb,
            spec_cmp_parts(ga, gb) == spec_cmp_parts(
                ga.skip(if i < la { i as int } else { la as int }),
                gb.skip(if i < lb { i as int } else { lb as int }),
            ),
        decreases (if la > lb { la } else { lb }) - i,
    {
        let ghost i1: int = if i < la { i as int } else { la as int };
        let ghost i2: int = if i < lb { i as int } else { lb as int };
        let ca: &str = if i < la {
            pa[i]
        } else {
            ""
        };
        let cb: &str = if i < lb {
            pb[i]
        } else {
            ""
        };
        proof {
            reveal_strlit("");
            if i < la {
                assert(ca@ == spec_split_on(version_a@, '.')[i as int]);
                assert(comp_val(ca@) == ga[i as int]);
                assert(ga.skip(i1)[0] == ga[i as int]);
            } else {
                assert(ca@.len() == 0);
                assert(!crate::digits::all_digits(ca@));
                assert(comp_val(ca@) == 0);
            }
            if i < lb {
                assert(cb@ == spec_split_on(version_b@, '.')[i as int]);
                assert(comp_val(cb@) == gb[i as int]);
                assert(gb.skip(i2)[0] == gb[i as int]);
            } else {
                assert(cb@.len() == 0);
                assert(!crate::digits::all_digits(cb@));
                assert(comp_val(cb@) == 0);
            }
        }
        let c = cmp_components(ca, cb);
        let ghost sa = ga.skip(i1);
        let ghost sb = gb.skip(i2);
        proof {
            let x: int = if sa.len() > 0 {
                sa[0]
            } else {
                0
            };
            let y: int = if sb.len() > 0 {
                sb[0]
            } else {
                0
            };
            assert(x == comp_val(ca@));
            assert(y == comp_val(cb@));
        }
        if c != 0 {
            return c;
        }
        proof {
            assert(spec_cmp_parts(sa, sb) == spec_cmp_parts(skip_first_part(sa), skip_first_part(
                sb,
            )));
            let n1: int = if i + 1 < la {
                i + 1
            } else {
                la as int
            };
            let n2: int = if i + 1 < lb {
                i + 1
            } else {
                lb as int
            };
            assert(skip_first_part(sa) =~= ga.skip(n1));
            assert(skip_first_part(sb) =~= gb.skip(n2));
        }
        i += 1;
    }
    proof {
        assert(ga.skip(la as int).len() == 0);
        assert(gb.skip(lb as int).len() == 0);
    }
    0
}

/// The four requirement forms an engine requirement can take, and what each
/// accepts: a caret form matches on major and minor exactly; a `>=` form
/// compares numerically; a purely numeric-and-dot form matches the literal
/// string; anything else matches when the engine version contains it.
pub open spec fn spec_is_compatible(req: Seq<char>, engine: Seq<char>) -> bool {
    if req.len() > 0 && req[0] == '^' {
        let rp = spec_split_on(req.drop_first(), '.');
        let ep = spec_split_on(engine, '.');
        rp.len() >= 2 && ep.len() >= 2 && rp[0] == ep[0] && rp[1] == ep[1]
    } else if req.len() >= 2 && req[0] == '>' && req[1] == '=' {
        spec_compare_versions(engine, spec_trim(req.subrange(2, req.len() as int))) >= 0
    } else if forall|i: int| 0 <= i < req.len() ==> is_digit(#[trigger] req[i]) || req[i] == '.' {
        req == engine
    } else {
        seq_contains_sub(engine, req)
    }
}

/// Checks a version requirement against a concrete engine version.
pub fn is_compatible(requirement: &str, engine_version: &str) -> (r: bool)
    ensures
        r == spec_is_compatible(requirement@, engine_version@),
{
    let n = requirement.unicode_len();
    if n > 0 && requirement.get_char(0) == '^' {
        let rv = requirement.substring_char(1, n);
        proof {
            assert(rv@ =~= requirement@.drop_first());
        }
        let rp = split_on(rv, '.');
        let ep = split_on(engine_version, '.');
        if rp.len() >= 2 && ep.len() >= 2 && str_eq(rp[0], ep[0]) {
            proof {
                assert(rp@.map_values(|t: &str| t@)[0] == rp@[0]@);
                assert(rp@.map_values(|t: &str| t@)[1] == rp@[1]@);
                assert(ep@.map_values(|t: &str| t@)[0] == ep@[0]@);
                assert(ep@.map_values(|t: &str| t@)[1] == ep@[1]@);
            }
            str_eq(rp[1], ep[1])
        } else {
            proof {
                if rp@.len() >= 2 && ep@.len() >= 2 {
                    assert(rp@.map_values(|t: &str| t@)[0] == rp@[0]@);
                    assert(ep@.map_values(|t: &str| t@)[0] == ep@[0]@);
                }
            }
            false
        }
    } else if n >= 2 && requirement.get_char(0) == '>' && requirement.get_char(1) == '=' {
        let rest = requirement.substring_char(2, n);
        let trimmed = trim_spaces(rest);
        proof {
            assert(rest@ == requirement@.subrange(2, requirement@.len() as int));
        }
        compare_versions(engine_version, trimmed) >= 0
    } else {
        // purely numeric-and-dot requirements demand the literal string
        if numeric_and_dots(requirement) {
            str_eq(requirement, engine_version)
        } else {
            str_contains(engine_version, requirement)
        }
    }
}

/// A version is admissible for an engine when it declares an engine
/// requirement and that requirement accepts the engine version.
pub open spec fn version_compatible_with(v: Version, engine: Seq<char>) -> bool {
    match spec_engine_req(v) {
        Some(req) => spec_is_compatible(req, engine),
        None => false,
    }
}

/// A version counts as pre-release only when its pre-release marker is the
/// literal string `true`; a missing marker counts as not pre-release.
pub open spec fn version_not_prerelease(v: Version) -> bool {
    match spec_prerelease(v) {
        Some(val) => val != "true"@,
        None => true,
    }
}

impl Extension {
    /// The package URL of the newest (first) version, if there is one.
    pub fn get_latest_vsix_url(&self) -> (r: Option<String>)
        ensures
            self.versions@.len() == 0 ==> r is None,
            self.versions@.len() > 0 ==> (match r {
                Some(s) => spec_file_source(
                    self.versions@[0],
                    "Microsoft.VisualStudio.Services.VSIXPackage"@,
                ) == Some(s@),
                None => spec_file_source(
                    self.versions@[0],
                    "Microsoft.VisualStudio.Services.VSIXPackage"@,
                ) is None,
            }),
    {
        if self.versions.len() == 0 {
            return None;
        }
        self.versions[0].get_vsix_url()
    }

    /// The identifier of the extension, rendered as `publisher.name`.
    pub fn get_identifier(&self) -> (r: String)
        ensures
            r@ == crate::extension::id_seq(self.publisher.publisher_name@, self.extension_name@),
    {
        let mut out = self.publisher.publisher_name.as_str().to_owned();
        out.append(".");
        out.append(self.extension_name.as_str());
        proof {
            reveal_strlit(".");
            assert(out@ =~= crate::extension::id_seq(
                self.publisher.publisher_name@,
                self.extension_name@,
            ));
        }
        out
    }

    /// The versions whose declared engine requirement accepts `engine`, in
    /// their original (registry-given) order: a filter, never a re-sort.
    pub fn get_compatible_versions<'b>(&'b self, engine: &str) -> (r: Vec<&'b Version>)
        ensures
            r@.map_values(|v: &Version| *v) == self.versions@.filter(
                |v: Version| version_compatible_with(v, engine@),
            ),
    {
        let ghost pred = |v: Version| version_compatible_with(v, engine@);
        let n = self.versions.len();
        let mut r: Vec<&'b Version> = Vec::new();
        let mut i: usize = 0;
        proof {
            assert(self.versions@.take(0) =~= Seq::<Version>::empty());
            assert(r@.map_values(|v: &Version| *v) =~= self.versions@.take(0).filter(pred));
        }
        while i < n
            invariant
                i <= n,
                n == self.versions@.len(),
                pred == (|v: Version| version_compatible_with(v, engine@)),
                r@.map_values(|v: &Version| *v) == self.versions@.take(i as int).filter(pred),
            decreases n - i,
        {
            let keep = match self.versions[i].get_vscode_engine_version() {
                Some(req) => is_compatible(req.as_str(), engine),
                None => false,
            };
            let ghost before = r@.map_values(|v: &Version| *v);
            if keep {
                r.push(&self.versions[i]);
            }
            proof {
                assert(keep == pred(self.versions@[i as int]));
                self.versions@.take(i as int).lemma_filter_push(self.versions@[i as int], pred);
                assert(self.versions@.take(i as int).push(self.versions@[i as int])
                    =~= self.versions@.take(i + 1));
                if keep {
                    assert(r@.map_values(|v: &Version| *v) =~= before.push(self.versions@[i as int]));
                }
                assert(r@.map_values(|v: &Version| *v) == self.versions@.take(i + 1).filter(pred));
            }
            i += 1;
        }
        proof {
            assert(self.versions@.take(n as int) =~= self.versions@);
        }
        r
    }

    /// The versions whose pre-release marker is not the literal `true`, a
    /// missing marker counting as not pre-release, in their original order.
    pub fn get_non_prerelease_versions<'b>(&'b self) -> (r: Vec<&'b Version>)
        ensures
            r@.map_values(|v: &Version| *v) == self.versions@.filter(
                |v: Version| version_not_prerelease(v),
            ),
    {
        let ghost pred = |v: Version| version_not_prerelease(v);
        let n = self.versions.len();
        let mut r: Vec<&'b Version> = Vec::new();
        let mut i: usize = 0;
        proof {
            assert(self.versions@.take(0) =~= Seq::<Version>::empty());
            assert(r@.map_values(|v: &Version| *v) =~= self.versions@.take(0).filter(pred));
        }
        while i < n
            invariant
                i <= n,
                n == self.versions@.len(),
                pred == (|v: Version| version_not_prerelease(v)),
                r@.map_values(|v: &Version| *v) == self.versions@.take(i as int).filter(pred),
            decreases n - i,
        {
            let keep = match self.versions[i].get_vscode_prerelease() {
                Some(val) => !str_eq(val.as_str(), "true"),
                None => true,
            };
            let ghost before = r@.map_values(|v: &Version| *v);
            if keep {
                r.push(&self.versions[i]);
            }
            proof {
                assert(keep == pred(self.versions@[i as int]));
                self.versions@.take(i as int).lemma_filter_push(self.versions@[i as int], pred);
                assert(self.versions@.take(i as int).push(self.versions@[i as int])
                    =~= self.versions@.take(i + 1));
                if keep {
                    assert(r@.map_values(|v: &Version| *v) =~= before.push(self.versions@[i as int]));
                }
                assert(r@.map_values(|v: &Version| *v) == self.versions@.take(i + 1).filter(pred));
            }
            i += 1;
        }
        proof {
            assert(self.versions@.take(n as int) =~= self.versions@);
        }
        r
    }
}

/// Whether every character is a digit or a dot.
fn numeric_and_dots(s: &str) -> (r: bool)
    ensures
        r == (forall|i: int| 0 <= i < s@.len() ==> is_digit(#[trigger] s@[i]) || s@[i] == '.'),
{
    let n = s.unicode_len();
    let mut i: usize = 0;
    while i < n
        invariant
            i <= n,
            n == s@.len(),
            forall|j: int| 0 <= j < i ==> is_digit(#[trigger] s@[j]) || s@[j] == '.',
        decreases n - i,
    {
        let c = s.get_char(i);
        let v = c as u32;
        if !(48 <= v && v <= 57) && c != '.' {
            return false;
        }
        i += 1;
    }
    true
}

} // verus!
