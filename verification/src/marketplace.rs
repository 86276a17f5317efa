//! The registry client's decision logic: which response detail to request,
//! the query payload, the download URL and local cache path of an artifact,
//! and the choice of version from a decoded response. The network calls
//! themselves are outside the library; everything here is a pure function
//! of its inputs.
use vstd::prelude::*;
use vstd::seq_lib::*;
use vstd::string::StrSliceExecFns;
use vstd::string::StringExecFns;

use crate::config::MARKETPLACE_URL;
use crate::error::VsixHarvesterError;
use crate::extension::Extension;
use crate::extension::id_seq;
use crate::strings::digit_char;
use crate::strings::opt_str_view;
use crate::strings::push_char;
use crate::strings::spec_decimal;
use crate::strings::u32_to_decimal;
use crate::strings::str_eq;
use crate::types::MarketplaceResponse;
use crate::types::Version;
use crate::types::is_compatible;
use crate::types::spec_prerelease;
use crate::types::version_compatible_with;

verus! {

/// The response-detail capabilities a query can ask of the registry; the
/// bitmask sent over the wire is composed from these only at the
/// serialization boundary.
#[derive(Debug, Clone, Copy, PartialEq, Eq, Structural)]
pub struct Flags {
    pub include_versions: bool,
    pub include_files: bool,
    pub include_category_and_tags: bool,
    pub include_shared_accounts: bool,
    pub include_version_properties: bool,
    pub exclude_non_validated: bool,
    pub include_installation_targets: bool,
    pub include_asset_uri: bool,
    pub include_statistics: bool,
    pub include_latest_version_only: bool,
    pub unpublished: bool,
    pub include_name_conflict_info: bool,
}

/// The wire value of a capability set, one fixed bit per capability.
pub open spec fn spec_flag_bits(f: Flags) -> int {
    (if f.include_versions { 0x1int } else { 0 })
    + (if f.include_files { 0x2int } else { 0 })
    + (if f.include_category_and_tags { 0x4int } else { 0 })
    + (if f.include_shared_accounts { 0x8int } else { 0 })
    + (if f.include_version_properties { 0x10int } else { 0 })
    + (if f.exclude_non_validated { 0x20int } else { 0 })
    + (if f.include_installation_targets { 0x40int } else { 0 })
    + (if f.include_asset_uri { 0x80int } else { 0 })
    + (if f.include_statistics { 0x100int } else { 0 })
    + (if f.include_latest_version_only { 0x200int } else { 0 })
    + (if f.unpublished { 0x1000int } else { 0 })
    + (if f.include_name_conflict_info { 0x8000int } else { 0 })
}

/// The cheaper request: latest version only, with files, asset URIs,
/// statistics and version properties.
pub open spec fn spec_standard_flags() -> Flags {
    Flags {
        include_versions: true,
        include_files: true,
        include_category_and_tags: false,
        include_shared_accounts: false,
        include_version_properties: true,
        exclude_non_validated: false,
        include_installation_targets: false,
        include_asset_uri: true,
        include_statistics: true,
        include_latest_version_only: true,
        unpublished: false,
        include_name_conflict_info: false,
    }
}

/// The fuller request: every version with its files and properties, so
/// that engine matching can filter the whole history.
pub open spec fn spec_all_versions_flags() -> Flags {
    Flags {
        include_versions: true,
        include_files: true,
        include_category_and_tags: false,
        include_shared_accounts: false,
        include_version_properties: true,
        exclude_non_validated: false,
        include_installation_targets: false,
        include_asset_uri: false,
        include_statistics: false,
        include_latest_version_only: false,
        unpublished: false,
        include_name_conflict_info: false,
    }
}

impl Flags {
    /// The capability set used when only the newest version is needed.
    pub fn standard() -> (r: Flags)
        ensures
            r == spec_standard_flags(),
            spec_flag_bits(r) == 0x393,
    {
        Flags {
            include_versions: true,
            include_files: true,
            include_category_and_tags: false,
            include_shared_accounts: false,
            include_version_properties: true,
            exclude_non_validated: false,
            include_installation_targets: false,
            include_asset_uri: true,
            include_statistics: true,
            include_latest_version_only: true,
            unpublished: false,
            include_name_conflict_info: false,
        }
    }

    /// The capability set used when the whole version history is needed.
    pub fn all_versions() -> (r: Flags)
        ensures
            r == spec_all_versions_flags(),
            spec_flag_bits(r) == 0x13,
    {
        Flags {
            include_versions: true,
            include_files: true,
            include_category_and_tags: false,
            include_shared_accounts: false,
            include_version_properties: true,
            exclude_non_validated: false,
            include_installation_targets: false,
            include_asset_uri: false,
            include_statistics: false,
            include_latest_version_only: false,
            unpublished: false,
            include_name_conflict_info: false,
        }
    }

    /// Composes the wire bitmask from the capabilities.
    pub fn bits(&self) -> (r: u32)
        ensures
            r as int == spec_flag_bits(*self),
    {
        bits_low(self) + bits_mid(self) + bits_high(self)
    }
}

/// The contribution of the four lowest capability bits.
fn bits_low(f: &Flags) -> (r: u32)
    ensures
        r as int == (if f.include_versions { 0x1int } else { 0 })
            + (if f.include_files { 0x2int } else { 0 })
            + (if f.include_category_and_tags { 0x4int } else { 0 })
            + (if f.include_shared_accounts { 0x8int } else { 0 }),
        r <= 0xf,
{
    let mut r: u32 = 0;
    if f.include_versions {
        r += 0x1;
    }
    if f.include_files {
        r += 0x2;
    }
    if f.include_category_and_tags {
        r += 0x4;
    }
    if f.include_shared_accounts {
        r += 0x8;
    }
    r
}

/// The contribution of the four middle capability bits.
fn bits_mid(f: &Flags) -> (r: u32)
    ensures
        r as int == (if f.include_version_properties { 0x10int } else { 0 })
            + (if f.exclude_non_validated { 0x20int } else { 0 })
            + (if f.include_installation_targets { 0x40int } else { 0 })
            + (if f.include_asset_uri { 0x80int } else { 0 }),
        r <= 0xf0,
{
    let mut r: u32 = 0;
    if f.include_version_properties {
        r += 0x10;
    }
    if f.exclude_non_validated {
        r += 0x20;
    }
    if f.include_installation_targets {
        r += 0x40;
    }
    if f.include_asset_uri {
        r += 0x80;
    }
    r
}

/// The contribution of the four highest capability bits.
fn bits_high(f: &Flags) -> (r: u32)
    ensures
        r as int == (if f.include_statistics { 0x100int } else { 0 })
            + (if f.include_latest_version_only { 0x200int } else { 0 })
            + (if f.unpublished { 0x1000int } else { 0 })
            + (if f.include_name_conflict_info { 0x8000int } else { 0 }),
        r <= 0x9300,
{
    let mut r: u32 = 0;
    if f.include_statistics {
        r += 0x100;
    }
    if f.include_latest_version_only {
        r += 0x200;
    }
    if f.unpublished {
        r += 0x1000;
    }
    if f.include_name_conflict_info {
        r += 0x8000;
    }
    r
}

/// The capability set a resolve request calls for: the full history when an
/// engine constraint must be matched, the cheap latest-only set otherwise.
pub fn flags_for_request(has_engine_constraint: bool) -> (r: Flags)
    ensures
        r == (if has_engine_constraint {
            spec_all_versions_flags()
        } else {
            spec_standard_flags()
        }),
{
    if has_engine_constraint {
        Flags::all_versions()
    } else {
        Flags::standard()
    }
}

/// The download URL of an artifact: the registry base, the publisher, the
/// name and the version, with the query token appended exactly when a
/// concrete platform was asked for.
pub open spec fn spec_download_url(
    p: Seq<char>,
    n: Seq<char>,
    v: Seq<char>,
    plat: Option<Seq<char>>,
) -> Seq<char> {
    let base = MARKETPLACE_URL@ + "/"@ + p + "/vsextensions/"@ + n + "/"@ + v + "/vspackage"@;
    match plat {
        Some(t) => base + "?targetPlatform="@ + t,
        None => base,
    }
}

/// The local cache path of an artifact: destination directory and the
/// `publisher.name-version` stem, with an `@platform` suffix exactly when a
/// concrete platform was asked for; the suffix is the only on-disk signal
/// of the platform variant.
pub open spec fn spec_file_path(
    p: Seq<char>,
    n: Seq<char>,
    v: Seq<char>,
    dest: Seq<char>,
    plat: Option<Seq<char>>,
) -> Seq<char> {
    let stem = dest + "/"@ + p + "."@ + n + "-"@ + v;
    match plat {
        Some(t) => stem + "@"@ + t + ".vsix"@,
        None => stem + ".vsix"@,
    }
}

/// Derives the download URL and the local file path of one artifact. Pure:
/// no network, no filesystem, the same inputs always give the same pair.
pub fn build_download_url_and_file_path(
    extension: Extension<'_>,
    version: &str,
    destination: &str,
    os_arch: Option<&str>,
) -> (r: (String, String))
    ensures
        r.0@ == spec_download_url(
            extension.publisher@,
            extension.name@,
            version@,
            opt_str_view(os_arch),
        ),
        r.1@ == spec_file_path(
            extension.publisher@,
            extension.name@,
            version@,
            destination@,
            opt_str_view(os_arch),
        ),
{
    let mut url = String::from_str(MARKETPLACE_URL);
    url.append("/");
    url.append(extension.publisher);
    url.append("/vsextensions/");
    url.append(extension.name);
    url.append("/");
    url.append(version);
    url.append("/vspackage");

    let mut path = String::from_str(destination);
    path.append("/");
    path.append(extension.publisher);
    path.append(".");
    path.append(extension.name);
    path.append("-");
    path.append(version);

    match os_arch {
        Some(target_platform) => {
            url.append("?targetPlatform=");
            url.append(target_platform);
            path.append("@");
            path.append(target_platform);
            path.append(".vsix");
            proof {
                assert(url@ =~= spec_download_url(
                    extension.publisher@,
                    extension.name@,
                    version@,
                    opt_str_view(os_arch),
                ));
                assert(path@ =~= spec_file_path(
                    extension.publisher@,
                    extension.name@,
                    version@,
                    destination@,
                    opt_str_view(os_arch),
                ));
            }
        },
        None => {
            path.append(".vsix");
            proof {
                assert(url@ =~= spec_download_url(
                    extension.publisher@,
                    extension.name@,
                    version@,
                    opt_str_view(os_arch),
                ));
                assert(path@ =~= spec_file_path(
                    extension.publisher@,
                    extension.name@,
                    version@,
                    destination@,
                    opt_str_view(os_arch),
                ));
            }
        },
    }
    (url, path)
}

/// A character absent from both halves is absent from their concatenation.
proof fn lemma_concat_no_char(a: Seq<char>, b: Seq<char>, c: char)
    requires
        !a.contains(c),
        !b.contains(c),
    ensures
        !(a + b).contains(c),
{
    assert forall|i: int| 0 <= i < (a + b).len() implies (a + b)[i] != c by {
        if i < a.len() {
            assert(a[i] != c);
        } else {
            assert(b[i - a.len()] != c);
        }
    }
}

/// The platform marker is the only signal of the platform variant: the
/// derived local path contains an `@` exactly when a concrete platform tag
/// was passed, and the derived URL contains a `?` under the same condition
/// — provided the inputs themselves carry no such marker (a version string
/// holding an `@` or `?` of its own would defeat the signal).
pub proof fn lemma_locate_platform_marker(
    p: Seq<char>,
    n: Seq<char>,
    v: Seq<char>,
    dest: Seq<char>,
    plat: Option<Seq<char>>,
)
    requires
        !p.contains('@') && !p.contains('?'),
        !n.contains('@') && !n.contains('?'),
        !v.contains('@') && !v.contains('?'),
        !dest.contains('@'),
    ensures
        spec_file_path(p, n, v, dest, plat).contains('@') <==> plat is Some,
        spec_download_url(p, n, v, plat).contains('?') <==> plat is Some,
{
    reveal_strlit("/");
    reveal_strlit(".");
    reveal_strlit("-");
    reveal_strlit(".vsix");
    reveal_strlit("@");
    reveal_strlit("/vsextensions/");
    reveal_strlit("/vspackage");
    reveal_strlit("?targetPlatform=");
    reveal_strlit("https://marketplace.visualstudio.com/_apis/public/gallery/publishers");
    let stem = dest + "/"@ + p + "."@ + n + "-"@ + v;
    lemma_concat_no_char(dest, "/"@, '@');
    lemma_concat_no_char(dest + "/"@, p, '@');
    lemma_concat_no_char(dest + "/"@ + p, "."@, '@');
    lemma_concat_no_char(dest + "/"@ + p + "."@, n, '@');
    lemma_concat_no_char(dest + "/"@ + p + "."@ + n, "-"@, '@');
    lemma_concat_no_char(dest + "/"@ + p + "."@ + n + "-"@, v, '@');
    match plat {
        Some(t) => {
            let path = stem + "@"@ + t + ".vsix"@;
            assert(path[stem.len() as int] == '@');
            assert(path.contains('@'));
        },
        None => {
            lemma_concat_no_char(stem, ".vsix"@, '@');
        },
    }
    let base = MARKETPLACE_URL@ + "/"@ + p + "/vsextensions/"@ + n + "/"@ + v + "/vspackage"@;
    lemma_concat_no_char(MARKETPLACE_URL@, "/"@, '?');
    lemma_concat_no_char(MARKETPLACE_URL@ + "/"@, p, '?');
    lemma_concat_no_char(MARKETPLACE_URL@ + "/"@ + p, "/vsextensions/"@, '?');
    lemma_concat_no_char(MARKETPLACE_URL@ + "/"@ + p + "/vsextensions/"@, n, '?');
    lemma_concat_no_char(MARKETPLACE_URL@ + "/"@ + p + "/vsextensions/"@ + n, "/"@, '?');
    lemma_concat_no_char(MARKETPLACE_URL@ + "/"@ + p + "/vsextensions/"@ + n + "/"@, v, '?');
    lemma_concat_no_char(
        MARKETPLACE_URL@ + "/"@ + p + "/vsextensions/"@ + n + "/"@ + v,
        "/vspackage"@,
        '?',
    );
    match plat {
        Some(t) => {
            let url = base + "?targetPlatform="@ + t;
            assert(url[base.len() as int] == '?');
            assert(url.contains('?'));
        },
        None => {},
    }
}

/// The escaping of one character inside a JSON string literal: quote and
/// backslash get a backslash, control characters become `\u00XX`, and
/// everything else stands as itself.
pub open spec fn spec_escape_char(c: char) -> Seq<char> {
    if c == '"' {
        seq!['\\', '"']
    } else if c == '\\' {
        seq!['\\', '\\']
    } else if (c as u32) < 32 {
        seq!['\\', 'u', '0', '0', hex_digit_char(c as u32 as int / 16), hex_digit_char(
            c as u32 as int % 16,
        )]
    } else {
        seq![c]
    }
}

/// A sequence escaped for use inside a JSON string literal.
pub open spec fn spec_json_escape(s: Seq<char>) -> Seq<char>
    decreases s.len(),
{
    if s.len() == 0 {
        Seq::empty()
    } else {
        spec_json_escape(s.drop_last()) + spec_escape_char(s.last())
    }
}

/// The upper-case hexadecimal digit of a value below sixteen.
pub open spec fn hex_digit_char(d: int) -> char {
    if d < 10 {
        digit_char(d)
    } else if d == 10 {
        'A'
    } else if d == 11 {
        'B'
    } else if d == 12 {
        'C'
    } else if d == 13 {
        'D'
    } else if d == 14 {
        'E'
    } else {
        'F'
    }
}

fn hex_digit_char_exec(d: u32) -> (r: char)
    requires
        d < 16,
    ensures
        r == hex_digit_char(d as int),
{
    match d {
        0 => '0',
        1 => '1',
        2 => '2',
        3 => '3',
        4 => '4',
        5 => '5',
        6 => '6',
        7 => '7',
        8 => '8',
        9 => '9',
        10 => 'A',
        11 => 'B',
        12 => 'C',
        13 => 'D',
        14 => 'E',
        _ => 'F',
    }
}

/// Appends `s`, escaped for a JSON string literal, to `out`.
fn append_json_escaped(out: &mut String, s: &str)
    ensures
        final(out)@ == old(out)@ + spec_json_escape(s@),
{
    let n = s.unicode_len();
    let mut i: usize = 0;
    proof {
        assert(s@.subrange(0, 0) =~= Seq::<char>::empty());
        assert(old(out)@ + spec_json_escape(s@.subrange(0, 0)) =~= old(out)@);
    }
    while i < n
        invariant
            i <= n,
            n == s@.len(),
            out@ == old(out)@ + spec_json_escape(s@.subrange(0, i as int)),
        decreases n - i,
    {
        let c = s.get_char(i);
        let ghost pre = out@;
        let v = c as u32;
        if c == '"' {
            push_char(out, '\\');
            push_char(out, '"');
            proof {
                assert(out@ =~= pre + spec_escape_char(c));
            }
        } else if c == '\\' {
            push_char(out, '\\');
            push_char(out, '\\');
            proof {
                assert(out@ =~= pre + spec_escape_char(c));
            }
        } else if v < 32 {
            push_char(out, '\\');
            push_char(out, 'u');
            push_char(out, '0');
            push_char(out, '0');
            push_char(out, hex_digit_char_exec(v / 16));
            push_char(out, hex_digit_char_exec(v % 16));
            proof {
                assert(out@ =~= pre + spec_escape_char(c));
            }
        } else {
            push_char(out, c);
            proof {
                assert(out@ =~= pre + spec_escape_char(c));
            }
        }
        proof {
            let t = s@.subrange(0, i + 1);
            assert(t.drop_last() =~= s@.subrange(0, i as int));
            assert(t.last() == s@[i as int]);
            assert(spec_json_escape(t) == spec_json_escape(s@.subrange(0, i as int))
                + spec_escape_char(s@[i as int]));
            assert(out@ =~= old(out)@ + spec_json_escape(t));
        }
        i += 1;
    }
    proof {
        assert(s@.subrange(0, n as int) =~= s@);
    }
}

/// The exact query payload sent to the registry for one identifier: a
/// one-criterion filter selecting the package by `publisher.name`, and the
/// response-detail bitmask.
pub open spec fn spec_query_payload(p: Seq<char>, n: Seq<char>, bits: int) -> Seq<char> {
    "{\"filters\":[{\"criteria\":[{\"filterType\":7,\"value\":\""@ + spec_json_escape(
        id_seq(p, n),
    ) + "\"}]}],\"flags\":"@ + spec_decimal(bits) + "}"@
}

/// Builds the JSON body of a registry query.
pub fn build_query_payload(extension: Extension<'_>, flags: &Flags) -> (r: String)
    ensures
        r@ == spec_query_payload(extension.publisher@, extension.name@, spec_flag_bits(*flags)),
{
    let mut out = String::from_str("{\"filters\":[{\"criteria\":[{\"filterType\":7,\"value\":\"");
    let id = extension.to_id();
    append_json_escaped(&mut out, id.as_str());
    out.append("\"}]}],\"flags\":");
    let bits = u32_to_decimal(flags.bits());
    out.append(bits.as_str());
    out.append("}");
    proof {
        assert(out@ =~= spec_query_payload(
            extension.publisher@,
            extension.name@,
            spec_flag_bits(*flags),
        ));
    }
    out
}

/// A candidate is admissible for a constrained request when its declared
/// engine requirement accepts the engine and, unless pre-releases are
/// allowed, its pre-release marker is not the literal `true`.
pub open spec fn candidate_admissible(v: Version, engine: Seq<char>, allow_pre_release: bool) -> bool {
    version_compatible_with(v, engine) && (allow_pre_release || !(spec_prerelease(v) == Some(
        "true"@,
    )))
}

/// The version the resolver chooses from a non-empty candidate list: with
/// no engine constraint, the first candidate (registry order, newest
/// first); with a constraint, the first admissible candidate, or — when
/// none is admissible — the first candidate altogether, the deliberate
/// best-effort fallback.
pub open spec fn spec_resolved_version(
    versions: Seq<Version>,
    engine: Option<Seq<char>>,
    allow_pre_release: bool,
) -> Seq<char>
    recommends
        versions.len() > 0,
{
    match engine {
        None => versions[0].version@,
        Some(e) => {
            let f = versions.filter(|v: Version| candidate_admissible(v, e, allow_pre_release));
            if f.len() > 0 {
                f[0].version@
            } else {
                versions[0].version@
            }
        },
    }
}

/// A filter keeps a matching head as its first element.
proof fn lemma_filter_first<A>(s: Seq<A>, p: spec_fn(A) -> bool)
    requires
        s.len() > 0,
        p(s[0]),
    ensures
        s.filter(p).len() > 0,
        s.filter(p)[0] == s[0],
{
    let single = seq![s[0]];
    let rest = s.skip(1);
    assert(s =~= single + rest);
    Seq::filter_distributes_over_add(single, rest, p);
    reveal_with_fuel(Seq::filter, 2);
    assert(single.drop_last() =~= Seq::<A>::empty());
    assert(single.filter(p) =~= seq![s[0]]);
    Seq::lemma_filter_len(rest, p);
    assert(s.filter(p)[0] == (single.filter(p) + rest.filter(p))[0]);
}

/// Chooses the version for one resolve request from the candidate list of
/// a registry response. Fails with `NoVersionsAvailable` exactly when the
/// list is empty; never re-orders, only filters.
pub fn resolve_version(
    versions: &Vec<Version>,
    engine_version: Option<&str>,
    allow_pre_release: bool,
) -> (r: Result<String, VsixHarvesterError>)
    ensures
        r is Ok <==> versions@.len() > 0,
        (r matches Err(e) ==> e is NoVersionsAvailable),
        versions@.len() > 0 ==> (r matches Ok(v) && v@ == spec_resolved_version(
            versions@,
            opt_str_view(engine_version),
            allow_pre_release,
        )),
{
    if versions.len() == 0 {
        return Err(VsixHarvesterError::NoVersionsAvailable);
    }
    match engine_version {
        None => Ok(versions[0].version.clone()),
        Some(engine) => {
            let ghost pred = |v: Version| candidate_admissible(v, engine@, allow_pre_release);
            let n = versions.len();
            let mut i: usize = 0;
            while i < n
                invariant
                    i <= n,
                    n == versions@.len(),
                    n > 0,
                    opt_str_view(engine_version) == Some(engine@),
                    pred == (|v: Version| candidate_admissible(v, engine@, allow_pre_release)),
                    forall|j: int| 0 <= j < i ==> !pred(#[trigger] versions@[j]),
                decreases n - i,
            {
                let compatible = match versions[i].get_vscode_engine_version() {
                    Some(req) => is_compatible(req.as_str(), engine),
                    None => false,
                };
                let admissible = if !compatible {
                    false
                } else if allow_pre_release {
                    true
                } else {
                    match versions[i].get_vscode_prerelease() {
                        Some(val) => !str_eq(val.as_str(), "true"),
                        None => true,
                    }
                };
                proof {
                    assert(admissible == pred(versions@[i as int]));
                }
                if admissible {
                    proof {
                        let s = versions@;
                        let prefix = s.take(i as int);
                        let suffix = s.skip(i as int);
                        assert(s =~= prefix + suffix);
                        Seq::filter_distributes_over_add(prefix, suffix, pred);
                        assert(prefix.all(|v: Version| !pred(v))) by {
                            assert forall|j: int| 0 <= j < prefix.len() implies !pred(
                                #[trigger] prefix[j],
                            ) by {
                                assert(prefix[j] == s[j]);
                            }
                        }
                        prefix.lemma_all_neg_filter_empty(pred);
                        assert(suffix[0] == s[i as int]);
                        lemma_filter_first(suffix, pred);
                        assert(s.filter(pred).len() > 0);
                        assert(s.filter(pred)[0] == s[i as int]);
                        assert(spec_resolved_version(s, Some(engine@), allow_pre_release) == s[
                            i as int
                        ].version@);
                        assert(opt_str_view(engine_version) == Some(engine@));
                    }
                    return Ok(versions[i].version.clone());
                }
                i += 1;
            }
            proof {
                assert(versions@.all(|v: Version| !pred(v))) by {
                    assert forall|j: int| 0 <= j < versions@.len() implies !pred(
                        #[trigger] versions@[j],
                    ) by {}
                }
                versions@.lemma_all_neg_filter_empty(pred);
            }
            Ok(versions[0].version.clone())
        },
    }
}

/// Where in a decoded response the resolver reads, and what each shape
/// yields: a response without the `results[0].extensions[0]` path is a
/// shape error, one with an empty version list has nothing to offer, and
/// any other response yields the resolved version.
pub open spec fn spec_response_versions(resp: MarketplaceResponse) -> Option<Seq<Version>> {
    if resp.results@.len() > 0 && resp.results@[0].extensions@.len() > 0 {
        Some(resp.results@[0].extensions@[0].versions@)
    } else {
        None
    }
}

/// Chooses the version for one resolve request from a decoded registry
/// response, reading the single consumed path `results[0].extensions[0]`.
pub fn get_version_from_response(
    resp: &MarketplaceResponse,
    engine_version: Option<&str>,
    allow_pre_release: bool,
) -> (r: Result<String, VsixHarvesterError>)
    ensures
        (match spec_response_versions(*resp) {
            None => r matches Err(e) && e is JsonError,
            Some(vs) => {
                &&& (r is Ok <==> vs.len() > 0)
                &&& (vs.len() == 0 ==> (r matches Err(e) && e is NoVersionsAvailable))
                &&& (vs.len() > 0 ==> (r matches Ok(v) && v@ == spec_resolved_version(
                    vs,
                    opt_str_view(engine_version),
                    allow_pre_release,
                )))
            },
        }),
{
    if resp.results.len() == 0 || resp.results[0].extensions.len() == 0 {
        return Err(
            VsixHarvesterError::JsonError(
                String::from_str("response holds no results for the queried extension"),
            ),
        );
    }
    resolve_version(&resp.results[0].extensions[0].versions, engine_version, allow_pre_release)
}

} // verus!
