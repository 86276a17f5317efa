//! The orchestrator's decisions, as pure functions: which mode a run takes,
//! the task list of each platform category, the concurrency width, the
//! cache decision of one fetch, and the batch outcome policy that reports
//! per-item failures without escalating them. The surrounding application
//! performs the network and filesystem work these decisions call for.
use vstd::prelude::*;
use vstd::seq_lib::*;
use vstd::string::StrSliceExecFns;
use vstd::string::StringExecFns;

use crate::architecture::Architecture;
use crate::architecture::spec_arch_from_field;
use crate::architecture::spec_categories;
use crate::architecture::spec_opt_vec_view;
use crate::architecture::spec_target_platform;
use crate::args::Args;
use crate::config::MAX_CONCURRENT_DOWNLOADS;
use crate::error::VsixHarvesterError;
use crate::extension::Extension;
use crate::extension::Extensions;
use crate::extension::id_seq;
use crate::extension::parts_wf;
use crate::extension::valid_extension_id;
use crate::strings::opt_str_view;
use crate::strings::opt_string_view;

verus! {

/// One resolve-then-fetch unit of work: one identifier under one platform
/// category, with everything the fetch needs. Created once, consumed once.
pub struct FetchTask {
    /// Publisher part of the identifier; non-empty, free of `.`.
    pub publisher: String,
    /// Name part of the identifier; non-empty, free of `.`.
    pub name: String,
    /// Directory the artifact is written to.
    pub destination: String,
    /// Redownload even when the computed path already exists.
    pub no_cache: bool,
    /// Forward proxy URL, if any.
    pub proxy: Option<String>,
    /// Query token of the platform category, absent for the unrestricted one.
    pub target_platform: Option<String>,
    /// Engine version the chosen version must be compatible with, if any.
    pub engine_version: Option<String>,
    /// Whether pre-release versions are admissible.
    pub allow_pre_release: bool,
}

/// The task list of one platform category, under the category's manifest
/// field name and query token.
pub struct CategoryPlan {
    /// Manifest-field name of the category.
    pub field_name: String,
    /// Query token of the category, absent for the unrestricted one.
    pub target_platform: Option<String>,
    /// One task per requested identifier, in manifest order.
    pub tasks: Vec<FetchTask>,
}

/// A task carries exactly one parsed identifier and the run's settings.
pub open spec fn spec_task_matches(
    t: FetchTask,
    id: Seq<char>,
    dest: Seq<char>,
    no_cache: bool,
    proxy: Option<Seq<char>>,
    engine: Option<Seq<char>>,
    allow_pre_release: bool,
    plat: Option<Seq<char>>,
) -> bool {
    &&& parts_wf(t.publisher@, t.name@)
    &&& id_seq(t.publisher@, t.name@) == id
    &&& t.destination@ == dest
    &&& t.no_cache == no_cache
    &&& opt_string_view(t.proxy) == proxy
    &&& opt_string_view(t.engine_version) == engine
    &&& t.allow_pre_release == allow_pre_release
    &&& opt_string_view(t.target_platform) == plat
}

/// Copies an optional borrowed string into an owned one.
fn copy_opt_str(o: Option<&str>) -> (r: Option<String>)
    ensures
        opt_string_view(r) == opt_str_view(o),
{
    match o {
        Some(s) => Some(s.to_owned()),
        None => None,
    }
}

/// Builds the tasks of one category: one per identifier, in order. Fails
/// with `InvalidExtensionId` exactly when some identifier is malformed;
/// a malformed identifier in a manifest is a structural error that aborts
/// the planning of the whole run.
pub fn plan_tasks(
    ids: &Vec<String>,
    destination: &str,
    no_cache: bool,
    proxy: Option<&str>,
    engine_version: Option<&str>,
    allow_pre_release: bool,
    target_platform: Option<&str>,
) -> (r: Result<Vec<FetchTask>, VsixHarvesterError>)
    ensures
        r is Ok <==> (forall|j: int|
            0 <= j < ids@.len() ==> valid_extension_id(#[trigger] ids@[j]@)),
        (r matches Err(e) ==> e matches VsixHarvesterError::InvalidExtensionId(s)
            && !valid_extension_id(s@) && (exists|j: int|
            0 <= j < ids@.len() && #[trigger] ids@[j]@ == s@)),
        (r matches Ok(ts) ==> ts@.len() == ids@.len() && (forall|j: int|
            0 <= j < ids@.len() ==> spec_task_matches(
                #[trigger] ts@[j],
                ids@[j]@,
                destination@,
                no_cache,
                opt_str_view(proxy),
                opt_str_view(engine_version),
                allow_pre_release,
                opt_str_view(target_platform),
            ))),
{
    let n = ids.len();
    let mut tasks: Vec<FetchTask> = Vec::new();
    let mut j: usize = 0;
    while j < n
        invariant
            j <= n,
            n == ids@.len(),
            tasks@.len() == j,
            forall|m: int| 0 <= m < j ==> valid_extension_id(#[trigger] ids@[m]@),
            forall|m: int|
                0 <= m < j ==> spec_task_matches(
                    #[trigger] tasks@[m],
                    ids@[m]@,
                    destination@,
                    no_cache,
                    opt_str_view(proxy),
                    opt_str_view(engine_version),
                    allow_pre_release,
                    opt_str_view(target_platform),
                ),
        decreases n - j,
    {
        let ext = match Extension::from_id(ids[j].as_str()) {
            Ok(ext) => ext,
            Err(e) => {
                return Err(e);
            },
        };
        let task = FetchTask {
            publisher: ext.publisher.to_owned(),
            name: ext.name.to_owned(),
            destination: destination.to_owned(),
            no_cache,
            proxy: copy_opt_str(proxy),
            target_platform: copy_opt_str(target_platform),
            engine_version: copy_opt_str(engine_version),
            allow_pre_release,
        };
        tasks.push(task);
        j += 1;
    }
    Ok(tasks)
}

/// The query token a direct-download request's architecture argument maps
/// to: the token of the named category, or none when the argument is
/// absent, unknown, or names the unrestricted category.
pub open spec fn spec_direct_platform(arch: Option<Seq<char>>) -> Option<Seq<char>> {
    match arch {
        None => None,
        Some(a) => match spec_arch_from_field(a) {
            Some(ar) => spec_target_platform(ar),
            None => None,
        },
    }
}

/// Builds the one task of a direct-download run. A malformed identifier
/// here is a structural error: it is the caller's own request.
pub fn build_direct_task(
    download: &str,
    arch: Option<&str>,
    destination: &str,
    no_cache: bool,
    proxy: Option<&str>,
    engine_version: Option<&str>,
    allow_pre_release: bool,
) -> (r: Result<FetchTask, VsixHarvesterError>)
    ensures
        r is Ok <==> valid_extension_id(download@),
        (r matches Err(e) ==> e matches VsixHarvesterError::InvalidExtensionId(s) && s@
            == download@),
        (r matches Ok(t) ==> spec_task_matches(
            t,
            download@,
            destination@,
            no_cache,
            opt_str_view(proxy),
            opt_str_view(engine_version),
            allow_pre_release,
            spec_direct_platform(opt_str_view(arch)),
        )),
{
    let ext = match Extension::from_id(download) {
        Ok(ext) => ext,
        Err(e) => {
            return Err(e);
        },
    };
    let target_platform: Option<&str> = match arch {
        None => None,
        Some(a) => match Architecture::from_cli_arg(a) {
            Some(ar) => ar.to_target_platform(),
            None => None,
        },
    };
    Ok(
        FetchTask {
            publisher: ext.publisher.to_owned(),
            name: ext.name.to_owned(),
            destination: destination.to_owned(),
            no_cache,
            proxy: copy_opt_str(proxy),
            target_platform: copy_opt_str(target_platform),
            engine_version: copy_opt_str(engine_version),
            allow_pre_release,
        },
    )
}

/// How many fetches may be in flight at once: one in serial mode, the
/// fixed window width otherwise; never zero.
pub fn concurrency_width(serial: bool) -> (r: usize)
    ensures
        r == (if serial {
            1usize
        } else {
            MAX_CONCURRENT_DOWNLOADS
        }),
        r >= 1,
{
    if serial {
        1
    } else {
        MAX_CONCURRENT_DOWNLOADS
    }
}

/// The cache decision of one fetch: download exactly when a redownload is
/// forced or nothing lies at the computed path. An existing file under the
/// exact computed name satisfies the fetch with no network call; a version
/// bump changes the name, which is the intended invalidation.
pub fn should_download(force_redownload: bool, file_exists: bool) -> (r: bool)
    ensures
        r == (force_redownload || !file_exists),
{
    force_redownload || !file_exists
}

/// The identifier list a manifest holds for category `k` of the fixed
/// order, if any.
pub open spec fn spec_category_list(e: Extensions, k: int) -> Option<Seq<String>> {
    if k == 0 {
        spec_opt_vec_view(e.universal)
    } else if k == 1 {
        spec_opt_vec_view(e.linux_x64)
    } else if k == 2 {
        spec_opt_vec_view(e.linux_arm64)
    } else if k == 3 {
        spec_opt_vec_view(e.darwin_x64)
    } else if k == 4 {
        spec_opt_vec_view(e.darwin_arm64)
    } else if k == 5 {
        spec_opt_vec_view(e.win32_x64)
    } else {
        spec_opt_vec_view(e.win32_arm64)
    }
}

/// Every identifier of a (possibly absent) list is well-formed.
pub open spec fn spec_list_ids_valid(l: Option<Seq<String>>) -> bool {
    match l {
        Some(ids) => forall|j: int| 0 <= j < ids.len() ==> valid_extension_id(#[trigger] ids[j]@),
        None => true,
    }
}

/// Every identifier of every category list of a manifest is well-formed.
pub open spec fn spec_all_ids_valid(e: Extensions) -> bool {
    forall|k: int| 0 <= k < 7 ==> #[trigger] spec_list_ids_valid(spec_category_list(e, k))
}

/// The identifier list an optional borrowed vector holds.
pub open spec fn spec_opt_vecref_view(o: Option<&Vec<String>>) -> Option<Seq<String>> {
    match o {
        Some(v) => Some(v@),
        None => None,
    }
}

/// A category's plan carries its field name, its query token, and one
/// matching task per requested identifier, in manifest order; an absent
/// list plans no tasks.
pub open spec fn spec_category_plan_matches(
    plan: CategoryPlan,
    e: Extensions,
    k: int,
    dest: Seq<char>,
    no_cache: bool,
    proxy: Option<Seq<char>>,
    engine: Option<Seq<char>>,
    allow_pre_release: bool,
) -> bool {
    &&& plan.field_name@ == spec_categories()[k].0
    &&& opt_string_view(plan.target_platform) == spec_categories()[k].1
    &&& (match spec_category_list(e, k) {
        None => plan.tasks@.len() == 0,
        Some(ids) => plan.tasks@.len() == ids.len() && (forall|j: int|
            0 <= j < ids.len() ==> spec_task_matches(
                #[trigger] plan.tasks@[j],
                ids[j]@,
                dest,
                no_cache,
                proxy,
                engine,
                allow_pre_release,
                spec_categories()[k].1,
            )),
    })
}

/// Looking a category's field name up by string gives that category's
/// manifest list.
proof fn lemma_field_lookup(e: Extensions)
    ensures
        forall|k: int|
            0 <= k < 7 ==> #[trigger] crate::architecture::spec_extensions_list(
                e,
                spec_categories()[k].0,
            ) == spec_category_list(e, k),
{
    reveal_strlit("universal");
    reveal_strlit("linux_x64");
    reveal_strlit("linux_arm64");
    reveal_strlit("darwin_x64");
    reveal_strlit("darwin_arm64");
    reveal_strlit("win32_x64");
    reveal_strlit("win32_arm64");
    // the same-length pairs must be told apart by a character
    assert("universal"@ != "linux_x64"@) by {
        assert("universal"@[0] == 'u');
        assert("linux_x64"@[0] == 'l');
    }
    assert("universal"@ != "win32_x64"@) by {
        assert("universal"@[0] == 'u');
        assert("win32_x64"@[0] == 'w');
    }
    assert("linux_x64"@ != "win32_x64"@) by {
        assert("linux_x64"@[0] == 'l');
        assert("win32_x64"@[0] == 'w');
    }
    assert("linux_arm64"@ != "win32_arm64"@) by {
        assert("linux_arm64"@[0] == 'l');
        assert("win32_arm64"@[0] == 'w');
    }
    assert forall|k: int|
        0 <= k < 7 implies #[trigger] crate::architecture::spec_extensions_list(
        e,
        spec_categories()[k].0,
    ) == spec_category_list(e, k) by {
        if k == 0 {
            assert(spec_categories()[0].0 == "universal"@);
            assert(crate::architecture::spec_extensions_list(e, "universal"@)
                == spec_opt_vec_view(e.universal));
        } else if k == 1 {
            assert(spec_categories()[1].0 == "linux_x64"@);
            assert(crate::architecture::spec_extensions_list(e, "linux_x64"@)
                == spec_opt_vec_view(e.linux_x64));
        } else if k == 2 {
            assert(spec_categories()[2].0 == "linux_arm64"@);
            assert(crate::architecture::spec_extensions_list(e, "linux_arm64"@)
                == spec_opt_vec_view(e.linux_arm64));
        } else if k == 3 {
            assert(spec_categories()[3].0 == "darwin_x64"@);
            assert(crate::architecture::spec_extensions_list(e, "darwin_x64"@)
                == spec_opt_vec_view(e.darwin_x64));
        } else if k == 4 {
            assert(spec_categories()[4].0 == "darwin_arm64"@);
            assert(crate::architecture::spec_extensions_list(e, "darwin_arm64"@)
                == spec_opt_vec_view(e.darwin_arm64));
        } else if k == 5 {
            assert(spec_categories()[5].0 == "win32_x64"@);
            assert(crate::architecture::spec_extensions_list(e, "win32_x64"@)
                == spec_opt_vec_view(e.win32_x64));
        } else {
            assert(spec_categories()[6].0 == "win32_arm64"@);
            assert(crate::architecture::spec_extensions_list(e, "win32_arm64"@)
                == spec_opt_vec_view(e.win32_arm64));
        }
    }
}

/// Plans one category from its (possibly absent) manifest list.
fn plan_category(
    list: Option<&Vec<String>>,
    field_name: &str,
    target_platform: Option<&str>,
    destination: &str,
    no_cache: bool,
    proxy: Option<&str>,
    engine_version: Option<&str>,
    allow_pre_release: bool,
) -> (r: Result<CategoryPlan, VsixHarvesterError>)
    ensures
        r is Ok <==> spec_list_ids_valid(spec_opt_vecref_view(list)),
        (r matches Err(e) ==> e matches VsixHarvesterError::InvalidExtensionId(s)
            && !valid_extension_id(s@)),
        (r matches Ok(plan) ==> plan.field_name@ == field_name@ && opt_string_view(
            plan.target_platform,
        ) == opt_str_view(target_platform) && (match spec_opt_vecref_view(list) {
            None => plan.tasks@.len() == 0,
            Some(ids) => plan.tasks@.len() == ids.len() && (forall|j: int|
                0 <= j < ids.len() ==> spec_task_matches(
                    #[trigger] plan.tasks@[j],
                    ids[j]@,
                    destination@,
                    no_cache,
                    opt_str_view(proxy),
                    opt_str_view(engine_version),
                    allow_pre_release,
                    opt_str_view(target_platform),
                )),
        })),
{
    let tasks = match list {
        None => Vec::new(),
        Some(ids) => {
            match plan_tasks(
                ids,
                destination,
                no_cache,
                proxy,
                engine_version,
                allow_pre_release,
                target_platform,
            ) {
                Ok(ts) => ts,
                Err(e) => {
                    proof {
                        assert(list == Some(ids));
                        assert(spec_opt_vecref_view(list) == Some(ids@));
                        if spec_list_ids_valid(spec_opt_vecref_view(list)) {
                            assert forall|j: int|
                                0 <= j < ids@.len() implies valid_extension_id(
                                #[trigger] ids@[j]@,
                            ) by {
                                assert(spec_list_ids_valid(Some(ids@)));
                            }
                        }
                    }
                    return Err(e);
                },
            }
        },
    };
    Ok(
        CategoryPlan {
            field_name: field_name.to_owned(),
            target_platform: copy_opt_str(target_platform),
            tasks,
        },
    )
}

/// Plans a whole batch: one category plan per category, in the fixed
/// order, each with one task per requested identifier. Fails exactly when
/// some requested identifier is malformed — a structural error that aborts
/// the run before any fetch starts.
pub fn plan_batch(
    extensions: &Extensions,
    destination: &str,
    no_cache: bool,
    proxy: Option<&str>,
    engine_version: Option<&str>,
    allow_pre_release: bool,
) -> (r: Result<Vec<CategoryPlan>, VsixHarvesterError>)
    ensures
        r is Ok <==> spec_all_ids_valid(*extensions),
        (r matches Err(e) ==> e matches VsixHarvesterError::InvalidExtensionId(s)
            && !valid_extension_id(s@)),
        (r matches Ok(plans) ==> plans@.len() == 7 && (forall|k: int|
            0 <= k < 7 ==> spec_category_plan_matches(
                #[trigger] plans@[k],
                *extensions,
                k,
                destination@,
                no_cache,
                opt_str_view(proxy),
                opt_str_view(engine_version),
                allow_pre_release,
            ))),
{
    let cats = Architecture::available_architectures();
    let mut plans: Vec<CategoryPlan> = Vec::new();
    let mut k: usize = 0;
    while k < 7
        invariant
            k <= 7,
            cats@.len() == 7,
            forall|m: int|
                0 <= m < 7 ==> (#[trigger] cats@[m]).0@ == spec_categories()[m].0 && (match cats@[
                    m
                ].1 {
                    Some(t) => spec_categories()[m].1 == Some(t@),
                    None => spec_categories()[m].1 is None,
                }),
            plans@.len() == k,
            forall|m: int|
                0 <= m < k ==> #[trigger] spec_list_ids_valid(
                    spec_category_list(*extensions, m),
                ),
            forall|m: int|
                0 <= m < k ==> spec_category_plan_matches(
                    #[trigger] plans@[m],
                    *extensions,
                    m,
                    destination@,
                    no_cache,
                    opt_str_view(proxy),
                    opt_str_view(engine_version),
                    allow_pre_release,
                ),
        decreases 7 - k,
    {
        let field: &str = cats[k].0;
        let plat: Option<&str> = cats[k].1;
        let list = Architecture::get_extensions_list(field, extensions);
        proof {
            lemma_field_lookup(*extensions);
            assert(spec_opt_vecref_view(list) == spec_category_list(*extensions, k as int));
            assert(opt_str_view(plat) == spec_categories()[k as int].1);
        }
        match plan_category(
            list,
            field,
            plat,
            destination,
            no_cache,
            proxy,
            engine_version,
            allow_pre_release,
        ) {
            Ok(plan) => {
                plans.push(plan);
            },
            Err(e) => {
                proof {
                    assert(!spec_list_ids_valid(spec_category_list(*extensions, k as int)));
                }
                return Err(e);
            },
        }
        k += 1;
    }
    Ok(plans)
}

/// The two shapes a run can take.
#[derive(Debug, Clone, Copy, PartialEq, Eq, Structural)]
pub enum RunMode {
    /// Exactly one identifier, fetched once; its error is the run's outcome.
    DirectDownload,
    /// One task per manifest entry, run category by category.
    ManifestBatch,
}

impl RunMode {
    /// A run is a direct download exactly when one identifier was named.
    pub fn of_args(args: &Args) -> (r: RunMode)
        ensures
            r == (if args.download is Some {
                RunMode::DirectDownload
            } else {
                RunMode::ManifestBatch
            }),
    {
        if args.download.is_some() {
            RunMode::DirectDownload
        } else {
            RunMode::ManifestBatch
        }
    }
}

/// The positions, in order, at which a batch's task results failed.
pub open spec fn spec_err_indices(results: Seq<Result<(), VsixHarvesterError>>) -> Seq<int> {
    Seq::new(results.len(), |j: int| j).filter(|j: int| results[j] is Err)
}

/// The report of a batch: exactly the positions of the tasks that failed,
/// in order. The report accompanies the outcome; it never becomes it.
pub fn failed_indices(results: &Vec<Result<(), VsixHarvesterError>>) -> (r: Vec<usize>)
    ensures
        r@.map_values(|u: usize| u as int) == spec_err_indices(results@),
{
    let n = results.len();
    let ghost pred = |j: int| results@[j] is Err;
    let mut r: Vec<usize> = Vec::new();
    let mut i: usize = 0;
    proof {
        assert(Seq::new(0, |j: int| j).filter(pred) =~= Seq::<int>::empty());
        assert(r@.map_values(|u: usize| u as int) =~= Seq::new(0, |j: int| j).filter(pred));
    }
    while i < n
        invariant
            i <= n,
            n == results@.len(),
            pred == (|j: int| results@[j] is Err),
            r@.map_values(|u: usize| u as int) == Seq::new(i as nat, |j: int| j).filter(pred),
        decreases n - i,
    {
        let ghost before = r@.map_values(|u: usize| u as int);
        if results[i].is_err() {
            r.push(i);
        }
        proof {
            let prev = Seq::new(i as nat, |j: int| j);
            assert(Seq::new((i + 1) as nat, |j: int| j) =~= prev.push(i as int));
            prev.lemma_filter_push(i as int, pred);
            if pred(i as int) {
                assert(r@.map_values(|u: usize| u as int) =~= before.push(i as int));
            }
            assert(r@.map_values(|u: usize| u as int) == Seq::new((i + 1) as nat, |j: int| j)
                .filter(pred));
        }
        i += 1;
    }
    r
}

/// The outcome of a whole batch: success, whatever the individual task
/// results were. Per-item failures are reported (see `failed_indices`) and
/// do not cancel siblings or flip the run's outcome; only structural
/// errors, which abort before any task runs, make a run fail.
pub fn batch_outcome(results: &Vec<Result<(), VsixHarvesterError>>) -> (r: Result<
    (),
    VsixHarvesterError,
>)
    ensures
        r is Ok,
{
    Ok(())
}

} // verus!
