//! Runtime packages: their definitions, version resolution (the newest
//! semantic version when none is asked for), and listings in name order,
//! newest version first.
use vstd::prelude::*;
use crate::cache::{bytes_lt, utf8};
use crate::error::TurboError;
use crate::semver_order::{lemma_semver_order, semver_lt};
use crate::text::{concat3, copy_string, join_path, join_spec};

verus! {

/// The metadata file of a package.
pub struct PackageYaml {
    pub name: String,
    pub version: String,
    pub description: Option<String>,
    pub aliases: Option<Vec<String>>,
    pub compiled: Option<bool>,
}

/// A package directory with its parsed metadata.
pub struct PackageDefinition {
    pub path: String,
    pub yaml: PackageYaml,
}

/// A package version in the repository, and whether it is installed.
pub struct PackageInfo {
    pub name: String,
    pub version: String,
    pub installed: bool,
}

/// The `semver` crate's version type, carried opaquely.
#[verifier::external_type_specification]
#[verifier::external_body]
pub struct ExVersion(semver::Version);

/// A version as the `semver` crate parses it: its fields, and the parsed
/// value they came from. Only `parse_version` makes one.
struct SemVer {
    major: u64,
    minor: u64,
    patch: u64,
    pre: String,
    build: String,
    raw: semver::Version,
}

/// The fields of a parsed version.
spec fn fields(v: SemVer) -> (u64, u64, u64, Seq<char>, Seq<char>) {
    (v.major, v.minor, v.patch, v.pre@, v.build@)
}

/// What `semver::Version::parse` makes of a text: major, minor, patch,
/// pre-release and build metadata, or `None` when it is no version.
pub uninterp spec fn semver_fields(s: Seq<char>) -> Option<(u64, u64, u64, Seq<char>, Seq<char>)>;

/// Relies on `semver::Version::parse` and the fields of the version it returns.
#[verifier::external_body]
fn parse_version(s: &str) -> (r: Option<SemVer>)
    ensures
        match r {
            Some(v) => semver_fields(s@) == Some(fields(v)),
            None => semver_fields(s@) is None,
        },
{
    match semver::Version::parse(s) {
        Ok(v) => Some(
            SemVer {
                major: v.major,
                minor: v.minor,
                patch: v.patch,
                pre: v.pre.as_str().to_string(),
                build: v.build.as_str().to_string(),
                raw: v,
            },
        ),
        Err(_) => None,
    }
}

/// Relies on `Ord for semver::Version` (derived over major, minor, patch,
/// pre-release, build), with `Ord for Prerelease` and `Ord for
/// BuildMetadata` as `semver_lt` states them: negative when `a` is below
/// `b`, positive when above.
#[verifier::external_body]
fn compare_versions(a: &SemVer, b: &SemVer) -> (r: i8)
    ensures
        r < 0 <==> semver_lt(fields(*a), fields(*b)),
        r > 0 <==> semver_lt(fields(*b), fields(*a)),
{
    match a.raw.cmp(&b.raw) {
        std::cmp::Ordering::Less => -1,
        std::cmp::Ordering::Equal => 0,
        std::cmp::Ordering::Greater => 1,
    }
}

/// Whether a directory name is a semantic version.
pub open spec fn is_version(s: Seq<char>) -> bool {
    semver_fields(s) is Some
}

/// Whether version text `a` is below version text `b` in semver's order.
pub open spec fn version_lt(a: Seq<char>, b: Seq<char>) -> bool {
    semver_lt(semver_fields(a)->0, semver_fields(b)->0)
}

/// Whether `i` indexes a newest version among `names`: it is a version, and
/// no version among them ranks above it.
pub open spec fn is_latest(names: Seq<String>, i: int) -> bool {
    &&& 0 <= i < names.len()
    &&& is_version(names[i]@)
    &&& forall|j: int| 0 <= j < names.len() && is_version(#[trigger] names[j]@) ==> !version_lt(names[i]@, names[j]@)
}

/// The newest version among the directory names `names`, in semver's
/// order; an error when none is a version.
pub fn find_latest_version(names: &Vec<String>) -> (r: Result<String, TurboError>)
    ensures
        r is Err <==> forall|j: int| 0 <= j < names@.len() ==> !is_version(#[trigger] names@[j]@),
        r is Ok ==> exists|i: int| is_latest(names@, i) && names@[i]@ == r->Ok_0@,
        r is Err ==> r->Err_0 is Package,
{
    proof {
        lemma_semver_order();
    }
    let mut best: Option<(usize, SemVer)> = None;
    let mut k: usize = 0;
    while k < names.len()
        invariant
            k <= names@.len(),
            forall|a: (u64, u64, u64, Seq<char>, Seq<char>)| !#[trigger] semver_lt(a, a),
            forall|a: (u64, u64, u64, Seq<char>, Seq<char>), b: (u64, u64, u64, Seq<char>, Seq<char>), c: (u64, u64, u64, Seq<char>, Seq<char>)|
                #[trigger] semver_lt(a, b) && #[trigger] semver_lt(b, c) ==> semver_lt(a, c),
            match best {
                Some((i, v)) => {
                    &&& i < k
                    &&& semver_fields(names@[i as int]@) == Some(fields(v))
                    &&& is_version(names@[i as int]@)
                    &&& forall|j: int| 0 <= j < k && is_version(#[trigger] names@[j]@) ==> !version_lt(names@[i as int]@, names@[j]@)
                },
                None => forall|j: int| 0 <= j < k ==> !is_version(#[trigger] names@[j]@),
            },
        decreases names@.len() - k,
    {
        match parse_version(names[k].as_str()) {
            Some(v) => {
                let replace = match &best {
                    Some((_, b)) => compare_versions(b, &v) < 0,
                    None => true,
                };
                if replace {
                    proof {
                        match best {
                            Some((i, b)) => {
                                assert forall|j: int| 0 <= j < k && is_version(#[trigger] names@[j]@) implies !version_lt(names@[k as int]@, names@[j]@) by {
                                    if version_lt(names@[k as int]@, names@[j]@) {
                                        assert(semver_lt(fields(b), fields(v)));
                                        assert(version_lt(names@[i as int]@, names@[j]@));
                                    }
                                }
                            },
                            None => {},
                        }
                    }
                    best = Some((k, v));
                }
            },
            None => {},
        }
        k = k + 1;
    }
    match best {
        Some((i, _)) => {
            assert(is_latest(names@, i as int));
            Ok(copy_string(&names[i]))
        },
        None => Err(TurboError::Package(String::from_str("No valid versions found for package"))),
    }
}

/// The version of package `name` to use: the one asked for, unless none or
/// `latest` is asked for; then the newest among the directory names `names`,
/// and when none of them is a version, `RuntimeNotFound(name, "latest")`.
pub fn resolve_version(name: &str, requested: &Option<String>, names: &Vec<String>) -> (r: Result<String, TurboError>)
    ensures
        requested is Some && requested->0@ != "latest"@ ==> r is Ok && r->Ok_0@ == requested->0@,
        requested is None || requested->0@ == "latest"@ ==> {
            &&& (r is Err <==> forall|j: int| 0 <= j < names@.len() ==> !is_version(#[trigger] names@[j]@))
            &&& (r is Ok ==> exists|i: int| is_latest(names@, i) && names@[i]@ == r->Ok_0@)
            &&& (r is Err ==> (r->Err_0 matches TurboError::RuntimeNotFound(l, v) && l@ == name@ && v@ == "latest"@))
        },
{
    let latest = String::from_str("latest");
    let asks_latest = match requested {
        Some(v) => *v == latest,
        None => true,
    };
    if !asks_latest {
        match requested {
            Some(v) => return Ok(copy_string(v)),
            None => {},
        }
    }
    match find_latest_version(names) {
        Ok(v) => Ok(v),
        Err(_) => Err(TurboError::RuntimeNotFound(String::from_str(name), latest)),
    }
}

/// The rank of a (name, version) entry: by name, then newest version first.
pub open spec fn entry_lt(a: (Seq<char>, Seq<char>), b: (Seq<char>, Seq<char>)) -> bool {
    bytes_lt(utf8(a.0), utf8(b.0)) || (a.0 == b.0 && version_lt(b.1, a.1))
}

/// Where entry `j` goes among `order`: before the first that ranks after it.
pub open spec fn entry_pos(es: Seq<(Seq<char>, Seq<char>)>, order: Seq<int>, j: int, p: int) -> int
    decreases order.len() - p,
{
    if 0 <= p < order.len() && !entry_lt(es[j], es[order[p]]) {
        entry_pos(es, order, j, p + 1)
    } else {
        p
    }
}

/// The indices of the entries of `es` among the first `n` whose version is
/// one, in a stable sort by name, newest version first.
pub open spec fn listing_order(es: Seq<(Seq<char>, Seq<char>)>, n: int) -> Seq<int>
    decreases n,
{
    if n <= 0 {
        Seq::empty()
    } else {
        let prev = listing_order(es, n - 1);
        if is_version(es[n - 1].1) {
            prev.insert(entry_pos(es, prev, n - 1, 0), n - 1)
        } else {
            prev
        }
    }
}

proof fn lemma_entry_pos(es: Seq<(Seq<char>, Seq<char>)>, order: Seq<int>, j: int, p: int)
    requires
        0 <= p <= order.len(),
    ensures
        p <= entry_pos(es, order, j, p) <= order.len(),
        forall|k: int| p <= k < entry_pos(es, order, j, p) ==> !entry_lt(es[j], #[trigger] es[order[k]]),
        entry_pos(es, order, j, p) < order.len() ==> entry_lt(es[j], es[order[entry_pos(es, order, j, p)]]),
    decreases order.len() - p,
{
    if p < order.len() && !entry_lt(es[j], es[order[p]]) {
        lemma_entry_pos(es, order, j, p + 1);
    }
}

/// The entry order is irreflexive and transitive.
proof fn lemma_entry_order()
    ensures
        forall|a: (Seq<char>, Seq<char>)| !#[trigger] entry_lt(a, a),
        forall|a: (Seq<char>, Seq<char>), b: (Seq<char>, Seq<char>), c: (Seq<char>, Seq<char>)|
            #[trigger] entry_lt(a, b) && #[trigger] entry_lt(b, c) ==> entry_lt(a, c),
{
    crate::cache::lemma_bytes_order();
    lemma_semver_order();
}

/// The listing holds every entry whose version is one, once, in order.
pub proof fn lemma_listing_order(es: Seq<(Seq<char>, Seq<char>)>, n: int)
    requires
        0 <= n <= es.len(),
    ensures
        forall|k: int| 0 <= k < listing_order(es, n).len() ==> 0 <= #[trigger] listing_order(es, n)[k] < n
            && is_version(es[listing_order(es, n)[k]].1),
        forall|p: int, q: int| 0 <= p < q < listing_order(es, n).len() ==> #[trigger] listing_order(es, n)[p]
            != #[trigger] listing_order(es, n)[q],
        forall|i: int| 0 <= i < n && is_version(#[trigger] es[i].1) ==> exists|k: int|
            0 <= k < listing_order(es, n).len() && listing_order(es, n)[k] == i,
        forall|p: int, q: int| 0 <= p < q < listing_order(es, n).len() ==> !entry_lt(
            #[trigger] es[listing_order(es, n)[q]],
            #[trigger] es[listing_order(es, n)[p]],
        ),
    decreases n,
{
    if n > 0 {
        lemma_listing_order(es, n - 1);
        lemma_entry_order();
        let prev = listing_order(es, n - 1);
        if is_version(es[n - 1].1) {
            let pos = entry_pos(es, prev, n - 1, 0);
            lemma_entry_pos(es, prev, n - 1, 0);
            let cur = listing_order(es, n);
            assert(cur == prev.insert(pos, n - 1));
            assert forall|k: int| 0 <= k < cur.len() implies 0 <= #[trigger] cur[k] < n && is_version(es[cur[k]].1) by {
                if k < pos {
                    assert(cur[k] == prev[k]);
                } else if k > pos {
                    assert(cur[k] == prev[k - 1]);
                }
            }
            assert forall|p: int, q: int| 0 <= p < q < cur.len() implies #[trigger] cur[p] != #[trigger] cur[q] by {
                if q < pos {
                    assert(cur[p] == prev[p] && cur[q] == prev[q]);
                } else if q == pos {
                    assert(cur[p] == prev[p]);
                } else if p > pos {
                    assert(cur[p] == prev[p - 1] && cur[q] == prev[q - 1]);
                } else if p == pos {
                    assert(cur[q] == prev[q - 1]);
                } else {
                    assert(cur[p] == prev[p] && cur[q] == prev[q - 1]);
                }
            }
            assert forall|i: int| 0 <= i < n && is_version(#[trigger] es[i].1) implies exists|k: int|
                0 <= k < cur.len() && cur[k] == i by {
                if i == n - 1 {
                    assert(cur[pos] == i);
                } else {
                    assert(i < n - 1 && is_version(es[i].1));
                    let k = choose|k: int| 0 <= k < prev.len() && prev[k] == i;
                    if k < pos {
                        assert(cur[k] == i);
                    } else {
                        assert(cur[k + 1] == i);
                    }
                }
            }
            assert forall|p: int, q: int| 0 <= p < q < cur.len() implies !entry_lt(
                #[trigger] es[cur[q]],
                #[trigger] es[cur[p]],
            ) by {
                if q < pos {
                    assert(cur[p] == prev[p] && cur[q] == prev[q]);
                } else if q == pos {
                    assert(cur[p] == prev[p]);
                } else if p > pos {
                    assert(cur[p] == prev[p - 1] && cur[q] == prev[q - 1]);
                } else if p == pos {
                    assert(cur[q] == prev[q - 1]);
                    assert(entry_lt(es[n - 1], es[prev[pos]]));
                    if q - 1 > pos {
                        assert(!entry_lt(es[prev[q - 1]], es[prev[pos]]));
                    }
                } else {
                    assert(cur[p] == prev[p] && cur[q] == prev[q - 1]);
                }
            }
        } else {
            assert(listing_order(es, n) == prev);
            assert forall|i: int| 0 <= i < n && is_version(#[trigger] es[i].1) implies exists|k: int|
                0 <= k < prev.len() && prev[k] == i by {
                assert(i < n - 1);
            }
        }
    }
}

/// The views of (name, version) entries.
pub open spec fn entry_views(v: Seq<(String, String)>) -> Seq<(Seq<char>, Seq<char>)> {
    v.map_values(|e: (String, String)| (e.0@, e.1@))
}

fn entry_less(a: &(String, String), b: &(String, String)) -> (r: bool)
    requires
        is_version(a.1@),
        is_version(b.1@),
    ensures
        r == entry_lt((a.0@, a.1@), (b.0@, b.1@)),
{
    let an = a.0.as_str().as_bytes();
    let bn = b.0.as_str().as_bytes();
    if crate::cache::bytes_less(an, bn) {
        return true;
    }
    if a.0 != b.0 {
        return false;
    }
    match (parse_version(a.1.as_str()), parse_version(b.1.as_str())) {
        (Some(va), Some(vb)) => compare_versions(&vb, &va) < 0,
        _ => false,
    }
}

/// The entries whose version is a semantic version, each once, sorted by
/// name, newest version first (stable among equals).
pub fn sort_listing(entries: Vec<(String, String)>) -> (r: Vec<(String, String)>)
    ensures
        r@.len() == listing_order(entry_views(entries@), entries@.len() as int).len(),
        forall|k: int| 0 <= k < r@.len() ==> {
            let i = #[trigger] listing_order(entry_views(entries@), entries@.len() as int)[k];
            0 <= i < entries@.len() && r@[k].0@ == entries@[i].0@ && r@[k].1@ == entries@[i].1@
        },
        forall|k: int| 0 <= k < r@.len() ==> is_version(#[trigger] r@[k].1@),
        forall|p: int, q: int| 0 <= p < q < r@.len() ==> !entry_lt(
            (#[trigger] r@[q].0@, r@[q].1@),
            (#[trigger] r@[p].0@, r@[p].1@),
        ),
        forall|i: int| 0 <= i < entries@.len() && is_version(#[trigger] entries@[i].1@) ==> exists|k: int|
            0 <= k < r@.len() && listing_order(entry_views(entries@), entries@.len() as int)[k] == i,
        forall|p: int, q: int| 0 <= p < q < r@.len() ==> #[trigger] listing_order(entry_views(entries@), entries@.len() as int)[p]
            != #[trigger] listing_order(entry_views(entries@), entries@.len() as int)[q],
{
    let ghost es = entry_views(entries@);
    let mut order: Vec<usize> = Vec::new();
    let mut j: usize = 0;
    while j < entries.len()
        invariant
            j <= entries@.len(),
            es == entry_views(entries@),
            order@.map_values(|i: usize| i as int) == listing_order(es, j as int),
            forall|k: int| 0 <= k < order@.len() ==> #[trigger] order@[k] < j && is_version(es[order@[k] as int].1),
        decreases entries@.len() - j,
    {
        match parse_version(entries[j].1.as_str()) {
            Some(_) => {
                let ghost prev = order@.map_values(|i: usize| i as int);
                let mut p: usize = 0;
                while p < order.len() && !entry_less(&entries[j], &entries[order[p]])
                    invariant
                        p <= order@.len(),
                        j < entries@.len(),
                        is_version(es[j as int].1),
                        es == entry_views(entries@),
                        prev == order@.map_values(|i: usize| i as int),
                        forall|k: int| 0 <= k < order@.len() ==> #[trigger] order@[k] < j && is_version(es[order@[k] as int].1),
                        entry_pos(es, prev, j as int, p as int) == entry_pos(es, prev, j as int, 0),
                    decreases order@.len() - p,
                {
                    p = p + 1;
                }
                order.insert(p, j);
                proof {
                    assert(order@.map_values(|i: usize| i as int) =~= prev.insert(p as int, j as int));
                }
            },
            None => {},
        }
        j = j + 1;
    }
    let mut r: Vec<(String, String)> = Vec::new();
    let mut k: usize = 0;
    while k < order.len()
        invariant
            k <= order@.len(),
            es == entry_views(entries@),
            order@.map_values(|i: usize| i as int) == listing_order(es, entries@.len() as int),
            forall|q: int| 0 <= q < order@.len() ==> #[trigger] order@[q] < entries@.len(),
            r@.len() == k,
            forall|q: int| 0 <= q < k ==> {
                let i = #[trigger] order@[q] as int;
                r@[q].0@ == entries@[i].0@ && r@[q].1@ == entries@[i].1@
            },
        decreases order@.len() - k,
    {
        let i = order[k];
        r.push((copy_string(&entries[i].0), copy_string(&entries[i].1)));
        k = k + 1;
    }
    proof {
        let lo = listing_order(es, entries@.len() as int);
        lemma_listing_order(es, entries@.len() as int);
        assert forall|q: int| 0 <= q < r@.len() implies {
            let i = #[trigger] lo[q];
            0 <= i < entries@.len() && r@[q].0@ == entries@[i].0@ && r@[q].1@ == entries@[i].1@
        } by {
            assert(lo[q] == order@[q] as int);
        }
        assert forall|k: int| 0 <= k < r@.len() implies is_version(#[trigger] r@[k].1@) by {
            assert(lo[k] == order@[k] as int);
            assert(es[lo[k]].1 == entries@[lo[k]].1@);
        }
        assert forall|p: int, q: int| 0 <= p < q < r@.len() implies !entry_lt(
            (#[trigger] r@[q].0@, r@[q].1@),
            (#[trigger] r@[p].0@, r@[p].1@),
        ) by {
            assert(lo[p] == order@[p] as int && lo[q] == order@[q] as int);
            assert(es[lo[q]] == (r@[q].0@, r@[q].1@));
            assert(es[lo[p]] == (r@[p].0@, r@[p].1@));
        }
        assert forall|i: int| 0 <= i < entries@.len() && is_version(#[trigger] entries@[i].1@) implies exists|k: int|
            0 <= k < r@.len() && lo[k] == i by {
            assert(es[i].1 == entries@[i].1@);
        }
    }
    r
}

/// Package listings for `entries`, with `installed[i]` telling whether entry `i` is installed.
pub fn package_infos(entries: Vec<(String, String)>, installed: &Vec<bool>) -> (r: Vec<PackageInfo>)
    requires
        installed@.len() == entries@.len(),
    ensures
        r@.len() == entries@.len(),
        forall|i: int| #![trigger r@[i]] 0 <= i < r@.len() ==> {
            &&& r@[i].name@ == entries@[i].0@
            &&& r@[i].version@ == entries@[i].1@
            &&& r@[i].installed == installed@[i]
        },
{
    let mut r: Vec<PackageInfo> = Vec::new();
    let mut k: usize = 0;
    while k < entries.len()
        invariant
            k <= entries@.len(),
            installed@.len() == entries@.len(),
            r@.len() == k,
            forall|i: int| #![trigger r@[i]] 0 <= i < k ==> {
                &&& r@[i].name@ == entries@[i].0@
                &&& r@[i].version@ == entries@[i].1@
                &&& r@[i].installed == installed@[i]
            },
        decreases entries@.len() - k,
    {
        let ghost prev = r@;
        r.push(
            PackageInfo {
                name: copy_string(&entries[k].0),
                version: copy_string(&entries[k].1),
                installed: installed[k],
            },
        );
        assert(forall|i: int| 0 <= i < k ==> r@[i] == prev[i]);
        k = k + 1;
    }
    r
}

/// The repository of package definitions: `<root>/<name>/<version>/`.
pub struct PackageRepository {
    pub root: String,
}

impl PackageRepository {
    pub fn new(root: String) -> (r: PackageRepository)
        ensures
            r.root@ == root@,
    {
        PackageRepository { root }
    }

    /// The directory of package `name`.
    pub fn package_dir(&self, name: &str) -> (r: String)
        ensures
            r@ == join_spec(self.root@, name@),
    {
        join_path(self.root.as_str(), name)
    }

    /// The error for a package that is not in the repository.
    pub fn missing_package(&self, name: &str) -> (r: TurboError)
        ensures
            r matches TurboError::Package(m) && m@ == "Package '"@ + name@ + "' not found in repository at "@ + self.root@,
    {
        let mut m = concat3("Package '", name, "' not found in repository at ");
        m.append(self.root.as_str());
        TurboError::Package(m)
    }

    /// The error for a version that is not in the repository.
    pub fn missing_version(name: &str, version: &str) -> (r: TurboError)
        ensures
            r matches TurboError::RuntimeNotFound(l, v) && l@ == name@ && v@ == version@,
    {
        TurboError::RuntimeNotFound(String::from_str(name), String::from_str(version))
    }
}

/// The packages found at start-up, in listing order.
pub struct PackageCache {
    pub packages: Vec<PackageInfo>,
}

impl PackageCache {
    /// A cache holding `packages`.
    pub fn new(packages: Vec<PackageInfo>) -> (r: PackageCache)
        ensures
            r.packages@ == packages@,
    {
        PackageCache { packages }
    }

    /// A copy of every cached package.
    pub fn list(&self) -> (r: Vec<PackageInfo>)
        ensures
            r@.len() == self.packages@.len(),
            forall|i: int| #![trigger r@[i]] 0 <= i < r@.len() ==> {
                &&& r@[i].name@ == self.packages@[i].name@
                &&& r@[i].version@ == self.packages@[i].version@
                &&& r@[i].installed == self.packages@[i].installed
            },
    {
        let mut r: Vec<PackageInfo> = Vec::new();
        let mut k: usize = 0;
        while k < self.packages.len()
            invariant
                k <= self.packages@.len(),
                r@.len() == k,
                forall|i: int| #![trigger r@[i]] 0 <= i < k ==> {
                    &&& r@[i].name@ == self.packages@[i].name@
                    &&& r@[i].version@ == self.packages@[i].version@
                    &&& r@[i].installed == self.packages@[i].installed
                },
            decreases self.packages@.len() - k,
        {
            let p = &self.packages[k];
            let ghost prev = r@;
            r.push(
                PackageInfo {
                    name: copy_string(&p.name),
                    version: copy_string(&p.version),
                    installed: p.installed,
                },
            );
            assert(forall|i: int| 0 <= i < k ==> r@[i] == prev[i]);
            k = k + 1;
        }
        r
    }
}

/// Installs package definitions into `<runtimes>/<name>/<version>/`.
pub struct Installer {
    pub runtimes_dir: String,
}

impl Installer {
    pub fn new(runtimes_dir: String) -> (r: Installer)
        ensures
            r.runtimes_dir@ == runtimes_dir@,
    {
        Installer { runtimes_dir }
    }

    /// The directory a definition is installed into.
    pub fn install_dir(&self, def: &PackageDefinition) -> (r: String)
        ensures
            r@ == join_spec(join_spec(self.runtimes_dir@, def.yaml.name@), def.yaml.version@),
    {
        let d = join_path(self.runtimes_dir.as_str(), def.yaml.name.as_str());
        join_path(d.as_str(), def.yaml.version.as_str())
    }
}

/// Resolves, installs and lists packages.
pub struct PackageManager {
    pub installer: Installer,
    pub repository: PackageRepository,
    pub runtimes_dir: String,
}

impl PackageManager {
    /// A manager for the runtimes under `<root>/runtimes` and the
    /// definitions under `repo_path`.
    pub fn new(root: String, repo_path: String) -> (r: PackageManager)
        ensures
            r.runtimes_dir@ == join_spec(root@, "runtimes"@),
            r.installer.runtimes_dir@ == r.runtimes_dir@,
            r.repository.root@ == repo_path@,
    {
        let runtimes_dir = join_path(root.as_str(), "runtimes");
        PackageManager {
            installer: Installer::new(copy_string(&runtimes_dir)),
            repository: PackageRepository::new(repo_path),
            runtimes_dir,
        }
    }

    /// Where version `version` of package `name` is installed.
    pub fn install_path(&self, name: &str, version: &str) -> (r: String)
        ensures
            r@ == join_spec(join_spec(self.runtimes_dir@, name@), version@),
    {
        let d = join_path(self.runtimes_dir.as_str(), name);
        join_path(d.as_str(), version)
    }
}

} // verus!
