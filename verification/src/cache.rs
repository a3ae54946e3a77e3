use vstd::prelude::*;
use vstd::string::StrSliceExecFns;
use vstd::string::StringExecFns;
use crate::error::Error;
use crate::fs_model::{CacheTree, DirListing, FsView, PathStatus};
use crate::listing::{
    any_listing_bad, append_pages, has_name, listing_bad, listing_has_page, listings_have,
    listings_have_upto, sort_unique_names, sorted_unique,
};
use crate::lookup::PageLookupResult;
use crate::path::FsPath;
use crate::platform::{platform_dir, PlatformType};
use crate::text::{concat_str, ends_with_suffix, has_suffix};

verus! {

/// A natural-language tag, such as a BCP-47-like code.  Identity is its
/// textual value.
#[derive(Debug)]
pub struct Language(pub String);

/// The directory name holding pages of the language tagged `tag`.
pub open spec fn language_dir(tag: Seq<char>) -> Seq<char> {
    "pages."@ + tag
}

impl Language {
    /// The on-disk directory name holding this language's pages.
    pub fn directory_name(&self) -> (r: String)
        ensures
            r@ == language_dir(self.0@),
    {
        concat_str("pages.", self.0.as_str())
    }
}

/// The resolved configuration of one cache session: the root pages directory,
/// an optional custom pages directory, and the platform and language search
/// orders, most preferred first.
#[derive(Debug)]
pub struct CacheConfig {
    pub pages_directory: FsPath,
    pub custom_pages_directory: Option<FsPath>,
    pub platforms: Vec<PlatformType>,
    pub languages: Vec<Language>,
}

/// A handle over a `CacheConfig` whose root directory was confirmed to exist
/// when the handle was produced.
#[derive(Debug)]
pub struct Cache {
    config: CacheConfig,
}

/// The file name of an official page for `command`.
pub open spec fn page_file_name(command: Seq<char>) -> Seq<char> {
    command + ".md"@
}

/// The file name of a full custom override for `command`.
pub open spec fn custom_page_file_name(command: Seq<char>) -> Seq<char> {
    command + ".page.md"@
}

/// The file name of a custom patch fragment for `command`.
pub open spec fn patch_file_name(command: Seq<char>) -> Seq<char> {
    command + ".patch.md"@
}

/// The components of the custom pages directory, or the empty path when none
/// is configured.
pub open spec fn custom_dir_view(cfg: CacheConfig) -> Seq<Seq<char>> {
    match cfg.custom_pages_directory {
        Option::Some(d) => d@,
        Option::None => Seq::empty(),
    }
}

/// The path of the full custom override for `command`.
pub open spec fn custom_page_path(cfg: CacheConfig, command: Seq<char>) -> Seq<Seq<char>> {
    custom_dir_view(cfg).push(custom_page_file_name(command))
}

/// The path of the custom patch fragment for `command`.
pub open spec fn custom_patch_path(cfg: CacheConfig, command: Seq<char>) -> Seq<Seq<char>> {
    custom_dir_view(cfg).push(patch_file_name(command))
}

/// A full custom override for `command` is configured and exists.
pub open spec fn custom_hit(cfg: CacheConfig, command: Seq<char>, fs: FsView) -> bool {
    cfg.custom_pages_directory is Some && fs.spec_contains(custom_page_path(cfg, command))
}

/// A custom patch fragment for `command` is configured and exists.
pub open spec fn patch_hit(cfg: CacheConfig, command: Seq<char>, fs: FsView) -> bool {
    cfg.custom_pages_directory is Some && fs.spec_contains(custom_patch_path(cfg, command))
}

/// The page path probed for `command` under platform `pi` and language `li`
/// of the configured search orders.
pub open spec fn tree_page_path(cfg: CacheConfig, command: Seq<char>, pi: int, li: int) -> Seq<
    Seq<char>,
> {
    cfg.pages_directory@.push(language_dir(cfg.languages@[li].0@)).push(
        platform_dir(cfg.platforms@[pi]),
    ).push(page_file_name(command))
}

/// The official page directory for language `li` and platform `pi` of the
/// configured orders.
pub open spec fn page_dir_path(cfg: CacheConfig, li: int, pi: int) -> Seq<Seq<char>> {
    cfg.pages_directory@.push(language_dir(cfg.languages@[li].0@)).push(
        platform_dir(cfg.platforms@[pi]),
    )
}

/// The page directories from language `li` and platform `pi` onwards, in
/// enumeration order: languages outermost, platforms within a language.
pub open spec fn page_dirs_from(cfg: CacheConfig, li: int, pi: int) -> Seq<Seq<Seq<char>>>
    decreases cfg.languages@.len() - li, cfg.platforms@.len() - pi,
        when 0 <= li && 0 <= pi
{
    if li >= cfg.languages@.len() {
        Seq::empty()
    } else if pi >= cfg.platforms@.len() {
        page_dirs_from(cfg, li + 1, 0)
    } else {
        seq![page_dir_path(cfg, li, pi)] + page_dirs_from(cfg, li, pi + 1)
    }
}

/// `name` uses the deprecated custom-page naming scheme: its extension — the
/// part after the final dot, for a name that does not consist of a single
/// leading dot and no other — is exactly `page` or `patch`, without the
/// `.md` ending required today.
pub open spec fn old_custom_name(name: Seq<char>) -> bool {
    ||| (has_suffix(name, ".page"@) && name.len() > ".page"@.len())
    ||| (has_suffix(name, ".patch"@) && name.len() > ".patch"@.len())
}

/// Some entry name of `entries` uses the deprecated custom-page naming.
pub open spec fn some_old_custom_name(entries: Seq<String>) -> bool {
    exists|i: int| 0 <= i < entries.len() && old_custom_name(#[trigger] entries[i]@)
}

/// The probe for `(platform pi, language li)` finds a file.
pub open spec fn tree_hit(cfg: CacheConfig, command: Seq<char>, fs: FsView, pi: int, li: int) -> bool {
    fs.spec_contains(tree_page_path(cfg, command, pi, li))
}

/// The first `(platform, language)` index pair at or after `(pi, li)` whose
/// probe finds a file, walking languages within a platform before moving to
/// the next platform.
pub open spec fn first_tree_hit_from(
    cfg: CacheConfig,
    command: Seq<char>,
    fs: FsView,
    pi: int,
    li: int,
) -> Option<(int, int)>
    decreases cfg.platforms@.len() - pi, cfg.languages@.len() - li,
        when 0 <= pi && 0 <= li
{
    if pi >= cfg.platforms@.len() {
        Option::None
    } else if li >= cfg.languages@.len() {
        first_tree_hit_from(cfg, command, fs, pi + 1, 0)
    } else if tree_hit(cfg, command, fs, pi, li) {
        Option::Some((pi, li))
    } else {
        first_tree_hit_from(cfg, command, fs, pi, li + 1)
    }
}

/// The tree probe paths from `(pi, li)` onwards, in search order: platforms
/// outermost, languages within a platform.
pub open spec fn tree_probe_seq(cfg: CacheConfig, command: Seq<char>, pi: int, li: int) -> Seq<
    Seq<Seq<char>>,
>
    decreases cfg.platforms@.len() - pi, cfg.languages@.len() - li,
        when 0 <= pi && 0 <= li
{
    if pi >= cfg.platforms@.len() {
        Seq::empty()
    } else if li >= cfg.languages@.len() {
        tree_probe_seq(cfg, command, pi + 1, 0)
    } else {
        seq![tree_page_path(cfg, command, pi, li)] + tree_probe_seq(cfg, command, pi, li + 1)
    }
}

/// Every path that resolving `command` may probe, in order: the custom
/// override and patch paths when a custom directory is configured, then the
/// whole tree search order.
pub open spec fn probe_seq(cfg: CacheConfig, command: Seq<char>) -> Seq<Seq<Seq<char>>> {
    if cfg.custom_pages_directory is Some {
        seq![custom_page_path(cfg, command), custom_patch_path(cfg, command)] + tree_probe_seq(
            cfg,
            command,
            0,
            0,
        )
    } else {
        tree_probe_seq(cfg, command, 0, 0)
    }
}

/// The first hit of the whole search order.
pub open spec fn first_tree_hit(cfg: CacheConfig, command: Seq<char>, fs: FsView) -> Option<
    (int, int),
> {
    first_tree_hit_from(cfg, command, fs, 0, 0)
}

/// `(a, b)` comes strictly before `(pi, li)` in the search order.
pub open spec fn search_order_before(a: int, b: int, pi: int, li: int) -> bool {
    a < pi || (a == pi && b < li)
}

/// If no probe before `(pi, li)` hits and the probe at `(pi, li)` hits, then
/// the search starting anywhere at or before `(pi, li)` ends exactly there.
pub proof fn lemma_first_hit_found(
    cfg: CacheConfig,
    command: Seq<char>,
    fs: FsView,
    pj: int,
    lj: int,
    pi: int,
    li: int,
)
    requires
        0 <= pj,
        0 <= lj <= cfg.languages@.len(),
        0 <= pi < cfg.platforms@.len(),
        0 <= li < cfg.languages@.len(),
        pj < pi || (pj == pi && lj <= li),
        tree_hit(cfg, command, fs, pi, li),
        forall|a: int, b: int|
            0 <= a && 0 <= b < cfg.languages@.len() && search_order_before(a, b, pi, li)
                ==> !tree_hit(cfg, command, fs, a, b),
    ensures
        first_tree_hit_from(cfg, command, fs, pj, lj) == Option::Some((pi, li)),
    decreases cfg.platforms@.len() - pj, cfg.languages@.len() - lj,
{
    if lj >= cfg.languages@.len() {
        lemma_first_hit_found(cfg, command, fs, pj + 1, 0, pi, li);
    } else if pj == pi && lj == li {
    } else {
        assert(search_order_before(pj, lj, pi, li));
        assert(!tree_hit(cfg, command, fs, pj, lj));
        lemma_first_hit_found(cfg, command, fs, pj, lj + 1, pi, li);
    }
}

/// If no probe at all hits, the search from any starting point finds nothing.
pub proof fn lemma_first_hit_exhausted(
    cfg: CacheConfig,
    command: Seq<char>,
    fs: FsView,
    pj: int,
    lj: int,
)
    requires
        0 <= pj,
        0 <= lj,
        forall|a: int, b: int|
            0 <= a < cfg.platforms@.len() && 0 <= b < cfg.languages@.len()
                ==> !tree_hit(cfg, command, fs, a, b),
    ensures
        first_tree_hit_from(cfg, command, fs, pj, lj) is None,
    decreases cfg.platforms@.len() - pj, cfg.languages@.len() - lj,
{
    if pj >= cfg.platforms@.len() {
    } else if lj >= cfg.languages@.len() {
        lemma_first_hit_exhausted(cfg, command, fs, pj + 1, 0);
    } else {
        assert(!tree_hit(cfg, command, fs, pj, lj));
        lemma_first_hit_exhausted(cfg, command, fs, pj, lj + 1);
    }
}

impl Cache {
    /// The configuration of this handle, as seen by specifications.
    pub closed spec fn spec_config(&self) -> CacheConfig {
        self.config
    }

    /// Open a cache over `config`, given what a metadata probe of the root
    /// reported.  An absent root is "no cache", a success value; a root that
    /// exists but is no directory is an error.  Nothing is ever created.
    pub fn open(config: CacheConfig, root_status: PathStatus) -> (r: Result<Option<Cache>, Error>)
        ensures
            root_status is Directory ==> {
                &&& r matches Ok(c)
                &&& c matches Some(cache)
                &&& cache.spec_config() == config
            },
            root_status is Missing ==> {
                &&& r matches Ok(c)
                &&& c is None
            },
            root_status is Other ==> {
                &&& r matches Err(e)
                &&& e matches Error::NotADirectory { path }
                &&& path@ == config.pages_directory@
            },
    {
        match root_status {
            PathStatus::Other => Err(Error::NotADirectory { path: config.pages_directory }),
            PathStatus::Missing => Ok(None),
            PathStatus::Directory => Ok(Some(Cache { config })),
        }
    }

    /// The duration, in nanoseconds, between the root directory's
    /// last-modified time and "now".  A modification time in the future
    /// cannot be represented as a non-negative duration and is an error.
    pub fn age(&self, modified_ns: u128, now_ns: u128) -> (r: Result<u128, Error>)
        ensures
            modified_ns <= now_ns ==> {
                &&& r matches Ok(d)
                &&& d == now_ns - modified_ns
            },
            modified_ns > now_ns ==> {
                &&& r matches Err(e)
                &&& e is ClockSkew
            },
    {
        if modified_ns <= now_ns {
            Ok(now_ns - modified_ns)
        } else {
            Err(Error::ClockSkew)
        }
    }

    /// The configuration this cache was opened over.
    pub fn config(&self) -> (r: &CacheConfig)
        ensures
            *r == self.spec_config(),
    {
        &self.config
    }

    /// Resolve `command` to the single best page, given which of the probed
    /// paths exist as regular files.
    ///
    /// A configured custom override wins outright and carries no patch.
    /// Otherwise the configured platforms are walked in order and, within
    /// each platform, the configured languages in order; the first existing
    /// page wins, and an existing custom patch is attached to it.  When
    /// nothing matches the result is `None`: an absent page is a normal
    /// outcome, not an error.
    pub fn find_page(&self, command: &str, fs: &FsView) -> (r: Option<PageLookupResult>)
        ensures
            custom_hit(self.spec_config(), command@, *fs) ==> {
                &&& r matches Some(res)
                &&& res.page_path@ == custom_page_path(self.spec_config(), command@)
                &&& res.patch_path is None
            },
            !custom_hit(self.spec_config(), command@, *fs) ==> match first_tree_hit(
                self.spec_config(),
                command@,
                *fs,
            ) {
                Option::Some(idx) => {
                    &&& r matches Some(res)
                    &&& res.page_path@ == tree_page_path(self.spec_config(), command@, idx.0, idx.1)
                    &&& (patch_hit(self.spec_config(), command@, *fs) ==> {
                        &&& res.patch_path matches Some(pp)
                        &&& pp@ == custom_patch_path(self.spec_config(), command@)
                    })
                    &&& (!patch_hit(self.spec_config(), command@, *fs) ==> res.patch_path is None)
                },
                Option::None => r is None,
            },
    {
        let page_filename = concat_str(command, ".md");
        let patch_filename = concat_str(command, ".patch.md");
        let custom_filename = concat_str(command, ".page.md");

        if let Some(custom_dir) = &self.config.custom_pages_directory {
            let custom_page = custom_dir.join(custom_filename.as_str());
            if fs.contains_file(&custom_page) {
                return Some(PageLookupResult::with_page(custom_page));
            }
        }

        let patch_path: Option<FsPath> = match &self.config.custom_pages_directory {
            Some(custom_dir) => {
                let p = custom_dir.join(patch_filename.as_str());
                if fs.contains_file(&p) {
                    Some(p)
                } else {
                    None
                }
            },
            None => None,
        };

        let num_platforms = self.config.platforms.len();
        let num_languages = self.config.languages.len();
        let mut pi: usize = 0;
        while pi < num_platforms
            invariant
                pi <= num_platforms,
                num_platforms == self.config.platforms@.len(),
                num_languages == self.config.languages@.len(),
                page_filename@ == page_file_name(command@),
                !custom_hit(self.config, command@, *fs),
                patch_hit(self.config, command@, *fs) ==> {
                    &&& patch_path matches Some(pp)
                    &&& pp@ == custom_patch_path(self.config, command@)
                },
                !patch_hit(self.config, command@, *fs) ==> patch_path is None,
                forall|a: int, b: int|
                    0 <= a < pi && 0 <= b < num_languages
                        ==> !tree_hit(self.config, command@, *fs, a, b),
            decreases num_platforms - pi,
        {
            let mut li: usize = 0;
            while li < num_languages
                invariant
                    pi < num_platforms,
                    li <= num_languages,
                    num_platforms == self.config.platforms@.len(),
                    num_languages == self.config.languages@.len(),
                    page_filename@ == page_file_name(command@),
                    !custom_hit(self.config, command@, *fs),
                    patch_hit(self.config, command@, *fs) ==> {
                        &&& patch_path matches Some(pp)
                        &&& pp@ == custom_patch_path(self.config, command@)
                    },
                    !patch_hit(self.config, command@, *fs) ==> patch_path is None,
                    forall|a: int, b: int|
                        0 <= a < pi && 0 <= b < num_languages
                            ==> !tree_hit(self.config, command@, *fs, a, b),
                    forall|b: int|
                        0 <= b < li ==> !tree_hit(self.config, command@, *fs, pi as int, b),
                decreases num_languages - li,
            {
                let language_dir_name = self.config.languages[li].directory_name();
                let platform_dir_name = self.config.platforms[pi].directory_name();
                let mut search_path = self.config.pages_directory.clone_path();
                search_path.push_part(language_dir_name);
                search_path.push_part(String::from_str(platform_dir_name));
                search_path.push_part(page_filename.clone());
                assert(search_path@ == tree_page_path(self.config, command@, pi as int, li as int));
                if fs.contains_file(&search_path) {
                    proof {
                        lemma_first_hit_found(
                            self.config,
                            command@,
                            *fs,
                            0,
                            0,
                            pi as int,
                            li as int,
                        );
                    }
                    return Some(PageLookupResult::with_page(search_path).with_optional_patch(patch_path));
                }
                li = li + 1;
            }
            pi = pi + 1;
        }

        proof {
            lemma_first_hit_exhausted(self.config, command@, *fs, 0, 0);
        }
        None
    }

    /// Every path that resolving `command` would examine, in probe order.
    ///
    /// The application checks exactly these paths on disk and hands the ones
    /// that are regular files to `find_page` as its filesystem observation.
    pub fn probe_paths(&self, command: &str) -> (r: Vec<FsPath>)
        ensures
            r.deep_view() == probe_seq(self.spec_config(), command@),
    {
        let page_filename = concat_str(command, ".md");
        let mut r: Vec<FsPath> = Vec::new();
        if let Some(custom_dir) = &self.config.custom_pages_directory {
            let custom_filename = concat_str(command, ".page.md");
            let patch_filename = concat_str(command, ".patch.md");
            r.push(custom_dir.join(custom_filename.as_str()));
            r.push(custom_dir.join(patch_filename.as_str()));
        }
        proof {
            assert(r.deep_view() + tree_probe_seq(self.config, command@, 0, 0) =~= probe_seq(
                self.config,
                command@,
            ));
        }
        let num_platforms = self.config.platforms.len();
        let num_languages = self.config.languages.len();
        let mut pi: usize = 0;
        while pi < num_platforms
            invariant
                pi <= num_platforms,
                num_platforms == self.config.platforms@.len(),
                num_languages == self.config.languages@.len(),
                page_filename@ == page_file_name(command@),
                r.deep_view() + tree_probe_seq(self.config, command@, pi as int, 0) == probe_seq(
                    self.config,
                    command@,
                ),
            decreases num_platforms - pi,
        {
            let platform_dir_name = self.config.platforms[pi].directory_name();
            let mut li: usize = 0;
            while li < num_languages
                invariant
                    pi < num_platforms,
                    li <= num_languages,
                    num_platforms == self.config.platforms@.len(),
                    num_languages == self.config.languages@.len(),
                    page_filename@ == page_file_name(command@),
                    platform_dir_name@ == platform_dir(self.config.platforms@[pi as int]),
                    r.deep_view() + tree_probe_seq(self.config, command@, pi as int, li as int)
                        == probe_seq(self.config, command@),
                decreases num_languages - li,
            {
                let mut path = self.config.pages_directory.clone_path();
                path.push_part(self.config.languages[li].directory_name());
                path.push_part(String::from_str(platform_dir_name));
                path.push_part(page_filename.clone());
                assert(path@ == tree_page_path(self.config, command@, pi as int, li as int));
                let ghost before_deep = r.deep_view();
                let ghost pv = path@;
                r.push(path);
                proof {
                    assert(r.deep_view() =~= before_deep.push(pv));
                    assert(tree_probe_seq(self.config, command@, pi as int, li as int) == seq![pv]
                        + tree_probe_seq(self.config, command@, pi as int, li + 1));
                    assert(r.deep_view() + tree_probe_seq(self.config, command@, pi as int, li + 1)
                        =~= before_deep + tree_probe_seq(
                        self.config,
                        command@,
                        pi as int,
                        li as int,
                    ));
                }
                li = li + 1;
            }
            proof {
                assert(tree_probe_seq(self.config, command@, pi as int, num_languages as int)
                    == tree_probe_seq(self.config, command@, pi + 1, 0));
            }
            pi = pi + 1;
        }
        proof {
            assert(tree_probe_seq(self.config, command@, num_platforms as int, 0)
                =~= Seq::<Seq<Seq<char>>>::empty());
            assert(r.deep_view() =~= r.deep_view() + tree_probe_seq(
                self.config,
                command@,
                num_platforms as int,
                0,
            ));
        }
        r
    }

    /// The official page directories in enumeration order: for every
    /// configured language, in order, the subdirectory of every configured
    /// platform, in order.
    pub fn page_directories(&self) -> (r: Vec<FsPath>)
        ensures
            r.deep_view() == page_dirs_from(self.spec_config(), 0, 0),
    {
        let mut r: Vec<FsPath> = Vec::new();
        let num_languages = self.config.languages.len();
        let num_platforms = self.config.platforms.len();
        proof {
            assert(r.deep_view() =~= Seq::<Seq<Seq<char>>>::empty());
            assert(r.deep_view() + page_dirs_from(self.config, 0, 0) =~= page_dirs_from(
                self.config,
                0,
                0,
            ));
        }
        let mut li: usize = 0;
        while li < num_languages
            invariant
                li <= num_languages,
                num_languages == self.config.languages@.len(),
                num_platforms == self.config.platforms@.len(),
                r.deep_view() + page_dirs_from(self.config, li as int, 0) == page_dirs_from(
                    self.config,
                    0,
                    0,
                ),
            decreases num_languages - li,
        {
            let language_dir_name = self.config.languages[li].directory_name();
            let mut pi: usize = 0;
            while pi < num_platforms
                invariant
                    li < num_languages,
                    pi <= num_platforms,
                    num_languages == self.config.languages@.len(),
                    num_platforms == self.config.platforms@.len(),
                    language_dir_name@ == language_dir(self.config.languages@[li as int].0@),
                    r.deep_view() + page_dirs_from(self.config, li as int, pi as int)
                        == page_dirs_from(self.config, 0, 0),
                decreases num_platforms - pi,
            {
                let mut dir = self.config.pages_directory.clone_path();
                dir.push_part(language_dir_name.clone());
                dir.push_part(String::from_str(self.config.platforms[pi].directory_name()));
                assert(dir@ == page_dir_path(self.config, li as int, pi as int));
                let ghost before_deep = r.deep_view();
                let ghost dv = dir@;
                r.push(dir);
                proof {
                    assert(r.deep_view() =~= before_deep.push(dv));
                    assert(page_dirs_from(self.config, li as int, pi as int) == seq![dv]
                        + page_dirs_from(self.config, li as int, pi + 1));
                    assert(r.deep_view() + page_dirs_from(self.config, li as int, pi + 1)
                        =~= before_deep + page_dirs_from(self.config, li as int, pi as int));
                }
                pi = pi + 1;
            }
            proof {
                assert(page_dirs_from(self.config, li as int, num_platforms as int)
                    == page_dirs_from(self.config, li + 1, 0));
            }
            li = li + 1;
        }
        proof {
            assert(page_dirs_from(self.config, num_languages as int, 0)
                =~= Seq::<Seq<Seq<char>>>::empty());
            assert(r.deep_view() =~= r.deep_view() + page_dirs_from(
                self.config,
                num_languages as int,
                0,
            ));
        }
        r
    }

    /// Enumerate every available page name, given the entries of each
    /// official page directory (in the order of `page_directories`, an empty
    /// listing standing for a missing or unreadable directory) and, when a
    /// custom directory is configured, its entries.
    ///
    /// Official pages are files ending in `.md`; custom pages are files
    /// ending in `.page.md`.  The result is sorted and duplicate-free.  A
    /// file whose name is not representable as text fails the enumeration,
    /// identifying the directory it was found in.
    pub fn list_pages(&self, tree_listings: &Vec<DirListing>, custom_listing: &Option<DirListing>) -> (r:
        Result<Vec<String>, Error>)
        requires
            custom_listing.is_some() <==> self.spec_config().custom_pages_directory.is_some(),
        ensures
            match r {
                Ok(pages) => {
                    &&& !any_listing_bad(tree_listings@)
                    &&& (custom_listing matches Some(cl) ==> !listing_bad(*cl))
                    &&& sorted_unique(pages@)
                    &&& forall|x: Seq<char>|
                        has_name(pages@, x) <==> (listings_have(tree_listings@, ".md"@, x) || (
                        custom_listing matches Some(cl)
                            && listing_has_page(*cl, ".page.md"@, x)))
                },
                Err(e) => {
                    &&& any_listing_bad(tree_listings@) || (custom_listing matches Some(cl)
                        && listing_bad(*cl))
                    &&& e matches Error::InvalidFilename { directory }
                    &&& ((exists|j: int|
                        {
                            &&& 0 <= j < tree_listings@.len()
                            &&& #[trigger] listing_bad(tree_listings@[j])
                            &&& forall|j2: int| 0 <= j2 < j ==> !listing_bad(tree_listings@[j2])
                            &&& directory@ == tree_listings@[j].directory@
                        }) || {
                        &&& custom_listing matches Some(cl)
                        &&& listing_bad(*cl)
                        &&& !any_listing_bad(tree_listings@)
                        &&& directory@ == cl.directory@
                    })
                },
            },
    {
        let mut pages: Vec<String> = Vec::new();
        let mut j: usize = 0;
        while j < tree_listings.len()
            invariant
                j <= tree_listings@.len(),
                forall|j2: int| 0 <= j2 < j ==> !listing_bad(tree_listings@[j2]),
                forall|x: Seq<char>|
                    has_name(pages@, x) <==> listings_have_upto(
                        tree_listings@,
                        j as int,
                        ".md"@,
                        x,
                    ),
            decreases tree_listings@.len() - j,
        {
            let ghost pages_before = pages@;
            match append_pages(&mut pages, &tree_listings[j], ".md") {
                Err(e) => {
                    return Err(e);
                },
                Ok(_) => {},
            }
            proof {
                assert forall|x: Seq<char>|
                    has_name(pages@, x) <==> listings_have_upto(
                        tree_listings@,
                        j + 1 as int,
                        ".md"@,
                        x,
                    ) by {
                    if has_name(pages@, x) {
                        if !has_name(pages_before, x) {
                            assert(listing_has_page(tree_listings@[j as int], ".md"@, x));
                        }
                    }
                    if listings_have_upto(tree_listings@, j + 1 as int, ".md"@, x) {
                        let j2 = choose|j2: int|
                            0 <= j2 < j + 1 && listing_has_page(tree_listings@[j2], ".md"@, x);
                        if j2 < j {
                            assert(listings_have_upto(tree_listings@, j as int, ".md"@, x));
                        }
                    }
                }
            }
            j = j + 1;
        }
        if let Some(cl) = custom_listing {
            match append_pages(&mut pages, cl, ".page.md") {
                Err(e) => {
                    return Err(e);
                },
                Ok(_) => {},
            }
        }
        Ok(sort_unique_names(pages))
    }

    /// Whether the custom pages directory holds at least one entry named in
    /// the deprecated scheme: an extension of exactly `page` or `patch`,
    /// without the `.md` ending required today.
    ///
    /// `custom_entries` holds the entry names of the custom directory, or
    /// `None` when no custom directory is configured or it cannot be read —
    /// both of which mean "no such entries", not an error.
    pub fn old_custom_pages_exist(&self, custom_entries: &Option<Vec<String>>) -> (r: bool)
        requires
            custom_entries.is_some() ==> self.spec_config().custom_pages_directory.is_some(),
        ensures
            r == (custom_entries.is_some() && some_old_custom_name(custom_entries->0@)),
    {
        match custom_entries {
            None => false,
            Some(es) => {
                let mut i: usize = 0;
                while i < es.len()
                    invariant
                        custom_entries.is_some(),
                        es@ == custom_entries->0@,
                        i <= es@.len(),
                        forall|j: int| 0 <= j < i ==> !old_custom_name(#[trigger] es@[j]@),
                    decreases es@.len() - i,
                {
                    let name = es[i].as_str();
                    let n = name.unicode_len();
                    proof {
                        reveal_strlit(".page");
                        reveal_strlit(".patch");
                    }
                    if ends_with_suffix(name, ".page") && n > 5 {
                        proof {
                            assert(old_custom_name(es@[i as int]@));
                            assert(some_old_custom_name(es@));
                        }
                        return true;
                    }
                    if ends_with_suffix(name, ".patch") && n > 6 {
                        proof {
                            assert(old_custom_name(es@[i as int]@));
                            assert(some_old_custom_name(es@));
                        }
                        return true;
                    }
                    i = i + 1;
                }
                false
            },
        }
    }

    /// Decide the effect of a cache refresh, given the outcome of fetching
    /// and extracting the remote archive into a staged tree.
    ///
    /// A successful transfer replaces the tree with the staged one; any
    /// failure reports a transfer error and returns the current tree exactly
    /// as it was handed in — a failed refresh never touches the cache.
    pub fn update(&self, current: CacheTree, outcome: Result<CacheTree, String>) -> (r: (
        Result<(), Error>,
        CacheTree,
    ))
        ensures
            outcome matches Ok(staged) ==> r.0 is Ok && r.1 == staged,
            outcome matches Err(msg) ==> {
                &&& r.0 matches Err(e)
                &&& e matches Error::TransferFailure { message }
                &&& message@ == msg@
                &&& r.1 == current
            },
    {
        match outcome {
            Ok(staged) => (Ok(()), staged),
            Err(msg) => (Err(Error::TransferFailure { message: msg }), current),
        }
    }
}

} // verus!
