//! Where downloaded LSP servers live, where they are fetched from, and how
//! their executables are found once unpacked.
//!
//! Paths are held as text and joined as `Path::join` joins them on Unix-like
//! systems, with `/` between components.

use vstd::prelude::*;
use crate::text::{
    concat, contains, contains_seq, ends_with, has_prefix, has_prefix_ignore_ascii_case, has_suffix,
    starts_with, starts_with_ignore_ascii_case, str_eq, views, chars_of,
};

verus! {

/// The kind of archive a server is shipped in.
#[derive(Clone, Copy, PartialEq, Eq, Structural)]
pub enum ArchiveType {
    TarGz,
    Zip,
}

/// How to download one LSP server.
pub struct LspDownloadConfig {
    /// Primary download URL
    pub primary_url: String,
    /// Domestic mirror URL (e.g., for China)
    pub mirror_url: Option<String>,
    /// Archive type
    pub archive_type: ArchiveType,
    /// Expected executable path within extracted archive
    pub executable_path: Vec<String>,
    /// Size hint for progress (optional)
    pub size_hint: Option<u64>,
}

/// `path` joined onto `base`: an absolute `path` replaces `base`; otherwise a
/// `/` goes between them unless `base` is empty or already ends with one.
pub open spec fn spec_path_join(base: Seq<char>, path: Seq<char>) -> Seq<char> {
    if path.len() > 0 && path[0] == '/' {
        path
    } else if base.len() == 0 || base.last() == '/' {
        base + path
    } else {
        base + "/"@ + path
    }
}

/// The components joined onto `base`, left to right.
pub open spec fn spec_path_join_all(base: Seq<char>, parts: Seq<Seq<char>>) -> Seq<char>
    decreases parts.len(),
{
    if parts.len() == 0 {
        base
    } else {
        spec_path_join(spec_path_join_all(base, parts.drop_last()), parts.last())
    }
}

/// Join `path` onto `base`.
pub fn path_join(base: &str, path: &str) -> (r: String)
    ensures
        r@ == spec_path_join(base@, path@),
{
    proof {
        reveal_strlit("/");
        if path@.len() > 0 {
            assert(has_prefix(path@, "/"@) <==> path@[0] == '/') by {
                if path@[0] == '/' {
                    assert(path@.take(1) =~= "/"@);
                }
                if has_prefix(path@, "/"@) {
                    assert(path@.take(1)[0] == path@[0]);
                }
            }
        }
        if base@.len() > 0 {
            assert(has_suffix(base@, "/"@) <==> base@.last() == '/') by {
                if base@.last() == '/' {
                    assert(base@.skip(base@.len() - 1) =~= "/"@);
                }
                if has_suffix(base@, "/"@) {
                    assert(base@.skip(base@.len() - 1)[0] == base@.last());
                }
            }
        }
    }
    if !path.is_empty() && starts_with(path, "/") {
        return String::from_str(path);
    }
    if base.is_empty() || ends_with(base, "/") {
        concat(base, path)
    } else {
        let a = concat(base, "/");
        concat(a.as_str(), path)
    }
}

/// The download directory of the servers under the user's cache directory.
pub open spec fn spec_cache_dir(cache_base: Seq<char>) -> Seq<char> {
    spec_path_join(spec_path_join(cache_base, "lsp-index"@), "servers"@)
}

/// Downloads LSP servers into a cache directory, from their primary URLs or
/// from mirrors.
pub struct LspDownloader {
    cache_dir: String,
    use_mirror: bool,
}

impl LspDownloader {
    /// The cache directory.
    pub closed spec fn spec_cache_dir(&self) -> Seq<char> {
        self.cache_dir@
    }

    /// Whether mirrors are used.
    pub closed spec fn spec_use_mirror(&self) -> bool {
        self.use_mirror
    }

    /// A downloader that keeps servers in `lsp-index/servers` under the
    /// user's cache directory (`None` when there is none, an error).
    pub fn new(cache_base: Option<String>, use_mirror: bool) -> (r: Result<Self, String>)
        ensures
            match cache_base {
                Some(b) => r matches Ok(d) && d.spec_cache_dir() == spec_cache_dir(b@) && d.spec_use_mirror() == use_mirror,
                None => r matches Err(e) && e@ == "Cannot find cache directory"@,
            },
    {
        match cache_base {
            Some(b) => {
                let a = path_join(b.as_str(), "lsp-index");
                let cache_dir = path_join(a.as_str(), "servers");
                Ok(LspDownloader { cache_dir, use_mirror })
            },
            None => Err(String::from_str("Cannot find cache directory")),
        }
    }

    /// Get cache directory
    pub fn cache_dir(&self) -> (r: &str)
        ensures
            r@ == self.spec_cache_dir(),
    {
        self.cache_dir.as_str()
    }

    /// The directory a server called `name` is installed in.
    pub fn install_dir(&self, name: &str) -> (r: String)
        ensures
            r@ == spec_path_join(self.spec_cache_dir(), name@),
    {
        path_join(self.cache_dir.as_str(), name)
    }

    /// The URL to download from: the mirror when mirrors are used and the
    /// server has one, else the primary URL.
    pub fn download_url(&self, config: &LspDownloadConfig) -> (r: String)
        ensures
            r@ == (if self.spec_use_mirror() && config.mirror_url is Some {
                config.mirror_url->0@
            } else {
                config.primary_url@
            }),
    {
        if self.use_mirror {
            match &config.mirror_url {
                Some(m) => m.clone(),
                None => config.primary_url.clone(),
            }
        } else {
            config.primary_url.clone()
        }
    }

    /// Where to look for the executable of a server installed in `install_dir`.
    pub fn find_executable(&self, install_dir: &str, config: &LspDownloadConfig) -> (r: ExecutableLookup)
        ensures
            is_executable_lookup(install_dir@, views(config.executable_path@), r),
    {
        let parts = &config.executable_path;
        if parts.len() == 0 {
            return ExecutableLookup::NotConfigured;
        }
        if parts.len() == 1 && str_eq(parts[0].as_str(), "plugins") {
            assert(views(parts@) =~= seq!["plugins"@]);
            return ExecutableLookup::JdtLauncher(path_join(install_dir, "plugins"));
        }
        proof {
            if views(parts@) == seq!["plugins"@] {
                assert(views(parts@)[0] == parts@[0]@);
            }
        }
        ExecutableLookup::Path(path_join_all(install_dir, parts))
    }
}

/// Where the executable of an installed server is looked for.
pub enum ExecutableLookup {
    /// The configuration names no executable.
    NotConfigured,
    /// The executable is the JDT LS launcher jar in this plugins directory.
    JdtLauncher(String),
    /// The executable is this path, if it exists.
    Path(String),
}

/// `r` is where to look for an executable given by `parts` under
/// `install_dir`: nowhere without parts, the JDT launcher in `plugins` for
/// the single part `plugins`, else the parts joined onto the directory.
pub open spec fn is_executable_lookup(install_dir: Seq<char>, parts: Seq<Seq<char>>, r: ExecutableLookup) -> bool {
    if parts.len() == 0 {
        r is NotConfigured
    } else if parts == seq!["plugins"@] {
        r matches ExecutableLookup::JdtLauncher(p) && p@ == spec_path_join(install_dir, "plugins"@)
    } else {
        r matches ExecutableLookup::Path(p) && p@ == spec_path_join_all(install_dir, parts)
    }
}

/// The parts joined onto `base`, left to right.
pub fn path_join_all(base: &str, parts: &Vec<String>) -> (r: String)
    ensures
        r@ == spec_path_join_all(base@, views(parts@)),
{
    let mut acc = String::from_str(base);
    let mut i: usize = 0;
    while i < parts.len()
        invariant
            i <= parts@.len(),
            acc@ == spec_path_join_all(base@, views(parts@).take(i as int)),
        decreases parts@.len() - i,
    {
        assert(views(parts@).take(i + 1).drop_last() =~= views(parts@).take(i as int));
        acc = path_join(acc.as_str(), parts[i].as_str());
        i += 1;
    }
    assert(views(parts@).take(parts@.len() as int) =~= views(parts@));
    acc
}

/// The file name of the JDT LS launcher jar.
pub open spec fn is_launcher_name(name: Seq<char>) -> bool {
    has_prefix(name, "org.eclipse.equinox.launcher"@) && has_suffix(name, ".jar"@)
}

/// What a scan of a plugins listing finds: the first launcher jar, unless an
/// entry that could not be read comes first.
pub open spec fn launcher_in(entries: Seq<Option<String>>) -> Option<int>
    decreases entries.len(),
{
    if entries.len() == 0 {
        None
    } else {
        match entries[0] {
            None => None,
            Some(n) => if is_launcher_name(n@) {
                Some(0)
            } else {
                match launcher_in(entries.drop_first()) {
                    Some(k) => Some(k + 1),
                    None => None,
                }
            },
        }
    }
}

/// Find the JDT launcher jar in a plugins directory, given its listing in the
/// order read (`None` when the directory is missing or cannot be read; an
/// entry is `None` when it cannot be read, which ends the search).
pub fn find_jdt_launcher(plugins_dir: &str, listing: &Option<Vec<Option<String>>>) -> (r: Option<String>)
    ensures
        match listing {
            None => r is None,
            Some(entries) => launcher_found(plugins_dir@, entries@, r),
        },
{
    match listing {
        Some(entries) => scan_for_launcher(plugins_dir, entries),
        None => None,
    }
}

/// `r` is the launcher found in a listing of `plugins_dir`.
pub open spec fn launcher_found(plugins_dir: Seq<char>, entries: Seq<Option<String>>, r: Option<String>) -> bool {
    match launcher_in(entries) {
        Some(k) => 0 <= k < entries.len() && (r matches Some(p) && (entries[k] matches Some(n)
            && p@ == spec_path_join(plugins_dir, n@))),
        None => r is None,
    }
}

/// Scan a listing for the launcher jar.
fn scan_for_launcher(plugins_dir: &str, entries: &Vec<Option<String>>) -> (r: Option<String>)
    ensures
        launcher_found(plugins_dir@, entries@, r),
{
    proof {
        reveal_strlit("org.eclipse.equinox.launcher");
        reveal_strlit(".jar");
    }
    let mut i: usize = 0;
    assert(entries@.skip(0) =~= entries@);
    while i < entries.len()
        invariant
            i <= entries@.len(),
            launcher_in(entries@) == (match launcher_in(entries@.skip(i as int)) {
                Some(k) => Some(k + i),
                None => None::<int>,
            }),
            forall|j: int| 0 <= j < i ==> ((#[trigger] entries@[j]) matches Some(n) && !is_launcher_name(n@)),
        decreases entries@.len() - i,
    {
        let ghost rest = entries@.skip(i as int);
        assert(rest[0] == entries@[i as int]);
        assert(rest.drop_first() =~= entries@.skip(i + 1));
        match &entries[i] {
            None => {
                assert(launcher_in(rest) is None);
                return None;
            },
            Some(name) => {
                if starts_with(name.as_str(), "org.eclipse.equinox.launcher") && ends_with(name.as_str(), ".jar") {
                    assert(launcher_in(rest) == Some(0int));
                    return Some(path_join(plugins_dir, name.as_str()));
                }
                assert(launcher_in(rest) == (match launcher_in(entries@.skip(i + 1)) {
                    Some(k) => Some(k + 1),
                    None => None::<int>,
                }));
            },
        }
        i += 1;
    }
    assert(entries@.skip(i as int) =~= Seq::<Option<String>>::empty());
    None
}

/// Whether downloads use the domestic mirror, from the `LSP_INDEX_USE_MIRROR`
/// and `TZ` variables and, on Windows, `LANG` (each `None` when unset): the
/// first variable decides when set ("1" or "true" in any case), then a China
/// time zone, then a Chinese Windows locale.
pub open spec fn spec_should_use_mirror(use_mirror: Option<Seq<char>>, tz: Option<Seq<char>>, windows_lang: Option<Seq<char>>) -> bool {
    match use_mirror {
        Some(v) => v == "1"@ || (v.len() == 4 && has_prefix_ignore_ascii_case(v, "true"@)),
        None => {
            ||| (tz matches Some(t) && (contains_seq(t, "Asia/Shanghai"@) || contains_seq(t, "Asia/Chongqing"@)))
            ||| (windows_lang matches Some(l) && (has_prefix(l, "zh_CN"@) || has_prefix(l, "zh_TW"@)))
        },
    }
}

/// The views of optional text.
pub open spec fn opt_text(o: Option<&str>) -> Option<Seq<char>> {
    match o {
        Some(s) => Some(s@),
        None => None,
    }
}

/// Determine if the domestic mirror is to be used. A value that lower-cases
/// to "true" is one of four letters that are ASCII `true` in some case: no
/// other character lower-cases to an ASCII letter of that word.
pub fn should_use_mirror(use_mirror: Option<&str>, tz: Option<&str>, windows_lang: Option<&str>) -> (r: bool)
    ensures
        r == spec_should_use_mirror(opt_text(use_mirror), opt_text(tz), opt_text(windows_lang)),
{
    if let Some(v) = use_mirror {
        let cs = chars_of(v);
        return str_eq(v, "1") || (cs.len() == 4 && starts_with_ignore_ascii_case(v, "true"));
    }
    if let Some(t) = tz {
        if contains(t, "Asia/Shanghai") || contains(t, "Asia/Chongqing") {
            return true;
        }
    }
    if let Some(l) = windows_lang {
        if starts_with(l, "zh_CN") || starts_with(l, "zh_TW") {
            return true;
        }
    }
    false
}

/// The download configuration of a known server: JDT LS for `java`.
pub open spec fn is_download_config(language: Seq<char>, r: Option<LspDownloadConfig>) -> bool {
    if language == "java"@ {
        r matches Some(c) && {
            &&& c.primary_url@ == "https://download.eclipse.org/jdtls/snapshots/jdt-language-server-latest.tar.gz"@
            &&& c.mirror_url matches Some(m) && m@ == "https://mirrors.tuna.tsinghua.edu.cn/eclipse/jdtls/snapshots/jdt-language-server-latest.tar.gz"@
            &&& c.archive_type == ArchiveType::TarGz
            &&& views(c.executable_path@) == seq!["plugins"@]
            &&& c.size_hint == Some(70_000_000u64)
        }
    } else {
        r is None
    }
}

/// Get download config for known LSP servers.
pub fn get_lsp_download_config(language: &str) -> (r: Option<LspDownloadConfig>)
    ensures
        is_download_config(language@, r),
{
    if str_eq(language, "java") {
        let mut executable_path: Vec<String> = Vec::new();
        executable_path.push(String::from_str("plugins"));
        assert(views(executable_path@) =~= seq!["plugins"@]);
        Some(LspDownloadConfig {
            primary_url: String::from_str("https://download.eclipse.org/jdtls/snapshots/jdt-language-server-latest.tar.gz"),
            mirror_url: Some(String::from_str("https://mirrors.tuna.tsinghua.edu.cn/eclipse/jdtls/snapshots/jdt-language-server-latest.tar.gz")),
            archive_type: ArchiveType::TarGz,
            executable_path,
            size_hint: Some(70_000_000),
        })
    } else {
        None
    }
}

} // verus!
