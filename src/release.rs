//! Where the downloaded server binary lives and how its release archive is
//! named and checked.

use vstd::prelude::*;
use crate::context::{range_is, trim_start_at};
use crate::lines::next_newline;
use crate::resolve::join_dir;
use crate::text::{chars_of, is_unicode_whitespace, unicode_whitespace};

verus! {

/// The operating system and architecture names of a platform.
pub struct PlatformInfo {
    pub os: String,
    pub arch: String,
}

/// How a release archive is packed.
#[derive(Clone, Copy, Debug, PartialEq, Eq, Structural)]
pub enum ArchiveKind {
    Zip,
    GzipTar,
}

/// Settings of the editor extension that fetches the server.
pub struct ExtensionConfig {
    pub auto_download: bool,
    pub server_path: Option<String>,
    pub release_channel: String,
    pub base_url: Option<String>,
    pub verify_checksum: bool,
    pub cache_dir: Option<String>,
}

impl Default for ExtensionConfig {
    fn default() -> (r: ExtensionConfig)
        ensures
            r.auto_download,
            r.server_path is None,
            r.release_channel@ == "stable"@,
            r.base_url is None,
            r.verify_checksum,
            r.cache_dir is None,
    {
        ExtensionConfig {
            auto_download: true,
            server_path: None,
            release_channel: "stable".to_owned(),
            base_url: None,
            verify_checksum: true,
            cache_dir: None,
        }
    }
}

/// End of the word that starts at `i` of `l`.
pub open spec fn word_end(l: Seq<char>, i: int) -> int
    decreases l.len() - i,
{
    if 0 <= i < l.len() && !is_unicode_whitespace(l[i]) {
        word_end(l, i + 1)
    } else {
        i
    }
}

/// The checksum listed for `name` in the lines of `s` from index `p` on.
/// Each line holds a checksum and a file name separated by whitespace; the
/// search gives up at the first line that holds fewer than two words.
pub open spec fn checksum_from(s: Seq<char>, name: Seq<char>, p: int) -> Option<Seq<char>>
    decreases s.len() - p,
{
    if p < 0 || p >= s.len() {
        None
    } else {
        let e = next_newline(s, p);
        let a = trim_start_at(s, p, e);
        let b = word_end(s, a);
        let c = trim_start_at(s, if b < e { b } else { e }, e);
        let d = word_end(s, c);
        if a >= e || c >= e {
            None
        } else if s.subrange(c, if d < e { d } else { e }) == name {
            Some(s.subrange(a, if b < e { b } else { e }))
        } else if e < p || e >= s.len() {
            None
        } else {
            checksum_from(s, name, e + 1)
        }
    }
}

fn skip_space(c: &Vec<char>, b: usize, e: usize) -> (r: usize)
    requires
        b <= e <= c@.len(),
    ensures
        r == trim_start_at(c@, b as int, e as int),
        b <= r <= e,
{
    let mut k = b;
    while k < e && unicode_whitespace(c[k])
        invariant
            b <= k <= e <= c@.len(),
            trim_start_at(c@, k as int, e as int) == trim_start_at(c@, b as int, e as int),
        decreases e - k,
    {
        k = k + 1;
    }
    k
}

fn word_end_exec(c: &Vec<char>, i: usize) -> (r: usize)
    requires
        i <= c@.len(),
    ensures
        r == word_end(c@, i as int),
        i <= r <= c@.len(),
{
    let mut k = i;
    while k < c.len() && !unicode_whitespace(c[k])
        invariant
            i <= k <= c@.len(),
            word_end(c@, k as int) == word_end(c@, i as int),
        decreases c@.len() - k,
    {
        k = k + 1;
    }
    k
}

/// The checksum that the listing `checksums` gives for `filename`.
pub fn parse_checksum(checksums: &str, filename: &str) -> (r: Option<String>)
    ensures
        match checksum_from(checksums@, filename@, 0) {
            Some(h) => r matches Some(x) && x@ == h,
            None => r is None,
        },
{
    let c = chars_of(checksums);
    let n = c.len();
    let mut p: usize = 0;
    while p < n
        invariant
            n == c@.len(),
            c@ == checksums@,
            checksum_from(c@, filename@, p as int) == checksum_from(c@, filename@, 0),
        decreases n - p,
    {
        let e = crate::lines::next_line_end(&c, p);
        let a = skip_space(&c, p, e);
        let b0 = word_end_exec(&c, a);
        let b = if b0 < e {
            b0
        } else {
            e
        };
        let cc = skip_space(&c, b, e);
        let d0 = word_end_exec(&c, cc);
        let d = if d0 < e {
            d0
        } else {
            e
        };
        if a >= e || cc >= e {
            return None;
        }
        if range_is(&c, cc, d, filename) {
            let hash = checksums.substring_char(a, b).to_owned();
            return Some(hash);
        }
        if e >= n {
            return None;
        }
        p = e + 1;
    }
    None
}

/// Appends the characters of `s` to `out`.
fn push_str(out: &mut String, s: &str)
    ensures
        final(out)@ == old(out)@ + s@,
{
    out.append(s);
}

/// Releases exist for the x86_64 and aarch64 architectures on windows,
/// macos and linux.
pub open spec fn supported_platform(os: Seq<char>, arch: Seq<char>) -> bool {
    (arch == "x86_64"@ || arch == "aarch64"@) && (os == "windows"@ || os == "macos"@ || os
        == "linux"@)
}

/// Windows releases are zip archives, the others gzipped tar archives.
pub open spec fn archive_kind_for(os: Seq<char>) -> ArchiveKind {
    if os == "windows"@ {
        ArchiveKind::Zip
    } else {
        ArchiveKind::GzipTar
    }
}

/// The file name of the release archive of `version` for `os` and `arch`.
pub open spec fn asset_name_of(version: Seq<char>, os: Seq<char>, arch: Seq<char>) -> Seq<char> {
    "pathy-server_"@ + version + "_"@ + os + "_"@ + arch + "."@ + (if archive_kind_for(os)
        == ArchiveKind::Zip {
        "zip"@
    } else {
        "tar.gz"@
    })
}

/// The name of the release archive for `version` on `platform`, and how it
/// is packed.
pub fn asset_name_for(version: &str, platform: &PlatformInfo) -> (r: Result<(String, ArchiveKind), String>)
    ensures
        match r {
            Ok((name, kind)) => {
                &&& supported_platform(platform.os@, platform.arch@)
                &&& kind == archive_kind_for(platform.os@)
                &&& name@ == asset_name_of(version@, platform.os@, platform.arch@)
            },
            Err(_) => !supported_platform(platform.os@, platform.arch@),
        },
{
    let arch = chars_of(platform.arch.as_str());
    let os = chars_of(platform.os.as_str());
    let an = arch.len();
    let on = os.len();
    if !(range_is(&arch, 0, an, "x86_64") || range_is(&arch, 0, an, "aarch64")) {
        assert(arch@.subrange(0, an as int) =~= arch@);
        return Err("unsupported architecture".to_owned());
    }
    assert(arch@.subrange(0, an as int) =~= arch@);
    assert(os@.subrange(0, on as int) =~= os@);
    let kind = if range_is(&os, 0, on, "windows") {
        ArchiveKind::Zip
    } else if range_is(&os, 0, on, "macos") || range_is(&os, 0, on, "linux") {
        ArchiveKind::GzipTar
    } else {
        return Err("unsupported platform".to_owned());
    };
    let mut name = "pathy-server_".to_owned();
    push_str(&mut name, version);
    push_str(&mut name, "_");
    push_str(&mut name, platform.os.as_str());
    push_str(&mut name, "_");
    push_str(&mut name, platform.arch.as_str());
    push_str(&mut name, ".");
    match kind {
        ArchiveKind::Zip => push_str(&mut name, "zip"),
        ArchiveKind::GzipTar => push_str(&mut name, "tar.gz"),
    }
    Ok((name, kind))
}

/// `base` with `part` appended as a new last component.
fn join_path(base: &str, part: &str) -> (r: String)
    ensures
        r@ == join_dir(base@, part@),
{
    let b = chars_of(base);
    let n = b.len();
    let mut out = base.to_owned();
    if !(n > 0 && (b[n - 1] == '/' || b[n - 1] == '\\')) {
        out.push('/');
    }
    push_str(&mut out, part);
    out
}

/// Where the server binary of `version` is kept under `cache_root`.
pub fn cached_binary_path(cache_root: &str, version: &str, platform: &PlatformInfo) -> (r: String)
    ensures
        r@ == join_dir(
            join_dir(
                join_dir(join_dir(join_dir(cache_root@, "pathy"@), version@), platform.os@),
                platform.arch@,
            ),
            "pathy-server"@,
        ) + (if platform.os@ == "windows"@ {
            ".exe"@
        } else {
            Seq::<char>::empty()
        }),
{
    let pathy_dir = join_path(cache_root, "pathy");
    let version_dir = join_path(pathy_dir.as_str(), version);
    let os_dir = join_path(version_dir.as_str(), platform.os.as_str());
    let arch_dir = join_path(os_dir.as_str(), platform.arch.as_str());
    let mut binary = join_path(arch_dir.as_str(), "pathy-server");
    add_exe_suffix(&mut binary, platform);
    binary
}

fn add_exe_suffix(p: &mut String, platform: &PlatformInfo)
    ensures
        final(p)@ == old(p)@ + (if platform.os@ == "windows"@ {
            ".exe"@
        } else {
            Seq::<char>::empty()
        }),
{
    let os = chars_of(platform.os.as_str());
    let on = os.len();
    assert(os@.subrange(0, on as int) =~= os@);
    if range_is(&os, 0, on, "windows") {
        push_str(p, ".exe");
    } else {
        assert(old(p)@ + Seq::<char>::empty() =~= old(p)@);
    }
}

/// Where an archive's server binary is first unpacked under `cache_root`.
pub fn extracted_binary_path(cache_root: &str, platform: &PlatformInfo) -> (r: String)
    ensures
        r@ == join_dir(cache_root@, "pathy-server"@) + (if platform.os@ == "windows"@ {
            ".exe"@
        } else {
            Seq::<char>::empty()
        }),
{
    let mut p = join_path(cache_root, "pathy-server");
    add_exe_suffix(&mut p, platform);
    p
}

/// Relies on `std::path::Path::is_absolute`; what counts as absolute depends
/// on the platform, so nothing is promised of the answer.
#[verifier::external_body]
fn is_absolute_path(p: &str) -> (r: bool) {
    std::path::Path::new(p).is_absolute()
}

/// The directory that holds downloads: the configured one, which must be
/// relative, or `cache`.
pub fn cache_root(config: &ExtensionConfig) -> (r: Result<String, String>)
    ensures
        config.cache_dir is None ==> (r matches Ok(p) && p@ == "cache"@),
        config.cache_dir matches Some(d) ==> match r {
            Ok(p) => p@ == d@,
            Err(m) => m@ == "cache_dir must be relative to extension working directory"@,
        },
{
    match &config.cache_dir {
        Some(dir) => {
            if is_absolute_path(dir.as_str()) {
                return Err("cache_dir must be relative to extension working directory".to_owned());
            }
            Ok(dir.clone())
        },
        None => Ok("cache".to_owned()),
    }
}

/// Lower-case hexadecimal digit of a value below 16.
pub open spec fn hex_digit(v: u8) -> char {
    if v < 10 {
        (('0' as u8) + v) as char
    } else {
        (('a' as u8) + (v - 10)) as char
    }
}

/// Two lower-case hexadecimal digits per byte.
pub open spec fn hex_of(b: Seq<u8>) -> Seq<char>
    decreases b.len(),
{
    if b.len() == 0 {
        Seq::empty()
    } else {
        hex_of(b.drop_last()) + seq![hex_digit(b.last() / 16), hex_digit(b.last() % 16)]
    }
}

/// The SHA-256 digest of a byte sequence.
pub uninterp spec fn sha256_of(data: Seq<u8>) -> Seq<u8>;

/// Relies on `sha2::Sha256::digest`: the 32-byte SHA-256 digest of `data`.
#[verifier::external_body]
fn sha256_digest(data: &[u8]) -> (r: Vec<u8>)
    ensures
        r@ == sha256_of(data@),
        r@.len() == 32,
{
    <sha2::Sha256 as sha2::Digest>::digest(data).to_vec()
}

fn hex_char(v: u8) -> (r: char)
    requires
        v < 16,
    ensures
        r == hex_digit(v),
{
    let table: [char; 16] = [
        '0', '1', '2', '3', '4', '5', '6', '7', '8', '9', 'a', 'b', 'c', 'd', 'e', 'f',
    ];
    let r = table[v as usize];
    assert(r == hex_digit(v)) by {
        assert(table@[v as int] == hex_digit(v));
    }
    r
}

/// The digest written as lower-case hexadecimal.
pub fn to_hex(digest: &[u8]) -> (r: String)
    ensures
        r@ == hex_of(digest@),
{
    let mut out = String::new();
    let mut i: usize = 0;
    while i < digest.len()
        invariant
            i <= digest@.len(),
            out@ == hex_of(digest@.take(i as int)),
        decreases digest@.len() - i,
    {
        let b = digest[i];
        out.push(hex_char(b / 16));
        out.push(hex_char(b % 16));
        proof {
            assert(digest@.take(i + 1).drop_last() =~= digest@.take(i as int));
        }
        i = i + 1;
        assert(out@ =~= hex_of(digest@.take(i as int)));
    }
    assert(digest@.take(digest@.len() as int) =~= digest@);
    out
}

/// The digest, written in hexadecimal, is the expected checksum.
pub fn digest_matches(digest: &[u8], expected: &str) -> (r: bool)
    ensures
        r == (hex_of(digest@) == expected@),
{
    let hex = to_hex(digest);
    let h = chars_of(hex.as_str());
    let n = h.len();
    assert(h@.subrange(0, n as int) =~= h@);
    range_is(&h, 0, n, expected)
}

/// The SHA-256 digest of the archive `data` is the expected checksum.
pub fn archive_checksum_matches(data: &[u8], expected: &str) -> (r: bool)
    ensures
        r == (hex_of(sha256_of(data@)) == expected@),
{
    let digest = sha256_digest(data);
    digest_matches(digest.as_slice(), expected)
}

/// How a launch gets its server binary.
pub enum LaunchChoice {
    /// Run the configured binary.
    UseServerPath(String),
    /// Use the cached download, fetching it first when it is missing.
    Download,
}

/// The first decision of a launch, given whether the configured binary
/// exists: a configured binary is used, or is an error when missing; without
/// one, downloading must be enabled and the channel must be `stable`.
pub fn choose_launch(config: &ExtensionConfig, server_path_exists: bool) -> (r: Result<LaunchChoice, String>)
    ensures
        match config.server_path {
            Some(p) => if server_path_exists {
                r matches Ok(LaunchChoice::UseServerPath(q)) && q@ == p@
            } else {
                r matches Err(m) && m@ == "server_path not found: "@ + p@
            },
            None => if !config.auto_download {
                r matches Err(m) && m@ == "auto_download disabled and no server_path provided"@
            } else if config.release_channel@ != "stable"@ {
                r matches Err(m) && m@ == "only stable release_channel is supported"@
            } else {
                r matches Ok(LaunchChoice::Download)
            },
        },
{
    match &config.server_path {
        Some(p) => {
            if server_path_exists {
                Ok(LaunchChoice::UseServerPath(p.clone()))
            } else {
                let mut m = "server_path not found: ".to_owned();
                push_str(&mut m, p.as_str());
                Err(m)
            }
        },
        None => {
            if !config.auto_download {
                return Err("auto_download disabled and no server_path provided".to_owned());
            }
            let channel = chars_of(config.release_channel.as_str());
            let n = channel.len();
            assert(channel@.subrange(0, n as int) =~= channel@);
            if !range_is(&channel, 0, n, "stable") {
                return Err("only stable release_channel is supported".to_owned());
            }
            Ok(LaunchChoice::Download)
        },
    }
}

/// Where a release is fetched from and stored.
pub struct DownloadPlan {
    pub asset_name: String,
    pub archive_kind: ArchiveKind,
    pub archive_url: String,
    pub archive_path: String,
    pub checksum_url: String,
    pub checksum_path: String,
}

/// The release address for `version` when none is configured.
pub open spec fn default_base_url(version: Seq<char>) -> Seq<char> {
    "https://github.com/placeholder/zed-pathy/releases/download/v"@ + version
}

/// The name of the checksum listing of `version`.
pub open spec fn checksum_file(version: Seq<char>) -> Seq<char> {
    "checksums-"@ + version + ".txt"@
}

/// The addresses and paths of a download of `version` for `platform` into
/// `cache_root`; fails as `asset_name_for` does.
pub fn download_plan(
    config: &ExtensionConfig,
    version: &str,
    platform: &PlatformInfo,
    cache_root: &str,
) -> (r: Result<DownloadPlan, String>)
    ensures
        match r {
            Ok(plan) => {
                let base = match config.base_url {
                    Some(u) => u@,
                    None => default_base_url(version@),
                };
                let name = asset_name_of(version@, platform.os@, platform.arch@);
                &&& supported_platform(platform.os@, platform.arch@)
                &&& plan.asset_name@ == name
                &&& plan.archive_kind == archive_kind_for(platform.os@)
                &&& plan.archive_url@ == base + "/"@ + name
                &&& plan.archive_path@ == join_dir(cache_root@, name)
                &&& plan.checksum_url@ == base + "/"@ + checksum_file(version@)
                &&& plan.checksum_path@ == join_dir(cache_root@, checksum_file(version@))
            },
            Err(_) => !supported_platform(platform.os@, platform.arch@),
        },
{
    let (asset_name, archive_kind) = match asset_name_for(version, platform) {
        Ok(x) => x,
        Err(e) => return Err(e),
    };
    let mut base = match &config.base_url {
        Some(u) => u.clone(),
        None => {
            let mut d = "https://github.com/placeholder/zed-pathy/releases/download/v".to_owned();
            push_str(&mut d, version);
            d
        },
    };
    let mut checksum_name = "checksums-".to_owned();
    push_str(&mut checksum_name, version);
    push_str(&mut checksum_name, ".txt");
    let ghost b0 = base@;
    push_str(&mut base, "/");
    let mut archive_url = base.clone();
    push_str(&mut archive_url, asset_name.as_str());
    let mut checksum_url = base.clone();
    push_str(&mut checksum_url, checksum_name.as_str());
    let archive_path = join_path(cache_root, asset_name.as_str());
    let checksum_path = join_path(cache_root, checksum_name.as_str());
    assert(archive_url@ =~= b0 + "/"@ + asset_name@);
    assert(checksum_url@ =~= b0 + "/"@ + checksum_file(version@));
    Ok(DownloadPlan {
        asset_name,
        archive_kind,
        archive_url,
        archive_path,
        checksum_url,
        checksum_path,
    })
}

} // verus!
