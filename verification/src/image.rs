//! Root filesystem images: where each supported distribution is downloaded from,
//! where the download is cached, and how the archive is unpacked.
use vstd::prelude::*;
use crate::container::{images_dir_spec, rootfs_spec};
use crate::paths::{join_path, join_spec};
use crate::stats::starts_with_spec;
use crate::text::{concat3, str_equal};

verus! {

/// The download address of each supported distribution's root filesystem.
pub open spec fn image_url_spec(distro: Seq<char>) -> Option<Seq<char>> {
    if distro == "alpine"@ {
        Some("https://dl-cdn.alpinelinux.org/alpine/v3.19/releases/x86_64/alpine-minirootfs-3.19.1-x86_64.tar.gz"@)
    } else if distro == "ubuntu"@ {
        Some("https://cdimage.ubuntu.com/ubuntu-base/releases/22.04/release/ubuntu-base-22.04.4-base-amd64.tar.gz"@)
    } else if distro == "debian"@ {
        Some("https://github.com/debuerreotype/docker-debian-artifacts/raw/dist-amd64/bookworm/rootfs.tar.xz"@)
    } else {
        None
    }
}

/// The download address of a supported distribution; `None` for any other name.
pub fn image_url(distro: &str) -> (r: Option<&'static str>)
    ensures
        match r {
            Some(u) => image_url_spec(distro@) == Some(u@),
            None => image_url_spec(distro@) is None,
        },
{
    if str_equal(distro, "alpine") {
        Some("https://dl-cdn.alpinelinux.org/alpine/v3.19/releases/x86_64/alpine-minirootfs-3.19.1-x86_64.tar.gz")
    } else if str_equal(distro, "ubuntu") {
        Some("https://cdimage.ubuntu.com/ubuntu-base/releases/22.04/release/ubuntu-base-22.04.4-base-amd64.tar.gz")
    } else if str_equal(distro, "debian") {
        Some("https://github.com/debuerreotype/docker-debian-artifacts/raw/dist-amd64/bookworm/rootfs.tar.xz")
    } else {
        None
    }
}

/// `needle` occurs in `s` starting at position `i`.
pub open spec fn occurs_at(s: Seq<char>, needle: Seq<char>, i: int) -> bool {
    0 <= i && i + needle.len() <= s.len() && s.subrange(i, i + needle.len()) == needle
}

/// `needle` occurs somewhere in `s`.
pub open spec fn contains_spec(s: Seq<char>, needle: Seq<char>) -> bool {
    exists|i: int| occurs_at(s, needle, i)
}

/// `s` ends with `suffix`.
pub open spec fn ends_with_spec(s: Seq<char>, suffix: Seq<char>) -> bool {
    suffix.len() <= s.len() && s.skip(s.len() - suffix.len()) == suffix
}

/// Whether `needle` occurs at position `i` of `s`.
fn occurs_at_exec(s: &str, n: usize, needle: &str, m: usize, i: usize) -> (r: bool)
    requires
        n == s@.len(),
        m == needle@.len(),
        i + m <= n,
    ensures
        r == occurs_at(s@, needle@, i as int),
{
    let mut j: usize = 0;
    while j < m
        invariant
            j <= m,
            n == s@.len(),
            m == needle@.len(),
            i + m <= n,
            forall|k: int| 0 <= k < j ==> s@[i + k] == needle@[k],
        decreases m - j,
    {
        if s.get_char(i + j) != needle.get_char(j) {
            assert(s@.subrange(i as int, i + m)[j as int] != needle@[j as int]);
            return false;
        }
        j = j + 1;
    }
    assert(s@.subrange(i as int, i + m) =~= needle@);
    true
}

/// Whether `needle` occurs in `s`.
pub fn contains_str(s: &str, needle: &str) -> (r: bool)
    ensures
        r == contains_spec(s@, needle@),
{
    let n = s.unicode_len();
    let m = needle.unicode_len();
    if m > n {
        return false;
    }
    if m == 0 {
        assert(s@.subrange(0, 0) =~= needle@);
        assert(occurs_at(s@, needle@, 0));
        return true;
    }
    let mut i: usize = 0;
    let last = n - m;
    while i <= last
        invariant
            last == n - m,
            m > 0,
            n == s@.len(),
            m == needle@.len(),
            m <= n,
            i <= last + 1,
            forall|k: int| 0 <= k < i ==> !occurs_at(s@, needle@, k),
        decreases last + 1 - i,
    {
        if occurs_at_exec(s, n, needle, m, i) {
            return true;
        }
        i = i + 1;
    }
    false
}

/// Whether `s` ends with `suffix`.
pub fn ends_with_str(s: &str, suffix: &str) -> (r: bool)
    ensures
        r == ends_with_spec(s@, suffix@),
{
    let n = s.unicode_len();
    let m = suffix.unicode_len();
    if m > n {
        return false;
    }
    let r = occurs_at_exec(s, n, suffix, m, n - m);
    assert(s@.skip(n - m) =~= s@.subrange(n - m, n as int));
    r
}

/// The file extension under which a download is cached: `.tar.gz` when the address
/// contains it, `.tar.xz` otherwise.
pub open spec fn archive_extension_spec(url: Seq<char>) -> Seq<char> {
    if contains_spec(url, ".tar.gz"@) {
        ".tar.gz"@
    } else {
        ".tar.xz"@
    }
}

/// The file extension under which a download is cached.
pub fn archive_extension(url: &str) -> (r: &'static str)
    ensures
        r@ == archive_extension_spec(url@),
{
    if contains_str(url, ".tar.gz") {
        ".tar.gz"
    } else {
        ".tar.xz"
    }
}

/// The cache file of a distribution's download.
pub open spec fn cache_path_spec(distro: Seq<char>, ext: Seq<char>) -> Seq<char> {
    "./cached_images/"@ + distro + ext
}

/// The cache file of a distribution's download: `./cached_images/<distro><ext>`.
pub fn cache_path(distro: &str, ext: &str) -> (r: String)
    ensures
        r@ == cache_path_spec(distro@, ext@),
{
    concat3("./cached_images/", distro, ext)
}

/// How a cached archive is unpacked.
#[derive(Debug, Clone, Copy, PartialEq, Eq, Structural)]
pub enum ArchiveKind {
    /// A gzip-compressed tar file.
    Gzip,
    /// An xz-compressed tar file.
    Xz,
    /// Neither; nothing is unpacked.
    Unknown,
}

/// How the archive at `path` is unpacked, judged by its name.
pub open spec fn archive_kind_spec(path: Seq<char>) -> ArchiveKind {
    if ends_with_spec(path, ".tar.gz"@) {
        ArchiveKind::Gzip
    } else if ends_with_spec(path, ".tar.xz"@) {
        ArchiveKind::Xz
    } else {
        ArchiveKind::Unknown
    }
}

/// How the archive at `path` is unpacked.
pub fn archive_kind(path: &str) -> (r: ArchiveKind)
    ensures
        r == archive_kind_spec(path@),
{
    if ends_with_str(path, ".tar.gz") {
        ArchiveKind::Gzip
    } else if ends_with_str(path, ".tar.xz") {
        ArchiveKind::Xz
    } else {
        ArchiveKind::Unknown
    }
}

/// The directory, relative to the working directory, that `distro` is unpacked into.
pub open spec fn image_dir_spec(distro: Seq<char>) -> Seq<char> {
    join_spec(images_dir_spec(), distro)
}

/// The directory that `distro` is unpacked into: `./images/<distro>`.
pub fn image_dir(distro: &str) -> (r: String)
    ensures
        r@ == image_dir_spec(distro@),
{
    join_path("./images", distro)
}

/// A pulled image is where a run looks for it: unpacking `distro` into its image
/// directory, relative to the working directory `cwd`, puts it at the root filesystem
/// that a run from image `distro` in `cwd` uses.
pub proof fn pulled_image_is_where_a_run_looks(cwd: Seq<char>, distro: Seq<char>)
    ensures
        join_spec(cwd, image_dir_spec(distro)) == rootfs_spec(cwd, distro),
{
    reveal_strlit("./images");
    let b = images_dir_spec();
    assert(b.len() == 8 && b[0] == '.' && b.last() == 's');
    if !(distro.len() > 0 && distro[0] == '/') {
        let rel = b + seq!['/'] + distro;
        assert(image_dir_spec(distro) == rel);
        assert(rel[0] == '.');
        let x = join_spec(cwd, b);
        assert(x.len() > 0 && x.last() == 's');
        if cwd.len() == 0 || cwd.last() == '/' {
            assert(join_spec(cwd, rel) =~= x + seq!['/'] + distro);
        } else {
            assert(join_spec(cwd, rel) =~= x + seq!['/'] + distro);
        }
    }
}

/// Every download is cached under a name that the unpacking step recognises: whatever
/// the distribution and the address, the cache file of the address's extension is a
/// gzip or an xz archive, and it is a gzip archive exactly when the address names one.
pub proof fn cached_archives_are_unpacked(distro: Seq<char>, url: Seq<char>)
    ensures
        archive_kind_spec(cache_path_spec(distro, archive_extension_spec(url))) == (if contains_spec(url, ".tar.gz"@) {
            ArchiveKind::Gzip
        } else {
            ArchiveKind::Xz
        }),
{
    reveal_strlit(".tar.gz");
    reveal_strlit(".tar.xz");
    let ext = archive_extension_spec(url);
    let p = cache_path_spec(distro, ext);
    assert(p.skip(p.len() - ext.len()) =~= ext);
    if !contains_spec(url, ".tar.gz"@) {
        assert(p.skip(p.len() - 7) =~= ".tar.xz"@);
        assert(".tar.xz"@[5] != ".tar.gz"@[5]);
        assert(p.skip(p.len() - 7) != ".tar.gz"@);
    }
}

/// The address is that of an x86_64 build: it names `amd64` or `x86_64`.
pub open spec fn names_x86_64_build(u: Seq<char>) -> bool {
    contains_spec(u, "amd64"@) || contains_spec(u, "x86_64"@)
}

/// Exactly alpine, ubuntu and debian can be pulled, and the address of each is an
/// https download of an x86_64 build of that very distribution, packed as a gzip or an
/// xz tar archive.
pub proof fn image_urls_are_x86_64_builds_of_the_distro(distro: Seq<char>)
    ensures
        image_url_spec(distro) is Some <==> (distro == "alpine"@ || distro == "ubuntu"@ || distro == "debian"@),
        image_url_spec(distro) matches Some(u) ==> {
            &&& starts_with_spec(u, "https://"@)
            &&& contains_spec(u, distro)
            &&& names_x86_64_build(u)
            &&& (ends_with_spec(u, ".tar.gz"@) || ends_with_spec(u, ".tar.xz"@))
        },
{
    reveal_strlit("https://");
    reveal_strlit("amd64");
    reveal_strlit("x86_64");
    reveal_strlit(".tar.gz");
    reveal_strlit(".tar.xz");
    reveal_strlit("alpine");
    reveal_strlit("ubuntu");
    reveal_strlit("debian");
    if distro == "alpine"@ {
        let u = "https://dl-cdn.alpinelinux.org/alpine/v3.19/releases/x86_64/alpine-minirootfs-3.19.1-x86_64.tar.gz"@;
        reveal_strlit("https://dl-cdn.alpinelinux.org/alpine/v3.19/releases/x86_64/alpine-minirootfs-3.19.1-x86_64.tar.gz");
        assert(u.take(8) =~= "https://"@);
        assert(u.subrange(15, 21) =~= distro);
        assert(occurs_at(u, distro, 15));
        assert(u.subrange(53, 59) =~= "x86_64"@);
        assert(occurs_at(u, "x86_64"@, 53));
        assert(u.skip(u.len() - 7) =~= ".tar.gz"@);
    } else if distro == "ubuntu"@ {
        let u = "https://cdimage.ubuntu.com/ubuntu-base/releases/22.04/release/ubuntu-base-22.04.4-base-amd64.tar.gz"@;
        reveal_strlit("https://cdimage.ubuntu.com/ubuntu-base/releases/22.04/release/ubuntu-base-22.04.4-base-amd64.tar.gz");
        assert(u.take(8) =~= "https://"@);
        assert(u.subrange(16, 22) =~= distro);
        assert(occurs_at(u, distro, 16));
        assert(u.subrange(87, 92) =~= "amd64"@);
        assert(occurs_at(u, "amd64"@, 87));
        assert(u.skip(u.len() - 7) =~= ".tar.gz"@);
    } else if distro == "debian"@ {
        let u = "https://github.com/debuerreotype/docker-debian-artifacts/raw/dist-amd64/bookworm/rootfs.tar.xz"@;
        reveal_strlit("https://github.com/debuerreotype/docker-debian-artifacts/raw/dist-amd64/bookworm/rootfs.tar.xz");
        assert(u.take(8) =~= "https://"@);
        assert(u.subrange(40, 46) =~= distro);
        assert(occurs_at(u, distro, 40));
        assert(u.subrange(66, 71) =~= "amd64"@);
        assert(occurs_at(u, "amd64"@, 66));
        assert(u.skip(u.len() - 7) =~= ".tar.xz"@);
    }
}

} // verus!
