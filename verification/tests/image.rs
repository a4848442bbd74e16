use nucleus::container::container_layout;
use nucleus::image::{archive_extension, archive_kind, cache_path, image_dir, image_url, ArchiveKind};

#[test]
fn supported_images() {
    assert!(image_url("alpine").unwrap().ends_with("alpine-minirootfs-3.19.1-x86_64.tar.gz"));
    assert!(image_url("ubuntu").unwrap().contains("ubuntu-base-22.04.4"));
    assert!(image_url("debian").unwrap().ends_with("rootfs.tar.xz"));
    assert!(image_url("fedora").is_none());
}

#[test]
fn cached_archive_names() {
    let url = image_url("alpine").unwrap();
    assert_eq!(archive_extension(url), ".tar.gz");
    assert_eq!(cache_path("alpine", archive_extension(url)), "./cached_images/alpine.tar.gz");
    assert_eq!(archive_kind("./cached_images/alpine.tar.gz"), ArchiveKind::Gzip);
    let url = image_url("debian").unwrap();
    assert_eq!(archive_extension(url), ".tar.xz");
    assert_eq!(archive_kind(&cache_path("debian", archive_extension(url))), ArchiveKind::Xz);
    assert_eq!(archive_kind("x.zip"), ArchiveKind::Unknown);
}

#[test]
fn pulled_image_is_where_run_looks() {
    for distro in ["alpine", "ubuntu", "debian"] {
        let dir = image_dir(distro);
        assert_eq!(dir, format!("./images/{}", distro));
        let layout = container_layout("/work", distro, "web");
        let pulled = std::path::Path::new("/work").join(&dir);
        assert_eq!(pulled.to_str().unwrap(), layout.rootfs);
    }
}
