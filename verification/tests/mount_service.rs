use cell_arch::mount_service::{MountPoint, MountService};

#[test]
fn test_mount_and_list() {
    let mut service = MountService::new();
    let point = MountPoint::new("p1", "/tmp/test");
    service.atomic_mount(point).unwrap();
    let mounts = service.list_mounts();
    assert_eq!(mounts.len(), 1);
    assert!(mounts[0].is_mounted());
}

#[test]
fn test_unmount() {
    let mut service = MountService::new();
    let point = MountPoint::new("p1", "/tmp/test");
    service.atomic_mount(point).unwrap();
    service.atomic_unmount("p1").unwrap();
    let mounts = service.list_mounts();
    assert!(!mounts[0].is_mounted());
}

#[test]
fn remount_replaces_and_unknown_unmount_fails() {
    let mut service = MountService::new();
    service.atomic_mount(MountPoint::new("p1", "/a")).unwrap();
    service.atomic_unmount("p1").unwrap();
    service.atomic_mount(MountPoint::new("p1", "/b")).unwrap();
    let mounts = service.list_mounts();
    assert_eq!(mounts.len(), 1);
    assert_eq!(mounts[0].path, "/b");
    assert!(mounts[0].is_mounted());
    assert!(service.atomic_unmount("zz").is_err());
}
