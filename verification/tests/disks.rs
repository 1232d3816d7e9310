use komari_monitor::disks::{
    allowed_file_system, excluded_mount, filter_disks, mem_info_without_usage, realtime_disk,
    DiskEntry, MemDiskTotalInfoWithOutUsage,
};
use komari_monitor::report::Disk;

fn disk(name: &str, file_system: &str, mount_point: &str, total: u64, free: u64) -> DiskEntry {
    DiskEntry {
        name: String::from(name),
        file_system: String::from(file_system),
        mount_point: String::from(mount_point),
        total_space: total,
        available_space: free,
    }
}

fn host() -> Vec<DiskEntry> {
    vec![
        disk("/dev/sda1", "ext4", "/", 1000, 400),
        disk("tmpfs", "tmpfs", "/run", 50, 50),
        disk("/dev/sda1", "ext4", "/var/lib/docker/overlay", 1000, 400),
        disk("/dev/sda1", "ext4", "/home", 1000, 400),
        disk("/dev/sdb1", "xfs", "/data", 5000, 1000),
        disk("/dev/sdc1", "vfat", "/mnt/usb", 64, 1),
        disk("/dev/sdd1", "ntfs", "/boot/efi", 512, 12),
        disk("/dev/sdb1", "xfs", "/srv", 5000, 1000),
        disk("pool", "zfs", "/tank", 20_000, 25_000),
    ]
}

fn names(disks: &[&DiskEntry]) -> Vec<(String, String)> {
    disks.iter().map(|disk| (disk.name.clone(), disk.mount_point.clone())).collect()
}

#[test]
fn file_systems_that_hold_data() {
    for name in [
        "apfs", "ext4", "ext3", "ext2", "f2fs", "reiserfs", "jfs", "btrfs", "fuseblk", "zfs",
        "simfs", "ntfs", "fat32", "exfat", "xfs", "fuse.rclone", "ubifs",
    ] {
        assert!(allowed_file_system(name), "{}", name);
    }
    for name in ["", "tmpfs", "overlay", "EXT4", "ext", "ext44", " ext4", "vfat", "squashfs", "nfs"] {
        assert!(!allowed_file_system(name), "{}", name);
    }
}

#[test]
fn mount_points_of_the_system() {
    for path in [
        "/snap/core/1", "/var/lib/docker/overlay2", "/var/lib/lxcfs", "/run/user/1000", "/tmp",
        "/dev/shm", "/sys/fs", "/proc", "/boot", "/boot/efi", "/lost+found", "/nix/store",
        "/var/log.hdd", "/mnt/tmp", "/home/devel", "/data/system",
    ] {
        assert!(excluded_mount(path), "{}", path);
    }
    for path in ["/", "/home", "/data", "/var/lib", "/run", "C:\\", "", "/var/log", "/Boot", "snap"] {
        assert!(!excluded_mount(path), "{}", path);
    }
}

#[test]
fn disks_that_count() {
    let disks = host();
    let kept = filter_disks(&disks);
    assert_eq!(
        names(&kept),
        vec![
            (String::from("/dev/sda1"), String::from("/")),
            (String::from("/dev/sdb1"), String::from("/data")),
            (String::from("pool"), String::from("/tank")),
        ]
    );
    assert!(filter_disks(&Vec::new()).is_empty());
}

#[test]
fn excluded_disk_does_not_hide_a_later_one_of_its_name() {
    let disks = vec![
        disk("/dev/sda1", "ext4", "/boot", 10, 1),
        disk("/dev/sda1", "tmpfs", "/", 10, 1),
        disk("/dev/sda1", "ext4", "/", 10, 1),
        disk("/dev/sda1", "ext4", "/home", 10, 1),
    ];
    let kept = filter_disks(&disks);
    assert_eq!(names(&kept), vec![(String::from("/dev/sda1"), String::from("/"))]);
}

#[test]
fn disk_space_in_use_is_summed() {
    assert_eq!(realtime_disk(&Vec::new()), Disk { used: 0 });
    // 600 on sda1, 4000 on sdb1, nothing on the pool that reports more free
    // space than size.
    assert_eq!(realtime_disk(&host()), Disk { used: 4600 });
    let huge = vec![
        disk("a", "ext4", "/a", u64::MAX, 1),
        disk("b", "ext4", "/b", 5, 0),
    ];
    assert_eq!(realtime_disk(&huge), Disk { used: u64::MAX });
}

#[test]
fn sizes_of_the_host() {
    assert_eq!(
        mem_info_without_usage(16_000, 2_000, &host()),
        MemDiskTotalInfoWithOutUsage { mem: 16_000, swap: 2_000, disk: 26_000 }
    );
    assert_eq!(
        mem_info_without_usage(1, 2, &Vec::new()),
        MemDiskTotalInfoWithOutUsage { mem: 1, swap: 2, disk: 0 }
    );
    let huge = vec![
        disk("a", "ext4", "/a", u64::MAX - 1, 1),
        disk("b", "ext4", "/b", 5, 0),
    ];
    assert_eq!(mem_info_without_usage(0, 0, &huge).disk, u64::MAX);
}
