//! The disks of the host: which of them count, and how much space they
//! have and use.
//!
//! A disk counts if its file system is one that holds data of the host, if
//! it is not mounted at a place of the system's own, and if no earlier disk
//! that counts has the same device name (one device mounted twice).

use crate::report::{capped, minus, Disk};
use crate::text::{chars_of, contains_word, has_infix, text_is};
use vstd::prelude::*;

verus! {

/// One disk, as the system reports it.
#[derive(Debug)]
pub struct DiskEntry {
    /// Name of the device.
    pub name: String,
    /// Name of the file system.
    pub file_system: String,
    /// Where the disk is mounted.
    pub mount_point: String,
    /// Size in bytes.
    pub total_space: u64,
    /// Free space in bytes.
    pub available_space: u64,
}

/// A `DiskEntry` as plain values.
pub struct DiskView {
    pub name: Seq<char>,
    pub file_system: Seq<char>,
    pub mount_point: Seq<char>,
    pub total_space: u64,
    pub available_space: u64,
}

impl View for DiskEntry {
    type V = DiskView;

    open spec fn view(&self) -> DiskView {
        DiskView {
            name: self.name@,
            file_system: self.file_system@,
            mount_point: self.mount_point@,
            total_space: self.total_space,
            available_space: self.available_space,
        }
    }
}

/// Memory, swap space and disk space of the host, in bytes.
#[derive(Clone, Copy, Debug, PartialEq, Eq, Structural)]
pub struct MemDiskTotalInfoWithOutUsage {
    pub mem: u64,
    pub swap: u64,
    pub disk: u64,
}

/// The file system is one of those that hold data of the host.
pub open spec fn is_allowed_file_system(name: Seq<char>) -> bool {
    ||| name == "apfs"@
    ||| name == "ext4"@
    ||| name == "ext3"@
    ||| name == "ext2"@
    ||| name == "f2fs"@
    ||| name == "reiserfs"@
    ||| name == "jfs"@
    ||| name == "btrfs"@
    ||| name == "fuseblk"@
    ||| name == "zfs"@
    ||| name == "simfs"@
    ||| name == "ntfs"@
    ||| name == "fat32"@
    ||| name == "exfat"@
    ||| name == "xfs"@
    ||| name == "fuse.rclone"@
    ||| name == "ubifs"@
}

/// The mount point lies at a place of the system's own: its path holds one
/// of the words of such places.
pub open spec fn is_excluded_mount(path: Seq<char>) -> bool {
    ||| has_infix(path, "/snap"@)
    ||| has_infix(path, "/var/lib/docker"@)
    ||| has_infix(path, "/var/lib/lxcfs"@)
    ||| has_infix(path, "/run/user"@)
    ||| has_infix(path, "/tmp"@)
    ||| has_infix(path, "/dev"@)
    ||| has_infix(path, "/sys"@)
    ||| has_infix(path, "/proc"@)
    ||| has_infix(path, "/boot"@)
    ||| has_infix(path, "/lost+found"@)
    ||| has_infix(path, "/nix/store"@)
    ||| has_infix(path, "/var/log.hdd"@)
}

/// The disk has an allowed file system and no excluded mount point.
pub open spec fn is_eligible(disk: DiskView) -> bool {
    is_allowed_file_system(disk.file_system) && !is_excluded_mount(disk.mount_point)
}

/// One of `disks` has the device name `name`.
pub open spec fn holds_name(disks: Seq<DiskView>, name: Seq<char>) -> bool {
    exists|k: int| 0 <= k < disks.len() && (#[trigger] disks[k]).name == name
}

/// An eligible disk before position `index` has the device name `name`.
pub open spec fn eligible_name_before(disks: Seq<DiskView>, index: int, name: Seq<char>) -> bool {
    exists|j: int| 0 <= j < index && is_eligible(#[trigger] disks[j]) && disks[j].name == name
}

/// Disk `index` counts: it is eligible, and no eligible disk before it has
/// its device name.
pub open spec fn is_counted(disks: Seq<DiskView>, index: int) -> bool {
    is_eligible(disks[index]) && !eligible_name_before(disks, index, disks[index].name)
}

/// The disks before position `end` that count, in the order of the list.
pub open spec fn counted_up_to(disks: Seq<DiskView>, end: int) -> Seq<DiskView>
    decreases end,
{
    if end <= 0 {
        Seq::empty()
    } else if is_counted(disks, end - 1) {
        counted_up_to(disks, end - 1).push(disks[end - 1])
    } else {
        counted_up_to(disks, end - 1)
    }
}

/// The disks that count, in the order of the list.
pub open spec fn counted(disks: Seq<DiskView>) -> Seq<DiskView> {
    counted_up_to(disks, disks.len() as int)
}

/// The names of the disks that count are the names of the eligible disks.
pub proof fn lemma_counted_names(disks: Seq<DiskView>, end: int, name: Seq<char>)
    requires
        0 <= end <= disks.len(),
    ensures
        holds_name(counted_up_to(disks, end), name) == eligible_name_before(disks, end, name),
    decreases end,
{
    if end > 0 {
        lemma_counted_names(disks, end - 1, name);
        let before = counted_up_to(disks, end - 1);
        let now = counted_up_to(disks, end);
        let last = disks[end - 1];
        if holds_name(now, name) {
            let k = choose|k: int| 0 <= k < now.len() && (#[trigger] now[k]).name == name;
            if k < before.len() {
                assert(before[k].name == name);
                let j = choose|j: int|
                    0 <= j < end - 1 && is_eligible(#[trigger] disks[j]) && disks[j].name == name;
                assert(is_eligible(disks[j]) && disks[j].name == name);
            } else {
                assert(is_eligible(disks[end - 1]) && disks[end - 1].name == name);
            }
            assert(eligible_name_before(disks, end, name));
        }
        if eligible_name_before(disks, end, name) {
            let j = choose|j: int|
                0 <= j < end && is_eligible(#[trigger] disks[j]) && disks[j].name == name;
            if j == end - 1 && is_counted(disks, end - 1) {
                assert(now[now.len() - 1].name == name);
            } else {
                if j < end - 1 {
                    assert(is_eligible(disks[j]) && disks[j].name == name);
                }
                assert(eligible_name_before(disks, end - 1, name));
                let k = choose|k: int| 0 <= k < before.len() && (#[trigger] before[k]).name == name;
                assert(now[k].name == name);
            }
            assert(holds_name(now, name));
        }
    }
}

/// The sizes of `disks` added up.
pub open spec fn total_space_of(disks: Seq<DiskView>) -> int
    decreases disks.len(),
{
    if disks.len() == 0 {
        0
    } else {
        total_space_of(disks.drop_last()) + disks.last().total_space
    }
}

/// The space in use on `disks`, added up; a disk that reports more free
/// space than size adds nothing.
pub open spec fn space_in_use(disks: Seq<DiskView>) -> int
    decreases disks.len(),
{
    if disks.len() == 0 {
        0
    } else {
        space_in_use(disks.drop_last()) + minus(
            disks.last().total_space,
            disks.last().available_space,
        )
    }
}

/// The views of a list of disks.
pub open spec fn disk_views(disks: Seq<DiskEntry>) -> Seq<DiskView> {
    disks.map_values(|disk: DiskEntry| disk@)
}

/// The views of a list of borrowed disks.
pub open spec fn borrowed_views(disks: Seq<&DiskEntry>) -> Seq<DiskView> {
    disks.map_values(|disk: &DiskEntry| disk@)
}

/// Sums of sizes and of space in use are not negative.
pub proof fn lemma_sums_nonnegative(disks: Seq<DiskView>)
    ensures
        total_space_of(disks) >= 0,
        space_in_use(disks) >= 0,
    decreases disks.len(),
{
    if disks.len() > 0 {
        lemma_sums_nonnegative(disks.drop_last());
    }
}

/// Whether the file system is one of those that hold data of the host.
pub fn allowed_file_system(name: &str) -> (r: bool)
    ensures
        r == is_allowed_file_system(name@),
{
    let chars = chars_of(name);
    text_is(&chars, "apfs") || text_is(&chars, "ext4") || text_is(&chars, "ext3") || text_is(
        &chars,
        "ext2",
    ) || text_is(&chars, "f2fs") || text_is(&chars, "reiserfs") || text_is(&chars, "jfs")
        || text_is(&chars, "btrfs") || text_is(&chars, "fuseblk") || text_is(&chars, "zfs")
        || text_is(&chars, "simfs") || text_is(&chars, "ntfs") || text_is(&chars, "fat32")
        || text_is(&chars, "exfat") || text_is(&chars, "xfs") || text_is(&chars, "fuse.rclone")
        || text_is(&chars, "ubifs")
}

/// Whether the mount point lies at a place of the system's own.
pub fn excluded_mount(path: &str) -> (r: bool)
    ensures
        r == is_excluded_mount(path@),
{
    let chars = chars_of(path);
    contains_word(&chars, "/snap") || contains_word(&chars, "/var/lib/docker") || contains_word(
        &chars,
        "/var/lib/lxcfs",
    ) || contains_word(&chars, "/run/user") || contains_word(&chars, "/tmp") || contains_word(
        &chars,
        "/dev",
    ) || contains_word(&chars, "/sys") || contains_word(&chars, "/proc") || contains_word(
        &chars,
        "/boot",
    ) || contains_word(&chars, "/lost+found") || contains_word(&chars, "/nix/store")
        || contains_word(&chars, "/var/log.hdd")
}

/// Whether one of `disks` has the device name `name`.
fn has_name(disks: &Vec<&DiskEntry>, name: &String) -> (r: bool)
    ensures
        r == holds_name(borrowed_views(disks@), name@),
{
    let ghost views = borrowed_views(disks@);
    let mut k: usize = 0;
    while k < disks.len()
        invariant
            k <= disks.len(),
            views == borrowed_views(disks@),
            forall|j: int| 0 <= j < k ==> (#[trigger] views[j]).name != name@,
        decreases disks.len() - k,
    {
        assert(views[k as int] == disks@[k as int]@);
        if disks[k].name == *name {
            return true;
        }
        k = k + 1;
    }
    false
}

/// Gives the disks that count, in the order of the list.
pub fn filter_disks(disks: &Vec<DiskEntry>) -> (r: Vec<&DiskEntry>)
    ensures
        borrowed_views(r@) == counted(disk_views(disks@)),
{
    let ghost views = disk_views(disks@);
    let mut unique_disks: Vec<&DiskEntry> = Vec::new();
    let mut i: usize = 0;
    assert(borrowed_views(unique_disks@) =~= counted_up_to(views, 0));
    while i < disks.len()
        invariant
            i <= disks.len(),
            views == disk_views(disks@),
            borrowed_views(unique_disks@) == counted_up_to(views, i as int),
        decreases disks.len() - i,
    {
        let disk = &disks[i];
        proof {
            assert(views[i as int] == disk@);
            lemma_counted_names(views, i as int, disk.name@);
        }
        let eligible = allowed_file_system(disk.file_system.as_str()) && !excluded_mount(
            disk.mount_point.as_str(),
        );
        if eligible && !has_name(&unique_disks, &disk.name) {
            let ghost old_views = borrowed_views(unique_disks@);
            unique_disks.push(disk);
            assert(borrowed_views(unique_disks@) =~= old_views.push(disk@));
        }
        i = i + 1;
    }
    unique_disks
}

/// The space in use on the disks that count, or `u64::MAX` where the sum is
/// larger.
pub fn realtime_disk(disks: &Vec<DiskEntry>) -> (r: Disk)
    ensures
        r.used == capped(space_in_use(counted(disk_views(disks@)))),
{
    let disk_list = filter_disks(disks);
    let ghost views = borrowed_views(disk_list@);
    let mut used: u64 = 0;
    let mut i: usize = 0;
    while i < disk_list.len()
        invariant
            i <= disk_list.len(),
            views == borrowed_views(disk_list@),
            used == capped(space_in_use(views.take(i as int))),
        decreases disk_list.len() - i,
    {
        proof {
            assert(views.take(i + 1).drop_last() == views.take(i as int));
            assert(views.take(i + 1).last() == disk_list@[i as int]@);
            lemma_sums_nonnegative(views.take(i as int));
        }
        let disk = disk_list[i];
        used = used.saturating_add(disk.total_space.saturating_sub(disk.available_space));
        i = i + 1;
    }
    assert(views.take(disk_list.len() as int) == views);
    Disk { used }
}

/// Memory and swap space as given, and the size of the disks that count,
/// or `u64::MAX` where their sum is larger.
pub fn mem_info_without_usage(total_memory: u64, total_swap: u64, disks: &Vec<DiskEntry>) -> (r:
    MemDiskTotalInfoWithOutUsage)
    ensures
        r.mem == total_memory,
        r.swap == total_swap,
        r.disk == capped(total_space_of(counted(disk_views(disks@)))),
{
    let disk_list = filter_disks(disks);
    let ghost views = borrowed_views(disk_list@);
    let mut all_disk_space: u64 = 0;
    let mut i: usize = 0;
    while i < disk_list.len()
        invariant
            i <= disk_list.len(),
            views == borrowed_views(disk_list@),
            all_disk_space == capped(total_space_of(views.take(i as int))),
        decreases disk_list.len() - i,
    {
        proof {
            assert(views.take(i + 1).drop_last() == views.take(i as int));
            assert(views.take(i + 1).last() == disk_list@[i as int]@);
            lemma_sums_nonnegative(views.take(i as int));
        }
        all_disk_space = all_disk_space.saturating_add(disk_list[i].total_space);
        i = i + 1;
    }
    assert(views.take(disk_list.len() as int) == views);
    MemDiskTotalInfoWithOutUsage { mem: total_memory, swap: total_swap, disk: all_disk_space }
}

} // verus!
