use lib::filesystem::dir::{change_dir, get_cwd, init_root_dir, load_root_dir};
use lib::filesystem::dir_api::{create_dir, create_dir_all, read_dir, remove_dir, DirError};
use lib::filesystem::dir_entry::FileType;
use lib::filesystem::file::{create_file, open_file, read_file, remove_file, write_file, FileError};
use lib::filesystem::file_api::{File, OpenOptions, SeekFrom};
use lib::filesystem::file_descriptor::FileDescriptorTable;
use lib::filesystem::fs::FileSystem;
use lib::filesystem::global_file_table::{get_file_by_fd, FileTable, OpenedFile};

fn fresh() -> (FileSystem, FileTable, FileDescriptorTable) {
    (FileSystem::format(0, 20000), FileTable::empty(), FileDescriptorTable::new())
}

fn names(fs: &FileSystem, path: &str) -> Vec<Vec<u8>> {
    let d = read_dir(fs, path).unwrap();
    let mut it = d.iter();
    let mut out = Vec::new();
    while let Some(e) = it.next(fs) {
        out.push(e.get_name());
    }
    out
}

#[test]
fn format_makes_root_with_dot_entries() {
    let (fs, _, _) = fresh();
    assert_eq!(fs.super_block.lba_start, 0);
    assert_eq!(fs.super_block.sec_cnt, 20000);
    assert_eq!(fs.super_block.root_inode_no, 0);
    assert_eq!(names(&fs, "/"), vec![b".".to_vec(), b"..".to_vec()]);
    let (e, i) = fs.search_dir_entry("/").unwrap();
    assert_eq!(i, 0);
    assert_eq!(e.file_type, FileType::Directory);
    assert_eq!(e.get_name(), b"/".to_vec());
    assert_eq!(load_root_dir(&fs), 0);
}

#[test]
fn create_dir_and_its_errors() {
    let (mut fs, _, _) = fresh();
    assert_eq!(create_dir(&mut fs, "/usr"), Ok(()));
    assert_eq!(create_dir(&mut fs, "/usr"), Err(DirError::AlreadyExists));
    assert_eq!(create_dir(&mut fs, "/a/b"), Err(DirError::ParentDirNotExists));
    assert_eq!(create_dir(&mut fs, "usr"), Err(DirError::DirPathIllegal));
    assert_eq!(create_dir(&mut fs, "/"), Err(DirError::DirPathIllegal));
    assert_eq!(create_dir(&mut fs, "/a_name_that_is_far_too_long"), Err(DirError::DirPathIllegal));
    assert_eq!(names(&fs, "/usr"), vec![b"..".to_vec(), b".".to_vec()]);
    assert_eq!(names(&fs, "/"), vec![b".".to_vec(), b"..".to_vec(), b"usr".to_vec()]);
    let (e, i) = fs.search_dir_entry("/usr/").unwrap();
    assert_eq!(e.file_type, FileType::Directory);
    assert_eq!(i, 1);
}

#[test]
fn create_file_and_its_errors() {
    let (mut fs, mut table, mut fds) = fresh();
    create_dir(&mut fs, "/usr").unwrap();
    let fd = create_file(&mut fs, &mut table, &mut fds, "/usr/hello.txt").unwrap();
    assert_eq!(fd.value, 3);
    assert_eq!(create_file(&mut fs, &mut table, &mut fds, "/usr/hello.txt"), Err(FileError::AlreadyExists));
    assert_eq!(create_file(&mut fs, &mut table, &mut fds, "/usr/"), Err(FileError::IsADirectory));
    assert_eq!(create_file(&mut fs, &mut table, &mut fds, "/nope/x"), Err(FileError::ParentDirNotExists));
    assert_eq!(create_file(&mut fs, &mut table, &mut fds, "usr/x"), Err(FileError::FilePathIllegal));
    let top = create_file(&mut fs, &mut table, &mut fds, "/top.txt").unwrap();
    assert_eq!(top.value, 4);
    let (e, _) = fs.search_dir_entry("/usr/hello.txt").unwrap();
    assert_eq!(e.file_type, FileType::Regular);
}

#[test]
fn open_file_errors() {
    let (mut fs, mut table, mut fds) = fresh();
    create_dir(&mut fs, "/usr").unwrap();
    assert_eq!(open_file(&fs, &mut table, &mut fds, "/usr", false), Err(FileError::IsADirectory));
    assert_eq!(open_file(&fs, &mut table, &mut fds, "/missing", false), Err(FileError::NotFound));
    assert_eq!(open_file(&fs, &mut table, &mut fds, "missing", false), Err(FileError::FilePathIllegal));
}

#[test]
fn task_runs_out_of_descriptors() {
    let (mut fs, mut table, mut fds) = fresh();
    let names = ["/f0", "/f1", "/f2", "/f3", "/f4"];
    for n in names.iter() {
        assert!(create_file(&mut fs, &mut table, &mut fds, n).is_ok());
    }
    assert_eq!(create_file(&mut fs, &mut table, &mut fds, "/f5"), Err(FileError::FileExceedTask));
    assert_eq!(open_file(&fs, &mut table, &mut fds, "/f0", false), Err(FileError::FileExceedTask));
}

#[test]
fn write_then_read_back() {
    let (mut fs, mut table, mut fds) = fresh();
    let fd = create_file(&mut fs, &mut table, &mut fds, "/a.txt").unwrap();
    let (_, mut f) = get_file_by_fd(&table, &fds, fd).unwrap();
    assert_eq!(f.file_off, 0);
    assert_eq!(write_file(&mut fs, &mut f, b"hello world"), Ok(11));
    assert_eq!(f.file_off, 11);
    let start = OpenedFile { i_no: f.i_no, file_off: 0 };
    let mut buf = [0u8; 32];
    assert_eq!(read_file(&fs, &start, &mut buf), Ok(11));
    assert_eq!(&buf[..11], b"hello world");
    assert!(buf[11..].iter().all(|b| *b == 0));
    let mid = OpenedFile { i_no: f.i_no, file_off: 6 };
    let mut small = [9u8; 3];
    assert_eq!(read_file(&fs, &mid, &mut small), Ok(3));
    assert_eq!(&small, b"wor");
    let end = OpenedFile { i_no: f.i_no, file_off: 20 };
    assert_eq!(read_file(&fs, &end, &mut small), Ok(0));
}

#[test]
fn write_across_sectors_and_gap_reads_zero() {
    let (mut fs, mut table, mut fds) = fresh();
    let fd = create_file(&mut fs, &mut table, &mut fds, "/big").unwrap();
    let (_, f) = get_file_by_fd(&table, &fds, fd).unwrap();
    let data: Vec<u8> = (0..1500u32).map(|i| (i % 251) as u8 + 1).collect();
    let mut at = OpenedFile { i_no: f.i_no, file_off: 300 };
    assert_eq!(write_file(&mut fs, &mut at, &data), Ok(1500));
    assert_eq!(at.file_off, 1800);
    let mut buf = vec![0xaau8; 2000];
    let from0 = OpenedFile { i_no: f.i_no, file_off: 0 };
    assert_eq!(read_file(&fs, &from0, &mut buf), Ok(1800));
    assert!(buf[..300].iter().all(|b| *b == 0));
    assert_eq!(&buf[300..1800], &data[..]);
    assert!(buf[1800..].iter().all(|b| *b == 0xaa));
    let mut over = OpenedFile { i_no: f.i_no, file_off: 510 };
    assert_eq!(write_file(&mut fs, &mut over, b"XYZW"), Ok(4));
    let mut four = [0u8; 4];
    let at510 = OpenedFile { i_no: f.i_no, file_off: 510 };
    assert_eq!(read_file(&fs, &at510, &mut four), Ok(4));
    assert_eq!(&four, b"XYZW");
    let mut rest = [0u8; 2];
    let at514 = OpenedFile { i_no: f.i_no, file_off: 514 };
    assert_eq!(read_file(&fs, &at514, &mut rest), Ok(2));
    assert_eq!(rest[0], data[214]);
}

#[test]
fn file_api_round_trip() {
    let (mut fs, mut table, mut fds) = fresh();
    let mut w = File::create(&mut fs, &mut table, &mut fds, "/notes").unwrap();
    assert_eq!(w.get_path(), b"/notes");
    assert_eq!(w.write(&mut fs, &mut table, &fds, b"abc"), Ok(3));
    assert_eq!(w.write(&mut fs, &mut table, &fds, b"def"), Ok(3));
    let mut buf = [0u8; 8];
    assert_eq!(w.read(&fs, &table, &fds, &mut buf), Err(FileError::PermissionDenied));
    assert_eq!(w.close(&mut table, &mut fds), Ok(()));
    assert_eq!(w.close(&mut table, &mut fds), Err(FileError::FileDescriptorNotFound));
    let mut r = File::open(&fs, &mut table, &mut fds, "/notes").unwrap();
    assert_eq!(r.read(&fs, &table, &fds, &mut buf), Ok(6));
    assert_eq!(&buf[..6], b"abcdef");
    let mut ro = r;
    assert_eq!(ro.write(&mut fs, &mut table, &fds, b"x"), Err(FileError::PermissionDenied));
    assert_eq!(ro.seek(&mut table, &fds, SeekFrom::Start(4)), Ok(()));
    let mut two = [0u8; 2];
    assert_eq!(ro.read(&fs, &table, &fds, &mut two), Ok(2));
    assert_eq!(&two, b"ef");
}

#[test]
fn open_options_append() {
    let (mut fs, mut table, mut fds) = fresh();
    let mut w = File::create(&mut fs, &mut table, &mut fds, "/log").unwrap();
    w.write(&mut fs, &mut table, &fds, b"one").unwrap();
    w.close(&mut table, &mut fds).unwrap();
    let mut o = OpenOptions::new();
    assert_eq!(o, OpenOptions { write: false, append: false, read: false });
    o.write(true);
    o.append(true);
    let o2 = o.read(true);
    assert_eq!(o2, OpenOptions { write: true, append: true, read: true });
    let mut f = o2.open(&fs, &mut table, &mut fds, "/log").unwrap();
    f.write(&mut fs, &mut table, &fds, b"two").unwrap();
    f.seek(&mut table, &fds, SeekFrom::Start(0)).unwrap();
    let mut buf = [0u8; 6];
    assert_eq!(f.read(&fs, &table, &fds, &mut buf), Ok(6));
    assert_eq!(&buf, b"onetwo");
}

#[test]
fn remove_file_and_dir() {
    let (mut fs, mut table, mut fds) = fresh();
    create_dir(&mut fs, "/usr").unwrap();
    create_file(&mut fs, &mut table, &mut fds, "/usr/b.txt").unwrap();
    assert_eq!(remove_file(&mut fs, "/usr"), Err(FileError::IsADirectory));
    assert_eq!(remove_dir(&mut fs, "/usr"), Err(DirError::DirectoryNotEmpty));
    assert_eq!(remove_file(&mut fs, "/usr/none"), Err(FileError::NotFound));
    assert_eq!(remove_file(&mut fs, "/nope/b.txt"), Err(FileError::ParentDirNotExists));
    assert_eq!(remove_file(&mut fs, "/"), Err(FileError::FilePathIllegal));
    assert_eq!(remove_file(&mut fs, "/usr/b.txt"), Ok(()));
    assert!(fs.search_dir_entry("/usr/b.txt").is_none());
    assert_eq!(names(&fs, "/usr"), vec![b"..".to_vec(), b".".to_vec()]);
    assert_eq!(remove_dir(&mut fs, "/usr"), Ok(()));
    assert!(fs.search_dir_entry("/usr").is_none());
    assert_eq!(remove_dir(&mut fs, "/usr"), Err(DirError::NotFound));
    assert_eq!(remove_dir(&mut fs, "/"), Err(DirError::DirPathIllegal));
    assert_eq!(remove_dir(&mut fs, "usr"), Err(DirError::DirPathIllegal));
    assert_eq!(names(&fs, "/"), vec![b".".to_vec(), b"..".to_vec()]);
    assert_eq!(create_dir(&mut fs, "/usr"), Ok(()));
}

#[test]
fn create_dir_all_makes_each_level() {
    let (mut fs, _, _) = fresh();
    create_dir(&mut fs, "/x").unwrap();
    assert_eq!(create_dir_all(&mut fs, "/x/y/z"), Ok(()));
    let (e, _) = fs.search_dir_entry("/x/y/z").unwrap();
    assert_eq!(e.file_type, FileType::Directory);
    assert_eq!(create_dir_all(&mut fs, "/x/y/z"), Ok(()));
    assert_eq!(create_dir_all(&mut fs, "x/y"), Err(DirError::DirPathIllegal));
}

#[test]
fn cwd_follows_change_dir() {
    let (mut fs, _, _) = fresh();
    create_dir_all(&mut fs, "/x/y/z").unwrap();
    let mut cwds = vec![None, Some(5u32)];
    init_root_dir(&fs, &mut cwds);
    assert_eq!(cwds, vec![Some(0u32), Some(0u32)]);
    let mut cwd = cwds[0];
    let mut buf = [0u8; 20];
    assert_eq!(get_cwd(&fs, cwd, &mut buf), Some(1));
    assert_eq!(&buf[..1], b"/");
    assert_eq!(change_dir(&fs, &mut cwd, "/x/y/z"), Some(()));
    let mut buf = [0u8; 20];
    assert_eq!(get_cwd(&fs, cwd, &mut buf), Some(6));
    assert_eq!(&buf[..6], b"/x/y/z");
    assert_eq!(change_dir(&fs, &mut cwd, "/nowhere"), None);
    assert_eq!(get_cwd(&fs, None, &mut buf), None);
}

#[test]
fn plan_and_room_checks() {
    let (mut fs, _, _) = fresh();
    create_dir(&mut fs, "/usr").unwrap();
    assert_eq!(lib::filesystem::file::plan_create_file(&fs, "/usr/a"), Ok(1));
    assert_eq!(lib::filesystem::file::plan_create_file(&fs, "/x/a"), Err(FileError::ParentDirNotExists));
    assert_eq!(lib::filesystem::file::plan_create_file(&fs, "/usr"), Err(FileError::AlreadyExists));
    assert_eq!(lib::filesystem::file::plan_create_file(&fs, "/usr/"), Err(FileError::IsADirectory));
    let free = fs.free_block_count();
    assert!(free > 0);
    assert!(fs.can_add_entry(1, 0));
    assert!(fs.can_add_entry(1, free));
    assert!(!fs.can_add_entry(1, free + 1));
    assert!(fs.can_write(1, 0, 512));
    assert!(!fs.can_write(1, 71680, 1));
    assert!(fs.can_write(1, 71679, 1));
}

#[test]
fn free_blocks_drop_as_a_file_grows() {
    let (mut fs, mut table, mut fds) = fresh();
    let before = fs.free_block_count();
    let fd = create_file(&mut fs, &mut table, &mut fds, "/f").unwrap();
    let (_, mut f) = get_file_by_fd(&table, &fds, fd).unwrap();
    write_file(&mut fs, &mut f, &[7u8; 1025]).unwrap();
    assert_eq!(fs.free_block_count(), before - 3);
}

#[test]
fn create_dir_all_follows_dot_names_that_exist() {
    let (mut fs, _, _) = fresh();
    create_dir(&mut fs, "/a").unwrap();
    assert_eq!(create_dir_all(&mut fs, "/a/../a/./b"), Ok(()));
    let (e, i) = fs.search_dir_entry("/a/b").unwrap();
    assert_eq!(e.file_type, FileType::Directory);
    assert_eq!(fs.search_dir_entry("/a/../a/./b").unwrap().1, i);
}

#[test]
fn remove_dir_of_a_full_root_is_not_empty() {
    let (mut fs, _, _) = fresh();
    create_dir(&mut fs, "/usr").unwrap();
    assert_eq!(remove_dir(&mut fs, "/"), Err(DirError::DirectoryNotEmpty));
}

#[test]
fn create_dir_all_makes_dot_entries() {
    let (mut fs, _, _) = fresh();
    assert_eq!(create_dir_all(&mut fs, "/p/q"), Ok(()));
    let (_, p) = fs.search_dir_entry("/p").unwrap();
    let (_, q) = fs.search_dir_entry("/p/q").unwrap();
    assert_eq!(fs.search_dir_entry("/p/q/..").unwrap().1, p);
    assert_eq!(fs.search_dir_entry("/p/q/.").unwrap().1, q);
    assert_eq!(fs.search_dir_entry("/p/..").unwrap().1, 0);
}

#[test]
fn file_api_create_then_read_back() {
    let (mut fs, mut table, mut fds) = fresh();
    let mut w = File::create(&mut fs, &mut table, &mut fds, "/r.txt").unwrap();
    assert_eq!(w.write(&mut fs, &mut table, &fds, b"hello"), Ok(5));
    w.close(&mut table, &mut fds).unwrap();
    let r = File::open(&fs, &mut table, &mut fds, "/r.txt").unwrap();
    let mut buf = [0u8; 5];
    assert_eq!(r.read(&fs, &table, &fds, &mut buf), Ok(5));
    assert_eq!(&buf, b"hello");
}

#[test]
fn missing_parent_is_reported_before_the_name_is_checked() {
    let (mut fs, mut table, mut fds) = fresh();
    let long = "/missing/a_name_of_25_bytes_long__";
    assert_eq!(create_file(&mut fs, &mut table, &mut fds, long), Err(FileError::ParentDirNotExists));
    assert_eq!(
        File::create(&mut fs, &mut table, &mut fds, long).map(|_| ()),
        Err(FileError::ParentDirNotExists)
    );
    assert_eq!(create_dir(&mut fs, long), Err(DirError::ParentDirNotExists));
    create_dir(&mut fs, "/usr").unwrap();
    let long_in_usr = "/usr/a_name_of_25_bytes_long__";
    assert_eq!(create_file(&mut fs, &mut table, &mut fds, long_in_usr), Err(FileError::FilePathIllegal));
    assert_eq!(create_dir(&mut fs, long_in_usr), Err(DirError::DirPathIllegal));
    assert_eq!(create_dir(&mut fs, "/usr"), Err(DirError::AlreadyExists));
    assert_eq!(names(&fs, "/usr"), vec![b"..".to_vec(), b".".to_vec()]);
}

#[test]
fn created_file_is_found_again_after_writing() {
    let (mut fs, mut table, mut fds) = fresh();
    create_dir(&mut fs, "/usr").unwrap();
    let mut w = File::create(&mut fs, &mut table, &mut fds, "/usr/data.bin").unwrap();
    assert_eq!(w.write(&mut fs, &mut table, &fds, b"payload"), Ok(7));
    assert_eq!(w.close(&mut table, &mut fds), Ok(()));
    let (e, _) = fs.search_dir_entry("/usr").unwrap();
    assert_eq!(e.file_type, FileType::Directory);
    let r = File::open(&fs, &mut table, &mut fds, "/usr/data.bin").unwrap();
    let mut buf = [0u8; 7];
    assert_eq!(r.read(&fs, &table, &fds, &mut buf), Ok(7));
    assert_eq!(&buf, b"payload");
}

#[test]
fn directory_entries_take_28_bytes_and_18_fit_a_block() {
    let (mut fs, _, _) = fresh();
    let root = |fs: &FileSystem| fs.inodes[0].as_ref().map(|n| (n.i_size, n.blocks[0] != 0, n.blocks[1] != 0)).unwrap();
    assert_eq!(root(&fs), (56, true, false));
    for k in 0..16u32 {
        let path = format!("/d{}", k);
        assert_eq!(create_dir(&mut fs, &path), Ok(()));
    }
    assert_eq!(root(&fs), (18 * 28, true, false));
    assert_eq!(create_dir(&mut fs, "/d16"), Ok(()));
    assert_eq!(root(&fs), (19 * 28, true, true));
}
