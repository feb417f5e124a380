//! End-to-end scenarios over the facade and the translator, served by the
//! in-memory backend.

use ossfs::error::{Error, EBADF, EEXIST, EINVAL, ENOENT, ENOSYS};
use ossfs::filesystem::FileSystem;
use ossfs::fuse::Fuse;
use ossfs::memory::MemoryBackend;
use ossfs::node::FileType;

const NOW: u64 = 1_600_000_000;

fn empty_root() -> MemoryBackend {
    MemoryBackend::new(b"root".to_vec(), 501, 20, NOW)
}

#[test]
fn cold_lookup_then_mknod() {
    let mut fs = FileSystem::new(empty_root());
    assert!(matches!(fs.lookup(1, &b"a".to_vec()), Err(Error::NotFound)));
    let node = fs.mknod(1, &b"a".to_vec(), FileType::RegularFile, 0o644, 0, 501, 20, NOW).unwrap();
    assert_eq!(node.inode(), 2);
    let attr = fs.lookup(1, &b"a".to_vec()).unwrap();
    assert_eq!(attr.ino, 2);
    assert_eq!(attr.kind, FileType::RegularFile);
    assert_eq!(attr.perm, 0o644);
}

#[test]
fn lookup_twice_is_stable() {
    let mut backend = empty_root();
    backend.insert_file(&b"root".to_vec(), &b"f".to_vec(), FileType::RegularFile, 0o644, vec![1, 2, 3]);
    let mut fs = FileSystem::new(backend);
    let first = fs.lookup(1, &b"f".to_vec()).unwrap();
    let count_after_first = fs.next_inode();
    let second = fs.lookup(1, &b"f".to_vec()).unwrap();
    assert_eq!(first, second);
    // no duplicate was recorded by the second call
    assert_eq!(fs.next_inode(), count_after_first);
}

#[test]
fn directory_streaming() {
    let mut backend = empty_root();
    for i in 0..200 {
        let name = format!("f{:03}", i).into_bytes();
        backend.insert_file(&b"root".to_vec(), &name, FileType::RegularFile, 0o644, vec![]);
    }
    let mut fs = FileSystem::new(backend);
    let page0 = fs.readdir(1, 9, 0).unwrap();
    assert_eq!(page0.len(), 85);
    assert_eq!(page0[0].path(), b"root/f000".to_vec());
    assert_eq!(page0[84].path(), b"root/f084".to_vec());
    let page1 = fs.readdir(1, 9, 85).unwrap();
    assert_eq!(page1.len(), 85);
    assert_eq!(page1[0].path(), b"root/f085".to_vec());
    let page2 = fs.readdir(1, 9, 170).unwrap();
    assert_eq!(page2.len(), 30);
    assert_eq!(page2[29].path(), b"root/f199".to_vec());
    let page3 = fs.readdir(1, 9, 200).unwrap();
    assert!(page3.is_empty());
}

#[test]
fn readdir_twice_same_order() {
    let mut backend = empty_root();
    backend.insert_file(&b"root".to_vec(), &b"b".to_vec(), FileType::RegularFile, 0o644, vec![]);
    backend.insert_file(&b"root".to_vec(), &b"a".to_vec(), FileType::RegularFile, 0o644, vec![]);
    let mut fs = FileSystem::new(backend);
    let first = fs.readdir(1, 9, 0).unwrap();
    let second = fs.readdir(1, 9, 0).unwrap();
    assert_eq!(first.len(), 2);
    assert_eq!(first.len(), second.len());
    for (x, y) in first.iter().zip(second.iter()) {
        assert_eq!(x.inode(), y.inode());
        assert_eq!(x.path(), y.path());
    }
    // listing order is the backend's order, not sorted
    assert_eq!(first[0].path(), b"root/b".to_vec());
    assert_eq!(first[1].path(), b"root/a".to_vec());
}

#[test]
fn bounded_read() {
    let mut backend = empty_root();
    backend.insert_file(
        &b"root".to_vec(),
        &b"ten".to_vec(),
        FileType::RegularFile,
        0o644,
        vec![0, 1, 2, 3, 4, 5, 6, 7, 8, 9],
    );
    let mut fs = FileSystem::new(backend);
    let attr = fs.lookup(1, &b"ten".to_vec()).unwrap();
    assert_eq!(attr.size, 10);
    let ino = attr.ino;
    assert_eq!(fs.read(ino, 5, false, 0, 4).unwrap(), vec![0, 1, 2, 3]);
    assert_eq!(fs.read(ino, 5, false, 8, 100).unwrap(), vec![8, 9]);
    assert_eq!(fs.read(ino, 5, false, 10, 1).unwrap(), Vec::<u8>::new());
    assert!(matches!(fs.read(ino, 5, false, 11, 1), Err(Error::OutOfRange)));
    assert_eq!(fs.read(ino, 5, true, 2, 0).unwrap(), vec![2, 3, 4, 5, 6, 7, 8, 9]);
    assert!(matches!(fs.read(99, 5, false, 0, 1), Err(Error::NotFound)));
}

#[test]
fn duplicate_mknod_fails_without_backend_call() {
    let mut fs = FileSystem::new(empty_root());
    let node = fs.mknod(1, &b"x".to_vec(), FileType::Directory, 0o755, 0, 501, 20, NOW).unwrap();
    assert_eq!(node.inode(), 2);
    assert_eq!(fs.backend.create_count(), 1);
    let count = fs.next_inode();
    let again = fs.mknod(1, &b"x".to_vec(), FileType::Directory, 0o755, 0, 501, 20, NOW);
    assert!(matches!(again, Err(Error::AlreadyExists)));
    // the name index did not grow and the backend was not asked again
    assert_eq!(fs.next_inode(), count);
    assert_eq!(fs.backend.create_count(), 1);
}

#[test]
fn mknod_then_lookup_agree() {
    let mut fs = FileSystem::new(empty_root());
    let node = fs.mknod(1, &b"n".to_vec(), FileType::RegularFile, 0o600, 0, 501, 20, NOW).unwrap();
    let attr = fs.lookup(1, &b"n".to_vec()).unwrap();
    assert_eq!(attr.ino, node.inode());
    assert_eq!(attr, node.attr());
    assert_eq!(attr.atime, NOW);
    assert_eq!(attr.size, 4096);
    assert_eq!(attr.nlink, 1);
}

#[test]
fn object_store_listing_through_manager() {
    let prefixes = vec![b"images/".to_vec(), b"docs/".to_vec()];
    let objects = vec![(b"README".to_vec(), 42u64)];
    let listing = ossfs::s3::s3_children(prefixes, objects, 501, 20);
    let mut fs = FileSystem::new(MemoryBackend::new(b"".to_vec(), 501, 20, NOW));
    fs.nodes_manager.batch_add_children(1, listing);
    let page = fs.readdir(1, 9, 0).unwrap();
    assert_eq!(page.len(), 3);
    assert_eq!(page[0].attr().kind, FileType::Directory);
    assert_eq!(page[0].attr().perm, 0o755);
    assert_eq!(page[1].attr().kind, FileType::Directory);
    assert_eq!(page[2].attr().kind, FileType::RegularFile);
    assert_eq!(page[2].attr().size, 42);
    assert_eq!(page[2].attr().perm, 0o644);
}

#[test]
fn getattr_and_statfs() {
    let mut backend = empty_root();
    backend.insert_file(&b"root".to_vec(), &b"f".to_vec(), FileType::RegularFile, 0o644, vec![7]);
    let mut fs = FileSystem::new(backend);
    let root_attr = fs.getattr(1).unwrap();
    assert_eq!(root_attr.ino, 1);
    assert_eq!(root_attr.kind, FileType::Directory);
    assert!(fs.getattr(42).is_none());
    let attr = fs.lookup(1, &b"f".to_vec()).unwrap();
    assert_eq!(fs.getattr(attr.ino).unwrap(), attr);
    let stat = fs.statfs(1).unwrap();
    assert_eq!(stat.block_size, 4096);
    assert!(matches!(fs.statfs(42), Err(Error::NotFound)));
}

#[test]
fn translator_lookup_and_mknod() {
    let mut fuse = Fuse::new(empty_root());
    assert_eq!(fuse.init(), Ok(()));
    assert_eq!(fuse.lookup(1, &b"a".to_vec()), Err(ENOENT));
    assert_eq!(fuse.lookup(1, &b"bad/name".to_vec()), Err(ENOENT));
    let attr = fuse.mknod(1, &b"a".to_vec(), 0o644, 0, 501, 20, NOW).unwrap();
    assert_eq!(attr.ino, 2);
    assert_eq!(attr.kind, FileType::RegularFile);
    // the translator masks the mode and marks it as a regular file
    assert_eq!(attr.perm, 0o644 | 0o100000 as u16);
    assert_eq!(fuse.lookup(1, &b"a".to_vec()).unwrap(), attr);
    assert_eq!(fuse.mknod(1, &b"a".to_vec(), 0o644, 0, 501, 20, NOW), Err(EEXIST));
    assert_eq!(fuse.mknod(1, &b"".to_vec(), 0o644, 0, 501, 20, NOW), Err(EINVAL));
    let dir = fuse.mkdir(1, &b"d".to_vec(), 0o755, 501, 20, NOW).unwrap();
    assert_eq!(dir.kind, FileType::Directory);
    assert_eq!(dir.perm, 0o755 | 0o040000 as u16);
    assert_eq!(fuse.getattr(2).unwrap().ino, 2);
    assert_eq!(fuse.getattr(77), Err(ENOENT));
}

#[test]
fn translator_handles_and_read() {
    let mut backend = empty_root();
    backend.insert_file(&b"root".to_vec(), &b"f".to_vec(), FileType::RegularFile, 0o644, vec![9, 8, 7]);
    let mut fuse = Fuse::new(backend);
    let attr = fuse.lookup(1, &b"f".to_vec()).unwrap();
    let (fh, flags) = fuse.open(attr.ino, 0o400).unwrap();
    assert_eq!(fh, 2);
    assert_eq!(flags, 0o400);
    assert_eq!(fuse.read(attr.ino, fh, 0, 2).unwrap(), vec![9, 8]);
    assert_eq!(fuse.read(attr.ino, fh, -1, 2), Err(EINVAL));
    assert_eq!(fuse.read(attr.ino, 99, 0, 2), Err(EBADF));
    assert_eq!(fuse.release(fh), Ok(()));
    assert_eq!(fuse.read(attr.ino, fh, 0, 2), Err(EBADF));
    assert_eq!(fuse.release(fh), Err(EBADF));
}

#[test]
fn translator_readdir_pages() {
    let mut backend = empty_root();
    backend.insert_file(&b"root".to_vec(), &b"one".to_vec(), FileType::RegularFile, 0o644, vec![]);
    backend.insert_file(&b"root".to_vec(), &b"two".to_vec(), FileType::Directory, 0o755, vec![]);
    let mut fuse = Fuse::new(backend);
    let (fh, _) = fuse.opendir(1, 0).unwrap();
    let page = fuse.readdir(1, fh, 0).unwrap();
    assert_eq!(page.len(), 2);
    assert_eq!(page[0].name, b"one".to_vec());
    assert_eq!(page[0].offset, 1);
    assert_eq!(page[0].kind, FileType::RegularFile);
    assert_eq!(page[1].name, b"two".to_vec());
    assert_eq!(page[1].offset, 2);
    let rest = fuse.readdir(1, fh, 2).unwrap();
    assert!(rest.is_empty());
    assert!(matches!(fuse.readdir(1, 99, 0), Err(code) if code == EBADF));
    assert_eq!(fuse.releasedir(fh), Ok(()));
    assert!(matches!(fuse.readdir(1, fh, 0), Err(code) if code == EBADF));
    let stat = fuse.statfs(1).unwrap();
    assert_eq!(stat.namelen, 65535);
    assert_eq!(fuse.statfs(50), Err(ENOENT));
}

#[test]
fn translator_unimplemented_operations() {
    let fuse = Fuse::new(empty_root());
    assert_eq!(fuse.setattr(1), Err(ENOSYS));
    assert_eq!(fuse.readlink(1), Err(ENOSYS));
    assert_eq!(fuse.unlink(1, &b"a".to_vec()), Err(ENOSYS));
    assert_eq!(fuse.rmdir(1, &b"a".to_vec()), Err(ENOSYS));
    assert_eq!(fuse.symlink(1, &b"a".to_vec(), &b"t".to_vec()), Err(ENOSYS));
    assert_eq!(fuse.rename(1, &b"a".to_vec(), 1, &b"b".to_vec()), Err(ENOSYS));
    assert_eq!(fuse.link(2, 1, &b"b".to_vec()), Err(ENOSYS));
    assert_eq!(fuse.write(2, 2, 0, &vec![1], 0), Err(ENOSYS));
    assert_eq!(fuse.flush(2, 2, 0), Err(ENOSYS));
    assert_eq!(fuse.fsync(2, 2, false), Err(ENOSYS));
    assert_eq!(fuse.fsyncdir(1, 2, false), Err(ENOSYS));
    assert_eq!(fuse.setxattr(1, &b"k".to_vec(), &b"v".to_vec()), Err(ENOSYS));
    assert_eq!(fuse.getxattr(1, &b"k".to_vec(), 0), Err(ENOSYS));
    assert_eq!(fuse.listxattr(1, 0), Err(ENOSYS));
    assert_eq!(fuse.removexattr(1, &b"k".to_vec()), Err(ENOSYS));
    assert_eq!(fuse.access(1, 4), Err(ENOSYS));
    assert_eq!(fuse.create(1, &b"a".to_vec(), 0o644, 0), Err(ENOSYS));
    assert_eq!(fuse.getlk(2, 2, 1), Err(ENOSYS));
    assert_eq!(fuse.setlk(2, 2, 1, false), Err(ENOSYS));
    assert_eq!(fuse.bmap(2, 512, 0), Err(ENOSYS));
    fuse.destroy();
    fuse.forget(2, 1);
}

#[test]
fn empty_directory_retries_backend() {
    // a parent whose listing came back empty stays unrecorded, so the
    // next listing asks the backend again and sees what appeared since
    let mut fs = FileSystem::new(empty_root());
    let first = fs.readdir(1, 9, 0).unwrap();
    assert!(first.is_empty());
    fs.backend.insert_file(&b"root".to_vec(), &b"late".to_vec(), FileType::RegularFile, 0o644, vec![]);
    let second = fs.readdir(1, 9, 0).unwrap();
    assert_eq!(second.len(), 1);
    assert_eq!(second[0].path(), b"root/late".to_vec());
}
