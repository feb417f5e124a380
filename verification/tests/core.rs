//! Exercises the building blocks: byte-string helpers, the sharded store,
//! the manager, the handle table, and the per-backend mapping functions.

use ossfs::bytes::{basename, bytes_eq, check_name, clone_bytes, path_join, trim_prefix};
use ossfs::backend::read_window;
use ossfs::counter::{within_interval, Recored};
use ossfs::cachefs::CacheFs;
use ossfs::error::{Error, EACCES, EBADF, EEXIST, EINVAL, EIO, ENOENT, EOPNOTSUPP};
use ossfs::filer::{chunk_sum, filer_children, filer_node, filer_probe_attr, Chunk, FilerEntry};
use ossfs::fuse::HandleTable;
use ossfs::manager::{AddChild, InodeManager};
use ossfs::node::{FileAttr, FileType, Node};
use ossfs::s3::{s3_children, s3_root_node, s3_stat};
use ossfs::simple::{node_from_metadata, root_from_metadata};
use ossfs::tree::Tree;
use ossfs::util::is_usize;

fn attr(kind: FileType, size: u64) -> FileAttr {
    FileAttr {
        ino: 0,
        size,
        blocks: 1,
        atime: 0,
        mtime: 0,
        ctime: 0,
        crtime: 0,
        kind,
        perm: 0o644,
        nlink: 1,
        uid: 0,
        gid: 0,
        rdev: 0,
        flags: 0,
    }
}

fn root_node(path: &[u8]) -> Node {
    Node::new(
        1,
        1,
        path.to_vec(),
        FileAttr { kind: FileType::Directory, perm: 0o755, ..attr(FileType::Directory, 4096) },
    )
}

#[test]
fn bytes_helpers() {
    assert_eq!(basename(&b"a/b/c.txt".to_vec()), b"c.txt".to_vec());
    assert_eq!(basename(&b"plain".to_vec()), b"plain".to_vec());
    assert_eq!(basename(&b"dir/".to_vec()), b"dir".to_vec());
    assert_eq!(basename(&b"images/".to_vec()), b"images".to_vec());
    assert_eq!(path_join(&b"root".to_vec(), &b"a".to_vec()), b"root/a".to_vec());
    assert_eq!(path_join(&b"root/".to_vec(), &b"a".to_vec()), b"root/a".to_vec());
    assert_eq!(path_join(&b"".to_vec(), &b"a".to_vec()), b"a".to_vec());
    assert_eq!(trim_prefix(&b"http://x/f".to_vec(), &b"http://x/".to_vec()), b"f".to_vec());
    assert_eq!(trim_prefix(&b"abc".to_vec(), &b"zz".to_vec()), b"abc".to_vec());
    assert_eq!(trim_prefix(&b"ab".to_vec(), &b"abc".to_vec()), b"ab".to_vec());
    assert!(bytes_eq(&b"same".to_vec(), &b"same".to_vec()));
    assert!(!bytes_eq(&b"same".to_vec(), &b"sane".to_vec()));
    assert!(clone_bytes(&b"xyz".to_vec()) == b"xyz".to_vec());
    assert!(check_name(&b"name".to_vec()));
    assert!(!check_name(&b"".to_vec()));
    assert!(!check_name(&b"a/b".to_vec()));
}

#[test]
fn memory_backend_reads_exact_window() {
    let mut backend = ossfs::memory::MemoryBackend::new(b"root".to_vec(), 0, 0, 0);
    backend.insert_file(
        &b"root".to_vec(),
        &b"f".to_vec(),
        FileType::RegularFile,
        0o644,
        vec![10, 11, 12, 13, 14],
    );
    assert_eq!(backend.read_bytes(&b"root/f".to_vec(), 1, 3).unwrap(), vec![11, 12, 13]);
    assert_eq!(backend.read_bytes(&b"root/f".to_vec(), 3, 99).unwrap(), vec![13, 14]);
    assert_eq!(backend.read_bytes(&b"root/f".to_vec(), 5, 1).unwrap(), Vec::<u8>::new());
    assert!(matches!(backend.read_bytes(&b"root/f".to_vec(), 6, 1), Err(Error::OutOfRange)));
    assert!(matches!(backend.read_bytes(&b"root/g".to_vec(), 0, 1), Err(Error::NotFound)));
}

#[test]
fn read_window_clamps() {
    assert_eq!(read_window(10, 10, 5), Ok(0));
    assert_eq!(read_window(10, 11, 5), Err(Error::OutOfRange));
    assert_eq!(read_window(10, 0, 4), Ok(4));
    assert_eq!(read_window(10, 8, 100), Ok(2));
}

#[test]
fn tree_insert_and_children() {
    let mut tree = Tree::new(root_node(b"root"));
    assert_eq!(tree.len(), 2);
    let a = tree.insert(1, Node::new(0, 0, b"root/a".to_vec(), attr(FileType::RegularFile, 1)));
    let b = tree.insert(1, Node::new(0, 0, b"root/b".to_vec(), attr(FileType::RegularFile, 2)));
    assert_eq!(a, 2);
    assert_eq!(b, 3);
    assert_eq!(tree.len(), 4);
    let got = tree.get(2);
    assert_eq!(got.inode(), 2);
    assert_eq!(got.parent(), 1);
    assert_eq!(got.attr().ino, 2);
    assert_eq!(got.path(), b"root/a".to_vec());
    let kids = tree.children(1, 0, 10);
    assert_eq!(kids.len(), 2);
    assert_eq!(kids[0].inode(), 2);
    assert_eq!(kids[1].inode(), 3);
    let window = tree.children(1, 1, 10);
    assert_eq!(window.len(), 1);
    assert_eq!(window[0].inode(), 3);
    assert_eq!(tree.children(1, 5, 10).len(), 0);
}

#[test]
fn manager_name_index() {
    let mut m = InodeManager::new(root_node(b"root"));
    assert_eq!(m.next_inode(), 2);
    let r = m.add_child(1, Node::new(0, 0, b"root/a".to_vec(), attr(FileType::RegularFile, 1)));
    assert_eq!(r, AddChild::Added(2));
    // the same basename again is rejected and resolves to the survivor
    let r = m.add_child(1, Node::new(0, 0, b"root/a".to_vec(), attr(FileType::RegularFile, 9)));
    assert_eq!(r, AddChild::Exists(2));
    assert_eq!(m.next_inode(), 3);
    let child = m.get_child_by_name(1, &b"a".to_vec()).unwrap().unwrap();
    assert_eq!(child.inode(), 2);
    assert!(m.get_child_by_name(1, &b"missing".to_vec()).unwrap().is_none());
    assert!(matches!(m.get_child_by_name(9, &b"a".to_vec()), Err(Error::NotFound)));
    let node = m.get_node_by_inode(2).unwrap();
    assert_eq!(node.attr().ino, 2);
    assert!(matches!(m.get_node_by_inode(7), Err(Error::NotFound)));
}

#[test]
fn manager_batch_skips_duplicates() {
    let mut m = InodeManager::new(root_node(b"root"));
    let batch = vec![
        Node::new(0, 0, b"root/x".to_vec(), attr(FileType::RegularFile, 1)),
        Node::new(0, 0, b"root/y".to_vec(), attr(FileType::Directory, 0)),
        Node::new(0, 0, b"root/x".to_vec(), attr(FileType::RegularFile, 5)),
    ];
    m.batch_add_children(1, batch);
    // the duplicate of "x" was skipped: two children survive
    assert_eq!(m.next_inode(), 4);
    let kids = m.get_children_by_index(1, 0, -1, false).unwrap().unwrap();
    assert_eq!(kids.len(), 2);
    assert_eq!(kids[0].path(), b"root/x".to_vec());
    assert_eq!(kids[1].path(), b"root/y".to_vec());
    // the surviving "x" is the first one
    assert_eq!(kids[0].attr().size, 1);
}

#[test]
fn manager_children_window_signals() {
    let mut m = InodeManager::new(root_node(b"root"));
    // nothing recorded: check_empty at offset zero signals a fetch
    assert!(m.get_children_by_index(1, 0, 85, true).unwrap().is_none());
    m.add_child(1, Node::new(0, 0, b"root/a".to_vec(), attr(FileType::RegularFile, 1)));
    let page = m.get_children_by_index(1, 0, 85, true).unwrap().unwrap();
    assert_eq!(page.len(), 1);
    // out-of-range offsets give an empty page, not a fetch signal
    let empty = m.get_children_by_index(1, 5, 85, false).unwrap().unwrap();
    assert!(empty.is_empty());
}

#[test]
fn errno_mapping() {
    assert_eq!(Error::NotFound.errno(), ENOENT);
    assert_eq!(Error::OutOfRange.errno(), EINVAL);
    assert_eq!(Error::AlreadyExists.errno(), EEXIST);
    assert_eq!(Error::PermissionDenied.errno(), EACCES);
    assert_eq!(Error::BackendUnavailable.errno(), EIO);
    assert_eq!(Error::Unsupported.errno(), EOPNOTSUPP);
    assert_eq!(Error::BadHandle.errno(), EBADF);
    assert_eq!(Error::IO.errno(), EIO);
    assert_eq!(Error::Other.errno(), EIO);
}

#[test]
fn handle_table_lifecycle() {
    let mut t = HandleTable::new();
    let h1 = t.open(5, 0);
    let h2 = t.open(5, 1);
    assert_eq!(h1, 2);
    assert_eq!(h2, 3);
    assert!(t.is_open(h1));
    assert_eq!(t.reference_count(5), 2);
    assert_eq!(t.release(h1), Ok(()));
    assert!(!t.is_open(h1));
    assert_eq!(t.reference_count(5), 1);
    // releasing twice is a bad handle, as is an unknown token
    assert_eq!(t.release(h1), Err(Error::BadHandle));
    assert_eq!(t.release(0), Err(Error::BadHandle));
    assert_eq!(t.release(99), Err(Error::BadHandle));
    assert!(t.is_open(h2));
}

#[test]
fn s3_listing_order_and_modes() {
    let prefixes = vec![b"images/".to_vec(), b"docs/".to_vec()];
    let objects = vec![(b"README".to_vec(), 42u64)];
    let nodes = s3_children(prefixes, objects, 501, 20);
    assert_eq!(nodes.len(), 3);
    assert_eq!(nodes[0].path(), b"images/".to_vec());
    assert_eq!(nodes[0].attr().kind, FileType::Directory);
    assert_eq!(nodes[0].attr().perm, 0o755);
    assert_eq!(nodes[1].path(), b"docs/".to_vec());
    assert_eq!(nodes[1].attr().kind, FileType::Directory);
    assert_eq!(nodes[2].path(), b"README".to_vec());
    assert_eq!(nodes[2].attr().kind, FileType::RegularFile);
    assert_eq!(nodes[2].attr().perm, 0o644);
    assert_eq!(nodes[2].attr().size, 42);
    let root = s3_root_node(501, 20);
    assert_eq!(root.inode(), 1);
    assert_eq!(root.attr().perm, 0o755);
    assert_eq!(root.path(), b"".to_vec());
    let stat = s3_stat();
    assert_eq!(stat.namelen, 65535);
    assert_eq!(stat.blocks, 1);
}

#[test]
fn filer_entry_semantics() {
    let entry = FilerEntry {
        fullpath: b"http://filer/bucket/movie".to_vec(),
        mtime: 100,
        crtime: 90,
        chunks: vec![Chunk { size: 7 }, Chunk { size: 5 }],
    };
    assert_eq!(chunk_sum(&entry.chunks), 12);
    let node = filer_node(&entry, &b"http://filer/".to_vec(), 333);
    assert_eq!(node.path(), b"bucket/movie".to_vec());
    let a = node.attr();
    assert_eq!(a.size, 12);
    assert_eq!(a.kind, FileType::RegularFile);
    assert_eq!(a.perm, 0o644);
    assert_eq!(a.mtime, 100);
    assert_eq!(a.crtime, 90);
    assert_eq!(a.atime, 333);
    // an entry without chunks is a directory
    let dir = FilerEntry {
        fullpath: b"bucket/sub".to_vec(),
        mtime: 1,
        crtime: 1,
        chunks: vec![],
    };
    let list = filer_children(&vec![dir], &b"".to_vec(), 0);
    assert_eq!(list.len(), 1);
    assert_eq!(list[0].attr().kind, FileType::Directory);
    assert_eq!(list[0].attr().perm, 0o755);
    assert_eq!(list[0].attr().size, 0);
    // chunk sums saturate instead of wrapping
    let huge = vec![Chunk { size: u64::MAX }, Chunk { size: 3 }];
    assert_eq!(chunk_sum(&huge), u64::MAX);
    let probe = filer_probe_attr(10, 55, true, 7);
    assert_eq!(probe.kind, FileType::Directory);
    assert_eq!(probe.size, 10);
    assert_eq!(probe.mtime, 55);
}

#[test]
fn local_metadata_mapping() {
    let n = node_from_metadata(
        b"/data/f".to_vec(),
        9,
        1,
        10,
        20,
        30,
        40,
        false,
        0o100644,
        1,
        501,
        20,
        0,
    );
    assert_eq!(n.inode(), 0);
    assert_eq!(n.attr().kind, FileType::RegularFile);
    assert_eq!(n.attr().size, 9);
    assert_eq!(n.attr().perm, 0o644 | 0o100000 as u16);
    let r = root_from_metadata(b"/data".to_vec(), 8, 1, 2, 3, 4, 0o755, 501, 20, 0);
    assert_eq!(r.inode(), 1);
    assert_eq!(r.attr().kind, FileType::Directory);
    assert_eq!(r.attr().size, 4096);
    assert_eq!(r.attr().nlink, 2);
}

#[test]
fn counter_record_updates() {
    let mut rec = Recored::new(1000, 5);
    assert_eq!(rec.count, 1);
    assert_eq!(rec.min, 5);
    assert_eq!(rec.max, 5);
    rec.observe(9);
    assert_eq!((rec.count, rec.min, rec.max, rec.total), (2, 5, 9, 14));
    rec.observe(2);
    assert_eq!((rec.count, rec.min, rec.max, rec.total), (3, 2, 9, 16));
    // a cost between the extremes moves neither of them
    rec.observe(6);
    assert_eq!((rec.count, rec.min, rec.max, rec.total), (4, 2, 9, 22));
    assert!(within_interval(100, 10, 105));
    assert!(!within_interval(100, 10, 110));
    assert!(within_interval(u64::MAX, 10, 5));
}

#[test]
fn cachefs_remember_and_lookup() {
    let mut cache = CacheFs::new();
    assert!(cache.cached(7).is_none());
    cache.remember(7, 3, FileType::Directory, b"home".to_vec());
    let (off, kind, name) = cache.cached(7).unwrap();
    assert_eq!(*off, 3);
    assert_eq!(*kind, FileType::Directory);
    assert_eq!(name, &b"home".to_vec());
    cache.remember(7, 4, FileType::RegularFile, b"home2".to_vec());
    assert_eq!(cache.cached(7).unwrap().1, FileType::RegularFile);
}

#[test]
fn is_usize_accepts_numbers() {
    assert!(is_usize(String::from("0")).is_ok());
    assert!(is_usize(String::from("12345")).is_ok());
    assert!(is_usize(String::from("+7")).is_ok());
    assert!(is_usize(String::from("")).is_err());
    assert!(is_usize(String::from("+")).is_err());
    assert!(is_usize(String::from("12a")).is_err());
    assert!(is_usize(String::from("-3")).is_err());
    assert!(is_usize(String::from("99999999999999999999999999")).is_err());
}
