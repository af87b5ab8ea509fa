use std::io::Write;

use flate2::write::ZlibEncoder;
use flate2::Compression;
use remote_git_dump::config::parse_branches;
use remote_git_dump::error::RemoteGitHackDumpError;
use remote_git_dump::index::parse_index;
use remote_git_dump::loose::{read_object_from_bytes, strip_object_header};
use remote_git_dump::object_id::{create_path_from_sha1, ObjectEntry};
use remote_git_dump::objects::{mode_is_blob, mode_is_tree, read_commit, read_tree};
use remote_git_dump::refs::{branch_from_ref, parse_ref, trim_end_text};

const HEAD: &str = "1ac61cfbf9c0f770ba0d3b97198f1ce3378dcfe3";
const TREE: &str = "4b825dc642cb6eb9a060e54bf8d69288fbee4904";

fn compress(bytes: &[u8]) -> Vec<u8> {
    let mut enc = ZlibEncoder::new(Vec::new(), Compression::default());
    enc.write_all(bytes).unwrap();
    enc.finish().unwrap()
}

fn frame(kind: &str, payload: &[u8]) -> Vec<u8> {
    let mut out = format!("{} {}\0", kind, payload.len()).into_bytes();
    out.extend_from_slice(payload);
    out
}

fn hex_to_bytes(hex: &str) -> Vec<u8> {
    (0..hex.len()).step_by(2).map(|i| u8::from_str_radix(&hex[i..i + 2], 16).unwrap()).collect()
}

#[test]
fn object_path_splits_after_two_chars() {
    let p = create_path_from_sha1(HEAD).unwrap();
    assert_eq!(p, "objects/1a/c61cfbf9c0f770ba0d3b97198f1ce3378dcfe3");
    assert_eq!(p, format!("objects/{}/{}", &HEAD[0..2], &HEAD[2..]));
}

#[test]
fn object_path_rejects_other_lengths() {
    assert_eq!(create_path_from_sha1("abc"), Err(RemoteGitHackDumpError::SHA1Error(3)));
    assert_eq!(create_path_from_sha1(""), Err(RemoteGitHackDumpError::SHA1Error(0)));
    let long = format!("{}0", HEAD);
    assert_eq!(create_path_from_sha1(&long), Err(RemoteGitHackDumpError::SHA1Error(41)));
}

#[test]
fn object_entry_holds_id_and_path() {
    let e = ObjectEntry::new(TREE.to_string()).unwrap();
    assert_eq!(e.sha1, TREE);
    assert_eq!(e.down_path, "objects/4b/825dc642cb6eb9a060e54bf8d69288fbee4904");
    assert!(matches!(ObjectEntry::new("12".to_string()), Err(RemoteGitHackDumpError::SHA1Error(2))));
}

#[test]
fn decode_inverts_encode() {
    for (kind, payload) in [("blob", &b"hello\n"[..]), ("blob", &b""[..]), ("tree", &b"\0\0x"[..])] {
        let raw = compress(&frame(kind, payload));
        assert_eq!(read_object_from_bytes(&raw).unwrap(), payload.to_vec());
    }
    let big = vec![7u8; 1234];
    let raw = compress(&frame("blob", &big));
    assert_eq!(read_object_from_bytes(&raw).unwrap(), big);
}

#[test]
fn decode_rejects_bad_stream() {
    assert_eq!(read_object_from_bytes(b"not zlib at all"), Err(RemoteGitHackDumpError::DecompressError));
}

#[test]
fn decode_rejects_missing_zero_byte() {
    let raw = compress(b"blob 5 hello");
    assert_eq!(read_object_from_bytes(&raw), Err(RemoteGitHackDumpError::HandleDecodedObjectError));
}

#[test]
fn strip_header_keeps_after_first_zero() {
    assert_eq!(strip_object_header(&b"commit 3\0a\0b".to_vec()).unwrap(), b"a\0b".to_vec());
    assert_eq!(strip_object_header(&b"\0".to_vec()).unwrap(), Vec::<u8>::new());
    assert_eq!(strip_object_header(&Vec::new()), Err(RemoteGitHackDumpError::HandleDecodedObjectError));
}

#[test]
fn config_with_one_branch() {
    let config = b"[core]\n\tbare = false\n[branch \"main\"]\n\tremote = origin\n\tmerge = refs/heads/main\n";
    assert_eq!(parse_branches(config).unwrap(), vec!["main".to_string()]);
}

#[test]
fn config_branches_in_order_with_duplicates() {
    let config = b"[branch \"dev\"]\n[remote \"origin\"]\n\turl = x\n[branch \"main\"]\n[branch \"dev\"]\n";
    assert_eq!(parse_branches(config).unwrap(), vec!["dev".to_string(), "main".to_string(), "dev".to_string()]);
}

#[test]
fn config_without_branches() {
    assert_eq!(parse_branches(b"[core]\n\tbare = true\n").unwrap(), Vec::<String>::new());
    assert_eq!(parse_branches(b"").unwrap(), Vec::<String>::new());
}

#[test]
fn config_branch_without_subsection_is_malformed() {
    assert_eq!(parse_branches(b"[branch]\n\tx = 1\n"), Err(RemoteGitHackDumpError::GixConfigParseError));
}

#[test]
fn config_malformed() {
    assert_eq!(parse_branches(b"[branch \"main\"\n"), Err(RemoteGitHackDumpError::GixConfigParseError));
}

#[test]
fn ref_content_is_trimmed() {
    let content = format!("{}\n", HEAD);
    assert_eq!(parse_ref(content.as_bytes()).unwrap(), HEAD);
    assert_eq!(parse_ref(b"abc \t\r\n").unwrap(), "abc");
    assert_eq!(parse_ref(b"  abc").unwrap(), "  abc");
    assert_eq!(trim_end_text("x\u{3000}\u{a0} "), "x");
}

#[test]
fn ref_content_not_text() {
    assert_eq!(parse_ref(&[0xff, 0xfe]), Err(RemoteGitHackDumpError::Bytes2Utf8StringError));
}

#[test]
fn branch_discovery_one_branch() {
    let names = parse_branches(b"[branch \"main\"]\n").unwrap();
    assert_eq!(names.len(), 1);
    let content = format!("{}\n", HEAD);
    let b = branch_from_ref(names[0].clone(), content.as_bytes()).unwrap();
    assert_eq!(b.name, "main");
    assert_eq!(b.sha1, HEAD);
    assert_eq!(b.path, "");
}

#[test]
fn root_commit_has_no_parents() {
    let payload = format!(
        "tree {}\nauthor A U Thor <a@example.com> 1700000000 +0000\ncommitter A U Thor <a@example.com> 1700000000 +0000\n\nroot\n",
        TREE
    );
    let c = read_commit(payload.as_bytes()).unwrap();
    assert!(c.parents_sha1.is_empty());
    assert_eq!(c.tree_sha1, TREE);
}

#[test]
fn merge_commit_has_two_parents() {
    let p1 = "1111111111111111111111111111111111111111";
    let p2 = "2222222222222222222222222222222222222222";
    let payload = format!(
        "tree {}\nparent {}\nparent {}\nauthor A <a@b.c> 1 +0000\ncommitter A <a@b.c> 1 +0000\n\nmerge\n",
        TREE, p1, p2
    );
    let raw = compress(&frame("commit", payload.as_bytes()));
    let c = read_commit(&read_object_from_bytes(&raw).unwrap()).unwrap();
    assert_eq!(c.parents_sha1, vec![p1.to_string(), p2.to_string()]);
    assert_eq!(c.tree_sha1, TREE);
}

#[test]
fn commit_malformed() {
    assert!(matches!(read_commit(b"hello"), Err(RemoteGitHackDumpError::GixObjectParseError)));
}

#[test]
fn tree_entries_split_by_mode() {
    let sub = "1111111111111111111111111111111111111111";
    let file = "2222222222222222222222222222222222222222";
    let link = "3333333333333333333333333333333333333333";
    let mut payload = Vec::new();
    payload.extend_from_slice(b"100644 README.md\0");
    payload.extend_from_slice(&hex_to_bytes(file));
    payload.extend_from_slice(b"120000 link\0");
    payload.extend_from_slice(&hex_to_bytes(link));
    payload.extend_from_slice(b"40000 src\0");
    payload.extend_from_slice(&hex_to_bytes(sub));
    let t = read_tree(&payload).unwrap();
    assert_eq!(t.trees.len(), 1);
    assert_eq!(t.trees[0].name, "src");
    assert_eq!(t.trees[0].sha1, sub);
    assert_eq!(t.blobs.len(), 1);
    assert_eq!(t.blobs[0].name, "README.md");
    assert_eq!(t.blobs[0].sha1, file);
}

#[test]
fn tree_empty_and_malformed() {
    let t = read_tree(b"").unwrap();
    assert!(t.trees.is_empty() && t.blobs.is_empty());
    assert!(matches!(read_tree(b"100644 x"), Err(RemoteGitHackDumpError::GixObjectParseError)));
}

#[test]
fn modes() {
    assert!(mode_is_tree(0o040000));
    assert!(!mode_is_tree(0o100644));
    assert!(mode_is_blob(0o100644));
    assert!(mode_is_blob(0o100755));
    assert!(!mode_is_blob(0o120000));
    assert!(!mode_is_blob(0o160000));
}

fn index_bytes(entries: &[(&str, &str)]) -> Vec<u8> {
    let mut out = Vec::new();
    out.extend_from_slice(b"DIRC");
    out.extend_from_slice(&2u32.to_be_bytes());
    out.extend_from_slice(&(entries.len() as u32).to_be_bytes());
    for (path, id) in entries {
        let start = out.len();
        out.extend_from_slice(&[0u8; 24]);
        out.extend_from_slice(&0o100644u32.to_be_bytes());
        out.extend_from_slice(&[0u8; 12]);
        out.extend_from_slice(&hex_to_bytes(id));
        out.extend_from_slice(&(path.len() as u16).to_be_bytes());
        out.extend_from_slice(path.as_bytes());
        let len = out.len() - start;
        let padded = (len + 8) / 8 * 8;
        out.resize(start + padded, 0);
    }
    out.extend_from_slice(&[0u8; 20]);
    out
}

#[test]
fn index_one_entry_and_blob() {
    let blob_id = "ce013625030ba8dba906f756967f9e9ca394464a";
    let data = index_bytes(&[("README.md", blob_id)]);
    let items = parse_index(&data).unwrap();
    assert_eq!(items.len(), 1);
    assert_eq!(items[0].path, "README.md");
    assert_eq!(items[0].sha1, blob_id);
    let raw = compress(&frame("blob", b"hello\n"));
    assert_eq!(read_object_from_bytes(&raw).unwrap(), b"hello\n".to_vec());
}

#[test]
fn index_parse_twice_same_order() {
    let a = "1111111111111111111111111111111111111111";
    let b = "2222222222222222222222222222222222222222";
    let data = index_bytes(&[("a.txt", a), ("dir/b.txt", b)]);
    let first = parse_index(&data).unwrap();
    let second = parse_index(&data).unwrap();
    let view = |v: &Vec<remote_git_dump::objects::AtomItem>| {
        v.iter().map(|i| (i.path.clone(), i.sha1.clone())).collect::<Vec<_>>()
    };
    assert_eq!(view(&first), view(&second));
    assert_eq!(view(&first), vec![("a.txt".to_string(), a.to_string()), ("dir/b.txt".to_string(), b.to_string())]);
}

#[test]
fn index_malformed() {
    assert!(matches!(parse_index(b"DIRX"), Err(RemoteGitHackDumpError::IndexParseError)));
    assert!(matches!(parse_index(b""), Err(RemoteGitHackDumpError::IndexParseError)));
}
