use knast::image::Unpacker;
use knast::tree::Tree;

fn strings(v: &[&str]) -> Vec<String> {
    v.iter().map(|s| s.to_string()).collect()
}

#[test]
fn whiteouts_remove_siblings_and_opaque_directories() {
    let unpacker = Unpacker::new("/dest");
    let mut tree = Tree::new();
    for p in ["/dest/dir/file", "/dest/dir/keep", "/dest/usr/share/a", "/dest/usr", "/dest/usrlocal"] {
        tree.add(p.to_string());
    }
    unpacker.apply_layer(&mut tree, &strings(&["dir/.wh.file", "usr/.wh..wh..opq", "new.txt"]));
    assert!(!tree.contains("/dest/dir/file"));
    assert!(!tree.contains("/dest/dir/.wh.file"));
    assert!(tree.contains("/dest/dir/keep"));
    assert!(!tree.contains("/dest/usr/share/a"));
    assert!(!tree.contains("/dest/usr"));
    assert!(tree.contains("/dest/usrlocal"));
    assert!(tree.contains("/dest/new.txt"));
}

#[test]
fn layers_apply_in_order() {
    let unpacker = Unpacker::new("/dest");
    let mut tree = Tree::new();
    let layers = vec![
        strings(&["etc/", "etc/passwd", "etc/motd"]),
        strings(&["etc/.wh.motd", "etc/hosts"]),
        strings(&["etc/motd"]),
    ];
    unpacker.unpack_layers(&mut tree, &layers[..2].to_vec());
    assert!(!tree.contains("/dest/etc/motd"));
    assert!(tree.contains("/dest/etc/passwd"));
    assert!(tree.contains("/dest/etc/hosts"));
    let mut all = Tree::new();
    unpacker.unpack_layers(&mut all, &layers);
    assert!(all.contains("/dest/etc/motd"));
    assert!(all.contains("/dest/etc"));
}
